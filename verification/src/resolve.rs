//! The wikilink resolver: a two-pass algorithm. The index pass records every
//! document's separator-normalized relative path as an addressable target;
//! the resolution pass extracts every wikilink, splits off any `#fragment`,
//! trims whitespace, skips empty targets, strips one leading authoring
//! prefix, and reports each target that matches no indexed path. Broken
//! links are reported in discovery order: documents in snapshot order, link
//! occurrences in textual order.

use vstd::prelude::*;
use crate::doc::BrokenLink;
use crate::doc::Doc;
use crate::text::copy_range;
use crate::text::find_byte_from;
use crate::text::first_byte_from;
use crate::text::norm_sep;
use crate::text::normalize_separators;
use crate::text::bytes_eq;
use crate::text::strip_prefix_once;
use crate::text::strip_prefix_spec;
use crate::text::trim_bytes;
use crate::text::trim_spec;
use crate::text::views_of;
use crate::wikilink::extract_wikilinks;
use crate::wikilink::wikilinks;

verus! {

pub const HASH: u8 = 35;  // '#'

/// The raw link with any `#fragment` suffix discarded.
pub open spec fn fragment_free(l: Seq<u8>) -> Seq<u8> {
    l.take(first_byte_from(l, HASH, 0))
}

/// The resolved form of a raw link: fragment discarded, whitespace trimmed.
pub open spec fn resolve_target(l: Seq<u8>) -> Seq<u8> {
    trim_spec(fragment_free(l))
}

/// The target `t` is addressable: some document's separator-normalized path
/// equals it.
pub open spec fn is_existing(docs: Seq<Doc>, t: Seq<u8>) -> bool {
    exists|k: int| 0 <= k < docs.len() && norm_sep(docs[k].path@) == t
}

/// A raw link is broken when its resolved target is nonempty and, after one
/// leading `prefix` is stripped, matches no document of the snapshot.
pub open spec fn link_is_broken(docs: Seq<Doc>, l: Seq<u8>, prefix: Seq<u8>) -> bool {
    let t = resolve_target(l);
    t.len() > 0 && !is_existing(docs, strip_prefix_spec(t, prefix))
}

/// The broken-link records contributed by one document's raw links, in
/// textual order: each record pairs the source path with the resolved (but
/// unstripped) target.
pub open spec fn broken_from_links(
    src: Seq<u8>,
    links: Seq<Seq<u8>>,
    docs: Seq<Doc>,
    prefix: Seq<u8>,
) -> Seq<(Seq<u8>, Seq<u8>)>
    decreases links.len(),
{
    if links.len() == 0 {
        Seq::empty()
    } else {
        let head: Seq<(Seq<u8>, Seq<u8>)> = if link_is_broken(docs, links[0], prefix) {
            seq![(src, resolve_target(links[0]))]
        } else {
            Seq::empty()
        };
        head + broken_from_links(src, links.drop_first(), docs, prefix)
    }
}

/// The broken-link records of the documents in `scan`, resolved against the
/// full snapshot `docs`, in discovery order.
pub open spec fn broken_in_docs(scan: Seq<Doc>, docs: Seq<Doc>, prefix: Seq<u8>) -> Seq<
    (Seq<u8>, Seq<u8>),
>
    decreases scan.len(),
{
    if scan.len() == 0 {
        Seq::empty()
    } else {
        broken_from_links(scan[0].path@, wikilinks(scan[0].content@), docs, prefix)
            + broken_in_docs(scan.drop_first(), docs, prefix)
    }
}

/// Every broken-link record of the snapshot, in discovery order.
pub open spec fn broken_links_spec(docs: Seq<Doc>, prefix: Seq<u8>) -> Seq<(Seq<u8>, Seq<u8>)> {
    broken_in_docs(docs, docs, prefix)
}

/// View of a broken-link vector as (source, target) pairs.
pub open spec fn broken_views(s: Seq<BrokenLink>) -> Seq<(Seq<u8>, Seq<u8>)> {
    s.map_values(|b: BrokenLink| (b.source@, b.target@))
}

/// A document's contribution to the broken-link report is exactly its
/// sequence of raw link occurrences, filtered to the broken ones, each
/// mapped to its record — so every broken wikilink is reported exactly once
/// per occurrence, in textual order.
pub proof fn lemma_broken_once_per_occurrence(
    src: Seq<u8>,
    links: Seq<Seq<u8>>,
    docs: Seq<Doc>,
    prefix: Seq<u8>,
)
    ensures
        broken_from_links(src, links, docs, prefix) == links.filter(
            |l: Seq<u8>| link_is_broken(docs, l, prefix),
        ).map_values(|l: Seq<u8>| (src, resolve_target(l))),
    decreases links.len(),
{
    let pred = |l: Seq<u8>| link_is_broken(docs, l, prefix);
    let f = |l: Seq<u8>| (src, resolve_target(l));
    reveal_with_fuel(Seq::<Seq<u8>>::filter, 3);
    if links.len() == 0 {
        assert(links.filter(pred).map_values(f) =~= Seq::<(Seq<u8>, Seq<u8>)>::empty());
    } else {
        let head = seq![links[0]];
        let tail = links.drop_first();
        lemma_broken_once_per_occurrence(src, tail, docs, prefix);
        assert(links =~= head + tail);
        Seq::<Seq<u8>>::filter_distributes_over_add(head, tail, pred);
        assert(head.drop_last() =~= Seq::<Seq<u8>>::empty());
        if pred(links[0]) {
            assert(head.filter(pred) =~= seq![links[0]]);
            assert(head.filter(pred).map_values(f) =~= seq![(src, resolve_target(links[0]))]);
        } else {
            assert(head.filter(pred) =~= Seq::<Seq<u8>>::empty());
            assert(head.filter(pred).map_values(f) =~= Seq::<(Seq<u8>, Seq<u8>)>::empty());
        }
        assert((head.filter(pred) + tail.filter(pred)).map_values(f) =~= head.filter(
            pred,
        ).map_values(f) + tail.filter(pred).map_values(f));
        assert(broken_from_links(src, links, docs, prefix) == head.filter(pred).map_values(f)
            + broken_from_links(src, tail, docs, prefix));
    }
}

proof fn lemma_index_membership(index: Seq<Vec<u8>>, docs: Seq<Doc>, t: Seq<u8>)
    requires
        index.len() == docs.len(),
        forall|k: int| 0 <= k < docs.len() ==> index[k]@ == norm_sep(docs[k].path@),
    ensures
        (exists|k: int| 0 <= k < index.len() && index[k]@ == t) <==> is_existing(docs, t),
{
    if exists|k: int| 0 <= k < index.len() && index[k]@ == t {
        let k = choose|k: int| 0 <= k < index.len() && index[k]@ == t;
        assert(norm_sep(docs[k].path@) == t);
    }
    if is_existing(docs, t) {
        let k = choose|k: int| 0 <= k < docs.len() && norm_sep(docs[k].path@) == t;
        assert(index[k]@ == t);
    }
}

/// Is `t` among the indexed paths?
fn index_contains(index: &Vec<Vec<u8>>, t: &Vec<u8>) -> (r: bool)
    ensures
        r == exists|k: int| 0 <= k < index@.len() && index@[k]@ == t@,
{
    let n = index.len();
    let mut i: usize = 0;
    while i < n
        invariant
            n == index@.len(),
            i <= n,
            forall|k: int| 0 <= k < i ==> index@[k]@ != t@,
        decreases n - i,
    {
        if bytes_eq(&index[i], t) {
            return true;
        }
        i += 1;
    }
    false
}

/// The resolved form of one raw link: fragment split off, whitespace
/// trimmed.
pub fn target_of(link: &Vec<u8>) -> (r: Vec<u8>)
    ensures
        r@ == resolve_target(link@),
{
    let h = find_byte_from(link, HASH, 0);
    let pre = copy_range(link, 0, h);
    trim_bytes(&pre)
}

/// Collect every broken wikilink of the snapshot, in discovery order: outer
/// loop over documents in snapshot order, inner loop over link occurrences
/// in textual order.
pub fn broken_wikilinks(docs: &Vec<Doc>, prefix: &Vec<u8>) -> (r: Vec<BrokenLink>)
    ensures
        broken_views(r@) == broken_links_spec(docs@, prefix@),
{
    let n = docs.len();
    // Index pass: record each document's normalized relative path.
    let mut index: Vec<Vec<u8>> = Vec::new();
    let mut i: usize = 0;
    while i < n
        invariant
            n == docs@.len(),
            i <= n,
            index@.len() == i,
            forall|k: int| 0 <= k < i ==> index@[k]@ == norm_sep(docs@[k].path@),
        decreases n - i,
    {
        let p = normalize_separators(&docs[i].path);
        index.push(p);
        i += 1;
    }
    // Resolution pass.
    let mut out: Vec<BrokenLink> = Vec::new();
    let mut d: usize = 0;
    proof {
        assert(broken_views(out@) =~= Seq::<(Seq<u8>, Seq<u8>)>::empty());
        assert(broken_views(out@) + broken_in_docs(docs@.skip(0), docs@, prefix@)
            =~= broken_in_docs(docs@.skip(0), docs@, prefix@));
        assert(docs@.skip(0) =~= docs@);
    }
    while d < n
        invariant
            n == docs@.len(),
            d <= n,
            index@.len() == n,
            forall|k: int| 0 <= k < n ==> index@[k]@ == norm_sep(docs@[k].path@),
            broken_views(out@) + broken_in_docs(docs@.skip(d as int), docs@, prefix@)
                == broken_links_spec(docs@, prefix@),
        decreases n - d,
    {
        let links = extract_wikilinks(&docs[d].content);
        let ghost src = docs@[d as int].path@;
        let ghost lv = views_of(links@);
        let ln = links.len();
        proof {
            assert(lv == wikilinks(docs@[d as int].content@));
            assert(docs@.skip(d as int)[0] == docs@[d as int]);
            assert(docs@.skip(d as int).drop_first() =~= docs@.skip(d as int + 1));
            assert(broken_in_docs(docs@.skip(d as int), docs@, prefix@) == broken_from_links(
                src,
                lv,
                docs@,
                prefix@,
            ) + broken_in_docs(docs@.skip(d as int + 1), docs@, prefix@));
            assert(lv.skip(0) =~= lv);
        }
        let mut l: usize = 0;
        while l < ln
            invariant
                n == docs@.len(),
                d < n,
                ln == links@.len(),
                l <= ln,
                index@.len() == n,
                forall|k: int| 0 <= k < n ==> index@[k]@ == norm_sep(docs@[k].path@),
                src == docs@[d as int].path@,
                lv == views_of(links@),
                broken_views(out@) + (broken_from_links(src, lv.skip(l as int), docs@, prefix@)
                    + broken_in_docs(docs@.skip(d as int + 1), docs@, prefix@))
                    == broken_links_spec(docs@, prefix@),
            decreases ln - l,
        {
            let ghost rest = broken_in_docs(docs@.skip(d as int + 1), docs@, prefix@);
            proof {
                assert(lv.skip(l as int)[0] == lv[l as int]);
                assert(lv.skip(l as int).drop_first() =~= lv.skip(l as int + 1));
            }
            let t = target_of(&links[l]);
            assert(t@ == resolve_target(lv[l as int]));
            if t.len() > 0 {
                let stripped = strip_prefix_once(&t, prefix);
                let found = index_contains(&index, &stripped);
                proof {
                    lemma_index_membership(index@, docs@, stripped@);
                }
                if !found {
                    assert(link_is_broken(docs@, lv[l as int], prefix@));
                    let srcpath = copy_range(&docs[d].path, 0, docs[d].path.len());
                    assert(srcpath@ =~= src);
                    let ghost old_out = out@;
                    out.push(BrokenLink { source: srcpath, target: t });
                    proof {
                        assert(broken_views(out@) =~= broken_views(old_out) + seq![
                            (src, resolve_target(lv[l as int])),
                        ]);
                        assert(broken_from_links(src, lv.skip(l as int), docs@, prefix@) == seq![
                            (src, resolve_target(lv[l as int])),
                        ] + broken_from_links(src, lv.skip(l as int + 1), docs@, prefix@));
                        assert((broken_views(old_out) + seq![(src, resolve_target(lv[l as int]))])
                            + (broken_from_links(src, lv.skip(l as int + 1), docs@, prefix@) + rest)
                            =~= broken_views(old_out) + ((seq![
                            (src, resolve_target(lv[l as int])),
                        ] + broken_from_links(src, lv.skip(l as int + 1), docs@, prefix@)) + rest));
                    }
                } else {
                    proof {
                        assert(!link_is_broken(docs@, lv[l as int], prefix@));
                        assert(broken_from_links(src, lv.skip(l as int), docs@, prefix@)
                            == Seq::<(Seq<u8>, Seq<u8>)>::empty() + broken_from_links(
                            src,
                            lv.skip(l as int + 1),
                            docs@,
                            prefix@,
                        ));
                        assert(Seq::<(Seq<u8>, Seq<u8>)>::empty() + broken_from_links(
                            src,
                            lv.skip(l as int + 1),
                            docs@,
                            prefix@,
                        ) =~= broken_from_links(src, lv.skip(l as int + 1), docs@, prefix@));
                    }
                }
            } else {
                proof {
                    assert(!link_is_broken(docs@, lv[l as int], prefix@));
                    assert(broken_from_links(src, lv.skip(l as int), docs@, prefix@)
                        =~= broken_from_links(src, lv.skip(l as int + 1), docs@, prefix@));
                }
            }
            l += 1;
        }
        proof {
            assert(lv.skip(ln as int).len() == 0);
            assert(broken_from_links(src, lv.skip(ln as int), docs@, prefix@)
                =~= Seq::<(Seq<u8>, Seq<u8>)>::empty());
            assert(Seq::<(Seq<u8>, Seq<u8>)>::empty() + broken_in_docs(
                docs@.skip(d as int + 1),
                docs@,
                prefix@,
            ) =~= broken_in_docs(docs@.skip(d as int + 1), docs@, prefix@));
        }
        d += 1;
    }
    proof {
        assert(docs@.skip(n as int).len() == 0);
        assert(broken_in_docs(docs@.skip(n as int), docs@, prefix@) =~= Seq::<
            (Seq<u8>, Seq<u8>),
        >::empty());
        assert(broken_views(out@) + Seq::<(Seq<u8>, Seq<u8>)>::empty() =~= broken_views(out@));
    }
    out
}

} // verus!
