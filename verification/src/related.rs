//! The related-sections check: a fixed list of required hub documents must
//! each be present in the snapshot and contain a "## Related" heading. An
//! absent hub is a fatal `MissingRequiredDocument` error — the check cannot
//! even evaluate the heading condition — while a hub without the heading is
//! an ordinary soft failure. The list is scanned in order and the first
//! offending hub decides.

use vstd::prelude::*;
use crate::doc::AuditError;
use crate::doc::Doc;
use crate::policy::related_heading;
use crate::policy::related_marker;
use crate::text::bytes_eq;
use crate::text::contains_pat;
use crate::text::copy_range;
use crate::text::find_subslice;
use crate::text::views_of;

verus! {

/// Some document of the snapshot has exactly this relative path.
pub open spec fn has_doc(docs: Seq<Doc>, p: Seq<u8>) -> bool {
    exists|k: int| 0 <= k < docs.len() && docs[k].path@ == p
}

/// Index of the first document with path `p` at or after `j`; `docs.len()`
/// if there is none.
pub open spec fn first_doc_from(docs: Seq<Doc>, p: Seq<u8>, j: int) -> int
    decreases docs.len() - j,
{
    if j < 0 || j >= docs.len() {
        docs.len() as int
    } else if docs[j].path@ == p {
        j
    } else {
        first_doc_from(docs, p, j + 1)
    }
}

pub proof fn lemma_first_doc_found(docs: Seq<Doc>, p: Seq<u8>, j: int, i: int)
    requires
        0 <= j <= i < docs.len(),
        docs[i].path@ == p,
        forall|k: int| j <= k < i ==> docs[k].path@ != p,
    ensures
        first_doc_from(docs, p, j) == i,
    decreases i - j,
{
    if j < i {
        lemma_first_doc_found(docs, p, j + 1, i);
    }
}

/// The hub document at path `p` (the first document with that path) holds a
/// "## Related" heading.
pub open spec fn hub_has_marker(docs: Seq<Doc>, p: Seq<u8>) -> bool {
    let k = first_doc_from(docs, p, 0);
    k < docs.len() && contains_pat(docs[k].content@, related_marker())
}

/// The hub at path `p` is present and holds the heading.
pub open spec fn hub_ok(docs: Seq<Doc>, p: Seq<u8>) -> bool {
    has_doc(docs, p) && hub_has_marker(docs, p)
}

/// Index of the first required hub (at or after `j`) that is absent or lacks
/// the heading; `required.len()` when every hub is in order.
pub open spec fn first_bad_hub_from(docs: Seq<Doc>, required: Seq<Seq<u8>>, j: int) -> int
    decreases required.len() - j,
{
    if j < 0 || j >= required.len() {
        required.len() as int
    } else if !hub_ok(docs, required[j]) {
        j
    } else {
        first_bad_hub_from(docs, required, j + 1)
    }
}

/// Index of the first offending required hub; `required.len()` if none.
pub open spec fn first_bad_hub(docs: Seq<Doc>, required: Seq<Seq<u8>>) -> int {
    first_bad_hub_from(docs, required, 0)
}

/// Every required hub is present and holds the heading.
pub open spec fn related_sections_ok(docs: Seq<Doc>, required: Seq<Seq<u8>>) -> bool {
    first_bad_hub(docs, required) == required.len()
}

/// Index of the first document whose path equals `p`, if any.
pub fn find_doc(docs: &Vec<Doc>, p: &Vec<u8>) -> (r: Option<usize>)
    ensures
        match r {
            Some(k) => k < docs@.len() && docs@[k as int].path@ == p@ && k == first_doc_from(
                docs@,
                p@,
                0,
            ),
            None => !has_doc(docs@, p@),
        },
{
    let n = docs.len();
    let mut i: usize = 0;
    while i < n
        invariant
            n == docs@.len(),
            i <= n,
            forall|k: int| 0 <= k < i ==> docs@[k].path@ != p@,
        decreases n - i,
    {
        if bytes_eq(&docs[i].path, p) {
            proof {
                lemma_first_doc_found(docs@, p@, 0, i as int);
            }
            return Some(i);
        }
        i += 1;
    }
    None
}

/// Walk the required hubs in order: error on the first absent one, fail on
/// the first one whose document lacks the "## Related" heading, pass when
/// every hub is in order.
pub fn check_related_sections(docs: &Vec<Doc>, required: &Vec<Vec<u8>>) -> (r: Result<
    bool,
    AuditError,
>)
    ensures
        ({
            let req = views_of(required@);
            let j = first_bad_hub(docs@, req);
            &&& 0 <= j <= req.len()
            &&& (j == req.len() ==> r == Ok::<bool, AuditError>(true))
            &&& (j < req.len() && !has_doc(docs@, req[j]) ==> (r matches Err(
                AuditError::MissingRequiredDocument(p),
            ) && p@ == req[j]))
            &&& (j < req.len() && has_doc(docs@, req[j]) ==> r == Ok::<bool, AuditError>(false))
        }),
{
    let ghost req = views_of(required@);
    let marker = related_heading();
    let n = required.len();
    let mut idx: usize = 0;
    while idx < n
        invariant
            n == required@.len(),
            idx <= n,
            marker@ == related_marker(),
            req == views_of(required@),
            forall|k: int| 0 <= k < idx ==> hub_ok(docs@, req[k]),
            first_bad_hub(docs@, req) == first_bad_hub_from(docs@, req, idx as int),
        decreases n - idx,
    {
        let p = &required[idx];
        assert(p@ == req[idx as int]);
        match find_doc(docs, p) {
            None => {
                assert(!hub_ok(docs@, req[idx as int]));
                assert(first_bad_hub(docs@, req) == idx as int);
                let owned = copy_range(p, 0, p.len());
                assert(owned@ =~= p@);
                return Err(AuditError::MissingRequiredDocument(owned));
            },
            Some(k) => {
                match find_subslice(&docs[k].content, &marker) {
                    Some(_) => {
                        proof {
                            assert(contains_pat(docs@[k as int].content@, related_marker()));
                            assert(hub_ok(docs@, req[idx as int]));
                            assert(first_bad_hub_from(docs@, req, idx as int)
                                == first_bad_hub_from(docs@, req, idx as int + 1));
                        }
                        idx += 1;
                    },
                    None => {
                        proof {
                            assert(!contains_pat(docs@[k as int].content@, related_marker()));
                            assert(!hub_has_marker(docs@, req[idx as int]));
                            assert(first_bad_hub(docs@, req) == idx as int);
                        }
                        return Ok(false);
                    },
                }
            },
        }
    }
    assert(first_bad_hub(docs@, req) == req.len());
    Ok(true)
}

} // verus!
