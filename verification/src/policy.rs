//! Policy constants of the auditor: the literal heading that marks a
//! "Related" section, the authoring prefix stripped from wikilink targets,
//! and the default list of required hub documents. Checks take these as
//! arguments, so callers may supply their own policy; these are the stock
//! values.

use vstd::prelude::*;
use crate::text::views_of;

verus! {

/// The literal heading marker "## Related", as bytes. Matching is exact:
/// no case folding, no other heading levels.
pub open spec fn related_marker() -> Seq<u8> {
    seq![35u8, 35, 32, 82, 101, 108, 97, 116, 101, 100]
}

/// The marker as an executable byte vector.
pub fn related_heading() -> (r: Vec<u8>)
    ensures
        r@ == related_marker(),
{
    let mut v: Vec<u8> = Vec::new();
    v.push(35);
    v.push(35);
    v.push(32);
    v.push(82);
    v.push(101);
    v.push(108);
    v.push(97);
    v.push(116);
    v.push(101);
    v.push(100);
    proof {
        assert(v@ =~= related_marker());
    }
    v
}

/// The virtual authoring root "docs/": links are written relative to it
/// while documents are indexed relative to the scan root, so one leading
/// copy of this prefix is stripped before resolution.
pub open spec fn docs_prefix_spec() -> Seq<u8> {
    seq![100u8, 111, 99, 115, 47]
}

/// The authoring prefix as an executable byte vector.
pub fn docs_prefix() -> (r: Vec<u8>)
    ensures
        r@ == docs_prefix_spec(),
{
    let mut v: Vec<u8> = Vec::new();
    v.push(100);
    v.push(111);
    v.push(99);
    v.push(115);
    v.push(47);
    proof {
        assert(v@ =~= docs_prefix_spec());
    }
    v
}

/// The stock list of required hub documents, by path relative to the scan
/// root: the documentation hub index, the context file, the security policy,
/// the quality-gates file, the requirements hub, and the sprint hub.
pub open spec fn default_required_hubs_spec() -> Seq<Seq<u8>> {
    seq![
        seq![72u8, 85, 66, 45, 68, 79, 67, 83, 46, 109, 100],  // "HUB-DOCS.md"
        seq![67u8, 79, 78, 84, 69, 88, 84, 46, 109, 100],  // "CONTEXT.md"
        seq![83u8, 69, 67, 85, 82, 73, 84, 89, 46, 109, 100],  // "SECURITY.md"
        seq![81u8, 85, 65, 76, 73, 84, 89, 95, 71, 65, 84, 69, 83, 46, 109, 100],  // "QUALITY_GATES.md"
        // "requirements/HUB-REQUIREMENTS.md"
        seq![114u8, 101, 113, 117, 105, 114, 101, 109, 101, 110, 116, 115, 47, 72, 85, 66, 45, 82,
            69, 81, 85, 73, 82, 69, 77, 69, 78, 84, 83, 46, 109, 100],
        // "sprint/HUB-SPRINTS.md"
        seq![115u8, 112, 114, 105, 110, 116, 47, 72, 85, 66, 45, 83, 80, 82, 73, 78, 84, 83, 46,
            109, 100],
    ]
}

/// The stock required-hub list as executable byte vectors.
pub fn default_required_hubs() -> (r: Vec<Vec<u8>>)
    ensures
        views_of(r@) == default_required_hubs_spec(),
{
    let mut v0: Vec<u8> = Vec::new();
    v0.push(72);
    v0.push(85);
    v0.push(66);
    v0.push(45);
    v0.push(68);
    v0.push(79);
    v0.push(67);
    v0.push(83);
    v0.push(46);
    v0.push(109);
    v0.push(100);
    let mut v1: Vec<u8> = Vec::new();
    v1.push(67);
    v1.push(79);
    v1.push(78);
    v1.push(84);
    v1.push(69);
    v1.push(88);
    v1.push(84);
    v1.push(46);
    v1.push(109);
    v1.push(100);
    let mut v2: Vec<u8> = Vec::new();
    v2.push(83);
    v2.push(69);
    v2.push(67);
    v2.push(85);
    v2.push(82);
    v2.push(73);
    v2.push(84);
    v2.push(89);
    v2.push(46);
    v2.push(109);
    v2.push(100);
    let mut v3: Vec<u8> = Vec::new();
    v3.push(81);
    v3.push(85);
    v3.push(65);
    v3.push(76);
    v3.push(73);
    v3.push(84);
    v3.push(89);
    v3.push(95);
    v3.push(71);
    v3.push(65);
    v3.push(84);
    v3.push(69);
    v3.push(83);
    v3.push(46);
    v3.push(109);
    v3.push(100);
    let mut v4: Vec<u8> = Vec::new();
    v4.push(114);
    v4.push(101);
    v4.push(113);
    v4.push(117);
    v4.push(105);
    v4.push(114);
    v4.push(101);
    v4.push(109);
    v4.push(101);
    v4.push(110);
    v4.push(116);
    v4.push(115);
    v4.push(47);
    v4.push(72);
    v4.push(85);
    v4.push(66);
    v4.push(45);
    v4.push(82);
    v4.push(69);
    v4.push(81);
    v4.push(85);
    v4.push(73);
    v4.push(82);
    v4.push(69);
    v4.push(77);
    v4.push(69);
    v4.push(78);
    v4.push(84);
    v4.push(83);
    v4.push(46);
    v4.push(109);
    v4.push(100);
    let mut v5: Vec<u8> = Vec::new();
    v5.push(115);
    v5.push(112);
    v5.push(114);
    v5.push(105);
    v5.push(110);
    v5.push(116);
    v5.push(47);
    v5.push(72);
    v5.push(85);
    v5.push(66);
    v5.push(45);
    v5.push(83);
    v5.push(80);
    v5.push(82);
    v5.push(73);
    v5.push(78);
    v5.push(84);
    v5.push(83);
    v5.push(46);
    v5.push(109);
    v5.push(100);
    proof {
        assert(v0@ =~= default_required_hubs_spec()[0]);
        assert(v1@ =~= default_required_hubs_spec()[1]);
        assert(v2@ =~= default_required_hubs_spec()[2]);
        assert(v3@ =~= default_required_hubs_spec()[3]);
        assert(v4@ =~= default_required_hubs_spec()[4]);
        assert(v5@ =~= default_required_hubs_spec()[5]);
    }
    let mut r: Vec<Vec<u8>> = Vec::new();
    r.push(v0);
    r.push(v1);
    r.push(v2);
    r.push(v3);
    r.push(v4);
    r.push(v5);
    proof {
        assert(views_of(r@) =~= default_required_hubs_spec());
    }
    r
}

} // verus!
