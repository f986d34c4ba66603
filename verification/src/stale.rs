//! The freshness check: the document set is flagged as stale when any
//! document's age — now minus its last-modified time — exceeds a fixed
//! threshold. A modification time in the future (clock skew) never counts
//! as stale.

use vstd::prelude::*;
use crate::doc::CheckOutcome;
use crate::doc::Doc;

verus! {

/// The freshness threshold: 45 days, in seconds.
pub const STALE_THRESHOLD_SECS: u64 = 60 * 60 * 24 * 45;

/// The document's age at time `now` exceeds the threshold. A document
/// modified after `now` has no positive age and is never stale.
pub open spec fn is_stale(d: Doc, now: u64) -> bool {
    d.modified_secs <= now && now - d.modified_secs > STALE_THRESHOLD_SECS
}

/// Some document of the set is stale at time `now`.
pub open spec fn any_stale(docs: Seq<Doc>, now: u64) -> bool {
    exists|i: int| 0 <= i < docs.len() && is_stale(docs[i], now)
}

/// `Warn` when any document is older than the threshold, `Pass` otherwise.
pub fn stale_docs_status(docs: &Vec<Doc>, now_secs: u64) -> (r: CheckOutcome)
    ensures
        r == (if any_stale(docs@, now_secs) {
            CheckOutcome::Warn
        } else {
            CheckOutcome::Pass
        }),
{
    let n = docs.len();
    let mut i: usize = 0;
    while i < n
        invariant
            n == docs@.len(),
            i <= n,
            forall|k: int| 0 <= k < i ==> !is_stale(docs@[k], now_secs),
        decreases n - i,
    {
        let m = docs[i].modified_secs;
        if m <= now_secs && now_secs - m > STALE_THRESHOLD_SECS {
            assert(is_stale(docs@[i as int], now_secs));
            return CheckOutcome::Warn;
        }
        i += 1;
    }
    CheckOutcome::Pass
}

} // verus!
