//! The laws the library guarantees across its operations, stated over the
//! same spec functions the operations' contracts use.

use vstd::prelude::*;

use crate::hashing::{hex_decoded, hex_digit_value, is_hex_string, lemma_hex_decoded_differs, sha256_of};
use crate::registry::{created_from, removed_from, DownloadRegistry};
use crate::session::{buffer_step, validate_result, DownloadHandleRef};
use crate::DownloadError;

verus! {

/// A successful creation occupies its key: the registry then contains the
/// key, so by `el_download`'s contract a second creation under the same key
/// returns the duplicate-key error and leaves the registry — the first
/// download's session included — unchanged.
pub proof fn lemma_create_occupies_key(
    pre: DownloadRegistry,
    post: DownloadRegistry,
    url: Seq<char>,
    key: Seq<char>,
)
    requires
        created_from(pre, post, url, key),
    ensures
        post.spec_contains(key),
{
}

/// Termination removes its key, and a key never created was never present:
/// either way the registry does not contain it, so by each operation's
/// contract any later progress query, verification, raw-byte retrieval — or
/// a second termination — under that key returns the not-found error.
pub proof fn lemma_terminated_key_absent(
    pre: DownloadRegistry,
    post: DownloadRegistry,
    key: Seq<char>,
)
    requires
        removed_from(pre, post, key),
    ensures
        !post.spec_contains(key),
{
}

/// Verification of an unfinished transfer always fails with the not-finished
/// error, whatever the buffer holds.
pub proof fn lemma_validate_needs_finished(s: DownloadHandleRef)
    requires
        !s.finished,
    ensures
        validate_result(s) == Err::<bool, DownloadError>(DownloadError::NotFinished),
{
}

/// Verification is idempotent: it takes the session by shared reference, so
/// it changes nothing, and its result is a function of the session's state
/// alone, so two verifications of the same unchanged session agree.
pub proof fn lemma_validate_idempotent(s1: DownloadHandleRef, s2: DownloadHandleRef)
    requires
        s1 == s2,
    ensures
        validate_result(s1) == validate_result(s2),
{
}

/// Round trip: a finished transfer whose expected-hash string decodes to the
/// SHA-256 digest of the received bytes verifies as a match.
pub proof fn lemma_round_trip_match(s: DownloadHandleRef)
    requires
        s.finished,
        is_hex_string(s.hash@),
        hex_decoded(s.hash@) == sha256_of(s.data@),
    ensures
        validate_result(s) == Ok::<bool, DownloadError>(true),
{
}

/// Changing one digit of a matching expected-hash string to a digit of a
/// different value makes verification of the same finished buffer report a
/// mismatch. (A case-only change, such as `'a'` to `'A'`, keeps the digit's
/// value, hence the decoded digest and the result.)
pub proof fn lemma_round_trip_mismatch(s: DownloadHandleRef, t: DownloadHandleRef, i: int)
    requires
        s.finished,
        t.finished,
        t.data@ == s.data@,
        is_hex_string(s.hash@),
        is_hex_string(t.hash@),
        s.hash@.len() == t.hash@.len(),
        0 <= i < s.hash@.len(),
        hex_digit_value(t.hash@[i]) != hex_digit_value(s.hash@[i]),
        hex_decoded(s.hash@) == sha256_of(s.data@),
    ensures
        validate_result(t) == Ok::<bool, DownloadError>(false),
{
    lemma_hex_decoded_differs(s.hash@, t.hash@, i);
}

/// Progress is monotone: over any run of allowed buffer transitions the
/// count of downloaded bytes never decreases from an earlier point in time
/// to a later one.
pub proof fn lemma_progress_monotone(trace: Seq<DownloadHandleRef>, t1: int, t2: int)
    requires
        forall|j: int| 0 <= j < trace.len() - 1 ==> buffer_step(#[trigger] trace[j], trace[j + 1]),
        0 <= t1 <= t2 < trace.len(),
    ensures
        trace[t1].downloaded <= trace[t2].downloaded,
    decreases t2 - t1,
{
    if t1 < t2 {
        lemma_progress_monotone(trace, t1, t2 - 1);
        assert(buffer_step(trace[t2 - 1], trace[t2]));
    }
}

} // verus!
