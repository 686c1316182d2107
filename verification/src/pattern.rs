//! Byte patterns ("signatures") and scanning module images for them.
//!
//! A pattern is a sequence of pattern bytes: `Some(b)` stands for the byte `b` and
//! `None` for a wildcard (`?` in the text form). Parsing the text form and scanning
//! are done by the `skidscan` crate.

use vstd::prelude::*;

verus! {

/// What `skidscan` parses the pattern text `text` into (`None` when it refuses it).
pub uninterp spec fn parsed_pattern(text: Seq<char>) -> Option<Seq<Option<u8>>>;

/// Where `skidscan` reports the pattern `pattern` in `bytes`.
pub uninterp spec fn pattern_scan(pattern: Seq<Option<u8>>, bytes: Seq<u8>) -> Option<usize>;

/// Parses a pattern of space-separated hex bytes and `?` / `??` wildcards.
///
/// Trusted: calls `skidscan::Signature::from_str` and hands out the pattern bytes of
/// the parsed signature. Its source refuses an empty pattern, so a parsed pattern has
/// at least one byte; what it accepts beyond that is left to the name `parsed_pattern`.
#[verifier::external_body]
pub(crate) fn parse_pattern(text: &str) -> (r: Option<Vec<Option<u8>>>)
    ensures
        r is Some <==> parsed_pattern(text@) is Some,
        r matches Some(p) ==> parsed_pattern(text@) == Some(p@) && p@.len() > 0,
{
    match <skidscan::Signature as std::str::FromStr>::from_str(text) {
        Ok(signature) => Some(signature.to_vec()),
        Err(_) => None,
    }
}

/// Whether `pattern` occurs in `bytes` at `q`: every pattern byte is a wildcard or
/// equals the byte it lies over.
pub open spec fn pattern_occurs(pattern: Seq<Option<u8>>, bytes: Seq<u8>, q: int) -> bool {
    &&& 0 <= q
    &&& q + pattern.len() <= bytes.len()
    &&& forall|j: int|
        0 <= j < pattern.len() ==> (#[trigger] pattern[j] is None || pattern[j] == Some(bytes[q
            + j]))
}

/// Whether nothing before `q` can keep a scan from meeting the pattern at `q`: the
/// pattern starts with a byte `c` (not a wildcard), and every `c` before `q` is
/// directly followed, still before `q`, by a byte that the pattern's second byte (not
/// a wildcard) rejects.
pub open spec fn scan_reaches(pattern: Seq<Option<u8>>, bytes: Seq<u8>, q: int) -> bool {
    &&& pattern.len() > 0
    &&& pattern[0] is Some
    &&& forall|p: int|
        0 <= p < q && Some(#[trigger] bytes[p]) == pattern[0] ==> {
            &&& p + 1 < q
            &&& pattern.len() > 1
            &&& pattern[1] is Some
            &&& pattern[1] != Some(bytes[p + 1])
        }
}

/// Scans `bytes` for `pattern` and gives the position that `skidscan` reports.
///
/// Trusted: calls `skidscan::Signature::scan` on a signature made of `pattern`. Its
/// source returns either 0 or the index of a byte of `bytes` that it has read, so a
/// reported position is never past the end, and lies inside `bytes` when the
/// pattern is not empty (at least one byte was read then). It reports a position
/// only once the last `pattern.len()` bytes it read, which are consecutive, all
/// matched the pattern, and the position is one of those bytes (or 0): so the
/// pattern occurs at some `q` with `q <= p`, and `p < q + pattern.len()` when the
/// pattern is not empty. Its matcher does not backtrack after a partial match, so a
/// pattern that occurs may still not be reported; but when the pattern occurs at `q`
/// and `scan_reaches` holds there, the matcher is at the pattern's start (index 0,
/// with no start recorded) when it reaches `q`: every byte before `q` either
/// mismatches the first pattern byte, or matches it and is followed by a mismatch of
/// the second, which resets it. It then matches the whole occurrence and reports the
/// start it recorded: `q` itself, or, when `q` is 0, the position of a later byte of
/// the occurrence that is not a wildcard (0 when there is none). Otherwise which
/// position it reports is left to the name `pattern_scan`.
#[verifier::external_body]
pub(crate) fn scan(pattern: &[Option<u8>], bytes: &[u8]) -> (r: Option<usize>)
    ensures
        r == pattern_scan(pattern@, bytes@),
        r matches Some(p) ==> p <= bytes@.len(),
        r matches Some(p) ==> pattern@.len() > 0 ==> p < bytes@.len(),
        r matches Some(p) ==> exists|q: int|
            #![trigger pattern_occurs(pattern@, bytes@, q)]
            pattern_occurs(pattern@, bytes@, q) && q <= p && (pattern@.len() > 0 ==> p < q
                + pattern@.len()),
        forall|q: int|
            #![trigger pattern_occurs(pattern@, bytes@, q)]
            pattern_occurs(pattern@, bytes@, q) && scan_reaches(pattern@, bytes@, q) ==> (
            r is Some && q <= r.unwrap() < q + pattern@.len() && (q > 0 ==> r.unwrap() == q)),
{
    skidscan::Signature::from(pattern).scan(bytes)
}

/// `48 8B 05 ? ? ? ? 48 89 1D ? ? ? ? 48 89 83 88 00 00 00`: the `KeyButton`
/// registration helper, which links each button into the global list
/// (`head = this; this->next = old_head`); the trailing `mov [rbx+0x88], rax`
/// writes `KeyButton::next` and makes the match unique.
pub open spec fn button_list_pattern_bytes() -> Seq<Option<u8>> {
    seq![
        Some(0x48u8), Some(0x8Bu8), Some(0x05u8), None, None, None, None,
        Some(0x48u8), Some(0x89u8), Some(0x1Du8), None, None, None, None,
        Some(0x48u8), Some(0x89u8), Some(0x83u8), Some(0x88u8), Some(0x00u8), Some(0x00u8), Some(0x00u8),
    ]
}

/// `48 8B 1D ? ? ? ? 48 85 DB`: `mov rbx, [rip + disp32]; test rbx, rbx`, the load of
/// the interface list head in the prologue of `CreateInterface`.
pub open spec fn interface_list_pattern_bytes() -> Seq<Option<u8>> {
    seq![
        Some(0x48u8), Some(0x8Bu8), Some(0x1Du8), None, None, None, None,
        Some(0x48u8), Some(0x85u8), Some(0xDBu8),
    ]
}

/// The pattern that anchors the button list.
pub fn button_list_pattern() -> (r: Vec<Option<u8>>)
    ensures
        r@ == button_list_pattern_bytes(),
{
    let r = vec![
        Some(0x48u8), Some(0x8B), Some(0x05), None, None, None, None,
        Some(0x48), Some(0x89), Some(0x1D), None, None, None, None,
        Some(0x48), Some(0x89), Some(0x83), Some(0x88), Some(0x00), Some(0x00), Some(0x00),
    ];
    assert(r@ =~= button_list_pattern_bytes());
    r
}

/// The pattern that anchors the interface list load in `CreateInterface`.
pub fn interface_list_pattern() -> (r: Vec<Option<u8>>)
    ensures
        r@ == interface_list_pattern_bytes(),
{
    let r = vec![
        Some(0x48u8), Some(0x8B), Some(0x1D), None, None, None, None,
        Some(0x48), Some(0x85), Some(0xDB),
    ];
    assert(r@ =~= interface_list_pattern_bytes());
    r
}

} // verus!
