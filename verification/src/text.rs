//! Small operations on names read from the game.

use vstd::prelude::*;
use vstd::string::StringSliceAdditionalSpecFns;
use vstd::utf8::*;

verus! {

broadcast use encode_utf8_decode_utf8;

/// Whether two byte strings are equal.
pub fn bytes_equal(a: &[u8], b: &[u8]) -> (r: bool)
    ensures
        r == (a@ == b@),
{
    if a.len() != b.len() {
        return false;
    }
    let mut i: usize = 0;
    while i < a.len()
        invariant
            a.len() == b.len(),
            i <= a.len(),
            forall|j: int| 0 <= j < i ==> a@[j] == b@[j],
        decreases a.len() - i,
    {
        if a[i] != b[i] {
            return false;
        }
        i = i + 1;
    }
    assert(a@ =~= b@);
    true
}

/// Whether two strings are equal, compared by their UTF-8 bytes.
pub fn str_equal(a: &str, b: &str) -> (r: bool)
    ensures
        r == (a@ == b@),
{
    let eq = bytes_equal(a.as_bytes(), b.as_bytes());
    proof {
        if a.spec_bytes() == b.spec_bytes() {
            assert(decode_utf8(encode_utf8(a@)) == a@);
            assert(decode_utf8(encode_utf8(b@)) == b@);
        }
    }
    eq
}

/// Keeps the characters that are not a space.
pub open spec fn not_space() -> spec_fn(char) -> bool {
    |c: char| c != ' '
}

/// Keeps the bytes that are not the space byte `0x20`.
pub open spec fn not_space_byte() -> spec_fn(u8) -> bool {
    |b: u8| b != 0x20
}

/// The string without its spaces.
pub open spec fn without_spaces(s: Seq<char>) -> Seq<char> {
    s.filter(not_space())
}

/// The bytes without the space byte.
pub open spec fn without_space_bytes(b: Seq<u8>) -> Seq<u8> {
    b.filter(not_space_byte())
}

/// Filtering keeps a sequence whose elements all pass.
proof fn lemma_filter_keeps_all<A>(s: Seq<A>, pred: spec_fn(A) -> bool)
    requires
        forall|i: int| 0 <= i < s.len() ==> pred(#[trigger] s[i]),
    ensures
        s.filter(pred) == s,
    decreases s.len(),
{
    reveal(Seq::filter);
    if s.len() > 0 {
        lemma_filter_keeps_all(s.drop_last(), pred);
        assert(s.drop_last().push(s.last()) =~= s);
    }
}

/// The filter of a one-element sequence.
proof fn lemma_filter_single<A>(a: A, pred: spec_fn(A) -> bool)
    ensures
        seq![a].filter(pred) == (if pred(a) {
            seq![a]
        } else {
            Seq::<A>::empty()
        }),
{
    reveal(Seq::filter);
    assert(seq![a].drop_last() =~= Seq::<A>::empty());
    assert(Seq::<A>::empty().filter(pred) == Seq::<A>::empty());
    assert(seq![a].last() == a);
    assert(Seq::<A>::empty().push(a) =~= seq![a]);
}

/// The encoding of a concatenation is the concatenation of the encodings.
proof fn lemma_encode_concat(a: Seq<char>, b: Seq<char>)
    ensures
        encode_utf8(a + b) == encode_utf8(a) + encode_utf8(b),
    decreases a.len(),
{
    if a.len() == 0 {
        assert(a + b =~= b);
        assert(encode_utf8(a) + encode_utf8(b) =~= encode_utf8(b));
    } else {
        assert((a + b).drop_first() =~= a.drop_first() + b);
        lemma_encode_concat(a.drop_first(), b);
        assert((a + b)[0] == a[0]);
        assert(encode_utf8(a + b) =~= encode_utf8(a) + encode_utf8(b));
    }
}

/// Only the space character encodes to (and only as) the space byte.
proof fn lemma_scalar_spaces(c: char)
    ensures
        without_space_bytes(encode_scalar(c as u32)) == (if c == ' ' {
            Seq::<u8>::empty()
        } else {
            encode_scalar(c as u32)
        }),
{
    let v = c as u32;
    char_is_scalar(c);
    if c == ' ' {
        assert(v == 32);
        assert((32u32 & 0x7F) as u8 == 0x20u8) by (bit_vector);
        assert(encode_scalar(v) =~= seq![0x20u8]);
        lemma_filter_single(0x20u8, not_space_byte());
    } else {
        assert(v != 32) by {
            if v == 32 {
                char_u32_cast(c, v);
                char_u32_cast(' ', 32);
            }
        }
        let e = encode_scalar(v);
        if has_width_1_encoding(v) {
            assert(v <= 0x7F && v != 32 ==> (v & 0x7F) as u8 != 0x20u8) by (bit_vector);
        } else {
            assert(forall|x: u8| #[trigger] (0xC0u8 | x) != 0x20u8) by (bit_vector);
            assert(forall|x: u8| #[trigger] (0xE0u8 | x) != 0x20u8) by (bit_vector);
            assert(forall|x: u8| #[trigger] (0xF0u8 | x) != 0x20u8) by (bit_vector);
            assert(forall|x: u8| #[trigger] (0x80u8 | x) != 0x20u8) by (bit_vector);
        }
        assert forall|i: int| 0 <= i < e.len() implies (not_space_byte())(#[trigger] e[i]) by {}
        lemma_filter_keeps_all(e, not_space_byte());
    }
}

/// Removing the space bytes of an encoding encodes the string without its spaces.
proof fn lemma_encode_without_spaces(s: Seq<char>)
    ensures
        without_space_bytes(encode_utf8(s)) == encode_utf8(without_spaces(s)),
    decreases s.len(),
{
    if s.len() == 0 {
        reveal(Seq::filter);
        assert(encode_utf8(s) =~= Seq::<u8>::empty());
    } else {
        let c = s[0];
        let rest = s.drop_first();
        assert(s =~= seq![c] + rest);
        lemma_encode_without_spaces(rest);
        Seq::filter_distributes_over_add(
            encode_scalar(c as u32),
            encode_utf8(rest),
            not_space_byte(),
        );
        Seq::filter_distributes_over_add(seq![c], rest, not_space());
        lemma_filter_single(c, not_space());
        lemma_scalar_spaces(c);
        lemma_encode_concat(seq![c].filter(not_space()), rest.filter(not_space()));
        assert(seq![c].drop_first() =~= Seq::<char>::empty());
        assert(encode_utf8(Seq::<char>::empty()) =~= Seq::<u8>::empty());
        assert(seq![c][0] == c);
        assert(encode_utf8(seq![c]) =~= encode_scalar(c as u32));
        if c == ' ' {
            assert(encode_utf8(Seq::<char>::empty()) =~= Seq::<u8>::empty());
        }
    }
}

/// Removes every space from `s`.
pub fn strip_spaces(s: &str) -> (r: String)
    ensures
        r@ == without_spaces(s@),
{
    let bytes = s.as_bytes();
    let mut kept: Vec<u8> = Vec::new();
    let mut i: usize = 0;
    while i < bytes.len()
        invariant
            i <= bytes@.len(),
            kept@ == without_space_bytes(bytes@.take(i as int)),
        decreases bytes.len() - i,
    {
        proof {
            reveal(Seq::filter);
            assert(bytes@.take(i + 1).drop_last() =~= bytes@.take(i as int));
        }
        if bytes[i] != 0x20 {
            kept.push(bytes[i]);
        }
        i = i + 1;
    }
    proof {
        assert(bytes@.take(bytes@.len() as int) =~= bytes@);
        lemma_encode_without_spaces(s@);
    }
    match utf8_str(kept.as_slice()) {
        Some(t) => {
            proof {
                assert(decode_utf8(encode_utf8(t@)) == t@);
                assert(decode_utf8(encode_utf8(without_spaces(s@))) == without_spaces(s@));
            }
            t.to_owned()
        },
        None => {
            proof {
                encode_utf8_valid_utf8(without_spaces(s@));
            }
            String::new()
        },
    }
}

/// Decodes `bytes` as UTF-8.
///
/// Trusted: calls `std::str::from_utf8`, which succeeds exactly when `bytes` is valid
/// UTF-8 and then views the same bytes as a string slice.
#[verifier::external_body]
pub(crate) fn utf8_str(bytes: &[u8]) -> (r: Option<&str>)
    ensures
        r is Some <==> valid_utf8(bytes@),
        r matches Some(s) ==> s.spec_bytes() == bytes@,
{
    std::str::from_utf8(bytes).ok()
}

/// What `String::from_utf8_lossy` makes of `bytes`.
pub uninterp spec fn lossy_utf8(bytes: Seq<u8>) -> Seq<char>;

/// Decodes `bytes` as UTF-8, with invalid sequences replaced.
///
/// Trusted: calls `String::from_utf8_lossy`, which decodes valid UTF-8 unchanged;
/// how it replaces invalid sequences (with U+FFFD) is left to the name `lossy_utf8`.
#[verifier::external_body]
pub(crate) fn utf8_lossy(bytes: &[u8]) -> (r: String)
    ensures
        r@ == lossy_utf8(bytes@),
        valid_utf8(bytes@) ==> r@ == decode_utf8(bytes@),
{
    String::from_utf8_lossy(bytes).into_owned()
}

} // verus!
