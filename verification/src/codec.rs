//! The photo codec: bytes to text and back, in standard padded base64.
//!
//! The mathematical model is [`encoded`]: three bytes become four symbols of
//! the standard alphabet, and a last group of one or two bytes is filled up
//! with `=`. [`decoded`] is its inverse, defined on exactly the texts that
//! [`encoded`] produces; [`well_formed`] says which texts those are.
//!
//! [`encode`] and [`decode`] hand the work to the `base64` crate. What is
//! trusted of that crate is stated once, on the two private functions that
//! call it; all else is proved from there.

use vstd::prelude::*;
use base64::Engine;

verus! {

/// The symbol that stands for the six-bit value `v`: `A` to `Z` for 0 to 25,
/// `a` to `z` for 26 to 51, `0` to `9` for 52 to 61, then `+` and `/`.
pub open spec fn symbol(v: int) -> char {
    if v < 26 {
        ('A' as int + v) as char
    } else if v < 52 {
        ('a' as int + (v - 26)) as char
    } else if v < 62 {
        ('0' as int + (v - 52)) as char
    } else if v == 62 {
        '+'
    } else {
        '/'
    }
}

/// Whether `c` is one of the sixty-four symbols of the alphabet.
pub open spec fn is_symbol(c: char) -> bool {
    ||| 'A' <= c <= 'Z'
    ||| 'a' <= c <= 'z'
    ||| '0' <= c <= '9'
    ||| c == '+'
    ||| c == '/'
}

/// The six-bit value that a symbol of the alphabet stands for.
pub open spec fn symbol_value(c: char) -> int {
    if 'A' <= c <= 'Z' {
        c as int - 'A' as int
    } else if 'a' <= c <= 'z' {
        c as int - 'a' as int + 26
    } else if '0' <= c <= '9' {
        c as int - '0' as int + 52
    } else if c == '+' {
        62
    } else {
        63
    }
}

/// The padding symbol that fills an incomplete last group.
pub open spec fn pad() -> char {
    '='
}

/// Four symbols for a full group of three bytes.
pub open spec fn full_group(a: u8, b: u8, c: u8) -> Seq<char> {
    seq![
        symbol(a as int / 4),
        symbol((a as int % 4) * 16 + b as int / 16),
        symbol((b as int % 16) * 4 + c as int / 64),
        symbol(c as int % 64),
    ]
}

/// Three symbols and one pad for a last group of two bytes.
pub open spec fn pair_group(a: u8, b: u8) -> Seq<char> {
    seq![
        symbol(a as int / 4),
        symbol((a as int % 4) * 16 + b as int / 16),
        symbol((b as int % 16) * 4),
        pad(),
    ]
}

/// Two symbols and two pads for a last group of one byte.
pub open spec fn single_group(a: u8) -> Seq<char> {
    seq![symbol(a as int / 4), symbol((a as int % 4) * 16), pad(), pad()]
}

/// The text that stands for `bytes`.
pub open spec fn encoded(bytes: Seq<u8>) -> Seq<char>
    decreases bytes.len(),
{
    if bytes.len() == 0 {
        Seq::empty()
    } else if bytes.len() == 1 {
        single_group(bytes[0])
    } else if bytes.len() == 2 {
        pair_group(bytes[0], bytes[1])
    } else {
        full_group(bytes[0], bytes[1], bytes[2]) + encoded(bytes.skip(3))
    }
}

/// The length of the text that stands for `n` bytes.
pub open spec fn text_len(n: nat) -> nat {
    4 * ((n + 2) / 3)
}

/// What `text` stands for: the bytes whose text it is, if there are any.
pub open spec fn decoded(text: Seq<char>) -> Option<Seq<u8>> {
    if exists|bytes: Seq<u8>| encoded(bytes) == text {
        Some(choose|bytes: Seq<u8>| encoded(bytes) == text)
    } else {
        None
    }
}

/// Whether `text` is well formed: its length is a multiple of four, it
/// holds symbols of the alphabet in every place but the last two, which may
/// hold pads instead, and the last symbol before a pad has no bit set that
/// stands for nothing (its two low bits before one pad, its four low bits
/// before two).
pub open spec fn well_formed(text: Seq<char>) -> bool {
    let n = text.len() as int;
    &&& n % 4 == 0
    &&& forall|i: int| 0 <= i < n - 2 ==> is_symbol(#[trigger] text[i])
    &&& n > 0 ==> {
        ||| is_symbol(text[n - 2]) && is_symbol(text[n - 1])
        ||| is_symbol(text[n - 2]) && symbol_value(text[n - 2]) % 4 == 0 && text[n - 1] == pad()
        ||| symbol_value(text[n - 3]) % 16 == 0 && text[n - 2] == pad() && text[n - 1] == pad()
    }
}

/// The text handed to [`decode`] is malformed: it is the text of no byte
/// sequence.
#[derive(Debug, Clone, Copy, PartialEq, Eq)]
pub struct CodecError;

/// The error of the `base64` crate's decoder, carried through unread.
#[verifier::external_type_specification]
#[verifier::external_body]
pub struct ExDecodeError(base64::DecodeError);

/// Calls `Engine::encode` on `base64::engine::general_purpose::STANDARD`.
///
/// Trusted: the result is the text of `bytes` in base64 as RFC 4648 has it,
/// which [`encoded`] writes out. That engine takes its symbols from
/// `alphabet::STANDARD`, the string of `A` to `Z`, `a` to `z`, `0` to `9`,
/// `+` and `/`, and pads the last group with `=`. The call panics when the
/// length of the text does not fit in `usize`, and a buffer of more than
/// `isize::MAX` bytes cannot be allocated, so such inputs are left out.
#[verifier::external_body]
fn standard_encode(bytes: &[u8]) -> (text: String)
    requires
        text_len(bytes@.len()) <= isize::MAX,
    ensures
        text@ == encoded(bytes@),
{
    base64::engine::general_purpose::STANDARD.encode(bytes)
}

/// Calls `Engine::decode` on `base64::engine::general_purpose::STANDARD`.
///
/// Trusted: the call succeeds exactly on the texts that some byte sequence
/// has, and then returns that sequence. That engine is set up to require
/// canonical padding (`DecodePaddingMode::RequireCanonical`) and to reject
/// stray bits in the last symbol (`decode_allow_trailing_bits` off); it
/// rejects every byte that is no symbol of the alphabet, a pad anywhere but
/// in the last one or two places, and a length that is no multiple of four.
/// The empty text is accepted and stands for no bytes.
#[verifier::external_body]
fn standard_decode(text: &str) -> (r: Result<Vec<u8>, base64::DecodeError>)
    ensures
        match r {
            Ok(bytes) => encoded(bytes@) == text@,
            Err(_) => forall|bytes: Seq<u8>| encoded(bytes) != text@,
        },
{
    base64::engine::general_purpose::STANDARD.decode(text)
}

/// Whether a sequence of `len` bytes can be encoded: whether its text is
/// short enough to be held in memory.
pub fn encodable(len: usize) -> (ok: bool)
    ensures
        ok == (text_len(len as nat) <= isize::MAX),
{
    let groups: usize = if len % 3 == 0 {
        len / 3
    } else {
        len / 3 + 1
    };
    groups <= isize::MAX as usize / 4
}

/// Encodes `bytes` as text. The same bytes always give the same text.
pub fn encode(bytes: &[u8]) -> (text: String)
    requires
        text_len(bytes@.len()) <= isize::MAX,
    ensures
        text@ == encoded(bytes@),
{
    standard_encode(bytes)
}

/// Decodes `text`: the inverse of [`encode`]. Fails on every text that
/// [`encode`] cannot have produced, and never answers a malformed text with
/// an empty result.
pub fn decode(text: &str) -> (r: Result<Vec<u8>, CodecError>)
    ensures
        match r {
            Ok(bytes) => decoded(text@) == Some(bytes@),
            Err(_) => decoded(text@) is None,
        },
        r is Ok <==> well_formed(text@),
{
    proof {
        lemma_decodable_iff_well_formed(text@);
    }
    match standard_decode(text) {
        Ok(bytes) => {
            proof {
                lemma_decoded_iff_encoded(text@, bytes@);
            }
            Ok(bytes)
        },
        Err(_) => Err(CodecError),
    }
}

/// Decoding the text of `bytes` gives `bytes` back.
pub proof fn lemma_round_trip(bytes: Seq<u8>)
    ensures
        decoded(encoded(bytes)) == Some(bytes),
{
    let text = encoded(bytes);
    let found = choose|b: Seq<u8>| encoded(b) == text;
    lemma_encoded_injective(found, bytes);
}

/// A text can be decoded exactly when it is well formed.
pub proof fn lemma_decodable_iff_well_formed(text: Seq<char>)
    ensures
        decoded(text) is Some <==> well_formed(text),
{
    if well_formed(text) {
        lemma_unpacked_encodes(text);
    }
    if decoded(text) is Some {
        lemma_encoded_well_formed(decoded(text)->0);
    }
}

/// Only the empty text stands for no bytes at all: a text that is not empty
/// is never decoded to an empty result.
pub proof fn lemma_empty_only_from_empty(text: Seq<char>)
    ensures
        decoded(text) == Some(Seq::<u8>::empty()) <==> text.len() == 0,
{
    let nothing = Seq::<u8>::empty();
    lemma_decoded_iff_encoded(text, nothing);
    assert(encoded(nothing).len() == 0);
    if text.len() == 0 {
        assert(text =~= encoded(nothing));
    }
}

/// A text stands for `bytes` exactly when it is the text of `bytes`.
pub proof fn lemma_decoded_iff_encoded(text: Seq<char>, bytes: Seq<u8>)
    ensures
        decoded(text) == Some(bytes) <==> encoded(bytes) == text,
{
    if encoded(bytes) == text {
        lemma_round_trip(bytes);
    }
}

/// Different byte sequences have different texts.
pub proof fn lemma_encoded_injective(a: Seq<u8>, b: Seq<u8>)
    requires
        encoded(a) == encoded(b),
    ensures
        a == b,
    decreases a.len(),
{
    lemma_encoded_len(a);
    lemma_encoded_len(b);
    if a.len() == 0 || b.len() == 0 {
        assert(a =~= b);
    } else {
        lemma_encoded_tail(a);
        lemma_encoded_tail(b);
        assert(a.len() == b.len());
        if a.len() == 1 {
            lemma_single_group_injective(a[0], b[0]);
            assert(a =~= b);
        } else if a.len() == 2 {
            lemma_pair_group_injective(a[0], a[1], b[0], b[1]);
            assert(a =~= b);
        } else {
            let g = full_group(a[0], a[1], a[2]);
            let h = full_group(b[0], b[1], b[2]);
            let t = encoded(a);
            assert(g =~= t.subrange(0, 4));
            assert(h =~= t.subrange(0, 4));
            assert(encoded(a.skip(3)) =~= t.subrange(4, t.len() as int));
            assert(encoded(b.skip(3)) =~= t.subrange(4, t.len() as int));
            lemma_full_group_injective(a[0], a[1], a[2], b[0], b[1], b[2]);
            lemma_encoded_injective(a.skip(3), b.skip(3));
            assert(a =~= seq![a[0], a[1], a[2]] + a.skip(3));
            assert(b =~= seq![b[0], b[1], b[2]] + b.skip(3));
        }
    }
}

/// The text of `n` bytes has four symbols for every three bytes begun.
pub proof fn lemma_encoded_len(bytes: Seq<u8>)
    ensures
        encoded(bytes).len() == text_len(bytes.len()),
    decreases bytes.len(),
{
    if bytes.len() >= 3 {
        lemma_encoded_len(bytes.skip(3));
    }
}

/// The text of any bytes is well formed.
pub proof fn lemma_encoded_well_formed(bytes: Seq<u8>)
    ensures
        well_formed(encoded(bytes)),
    decreases bytes.len(),
{
    let text = encoded(bytes);
    if bytes.len() == 0 {
    } else if bytes.len() == 1 {
        lemma_symbol_of_value(bytes[0] as int / 4);
        lemma_symbol_of_value((bytes[0] as int % 4) * 16);
    } else if bytes.len() == 2 {
        lemma_symbol_of_value(bytes[0] as int / 4);
        lemma_symbol_of_value((bytes[0] as int % 4) * 16 + bytes[1] as int / 16);
        lemma_symbol_of_value((bytes[1] as int % 16) * 4);
    } else {
        let group = full_group(bytes[0], bytes[1], bytes[2]);
        let rest = encoded(bytes.skip(3));
        lemma_symbol_of_value(bytes[0] as int / 4);
        lemma_symbol_of_value((bytes[0] as int % 4) * 16 + bytes[1] as int / 16);
        lemma_symbol_of_value((bytes[1] as int % 16) * 4 + bytes[2] as int / 64);
        lemma_symbol_of_value(bytes[2] as int % 64);
        lemma_encoded_well_formed(bytes.skip(3));
        lemma_encoded_len(bytes.skip(3));
        assert(text == group + rest);
        let n = text.len() as int;
        assert(n == 4 + rest.len());
        assert forall|i: int| 0 <= i < n - 2 implies is_symbol(#[trigger] text[i]) by {
            if i < 4 {
                assert(text[i] == group[i]);
            } else {
                assert(text[i] == rest[i - 4]);
            }
        }
        if rest.len() > 0 {
            assert(text[n - 1] == rest[rest.len() - 1]);
            assert(text[n - 2] == rest[rest.len() - 2]);
            assert(text[n - 3] == rest[rest.len() - 3]);
        } else {
            assert(text[n - 1] == group[3]);
            assert(text[n - 2] == group[2]);
        }
    }
}

/// Each six-bit value has a symbol of its own in the alphabet, and none of
/// them is the pad.
pub proof fn lemma_symbol_of_value(v: int)
    requires
        0 <= v < 64,
    ensures
        is_symbol(symbol(v)),
        symbol_value(symbol(v)) == v,
        symbol(v) != pad(),
{
}

/// Each symbol of the alphabet stands for one six-bit value, and is the
/// symbol of that value.
pub proof fn lemma_value_of_symbol(c: char)
    requires
        is_symbol(c),
    ensures
        0 <= symbol_value(c) < 64,
        symbol(symbol_value(c)) == c,
        c != pad(),
{
}

/// A full group determines its three bytes.
proof fn lemma_full_group_injective(a: u8, b: u8, c: u8, x: u8, y: u8, z: u8)
    requires
        full_group(a, b, c) == full_group(x, y, z),
    ensures
        a == x,
        b == y,
        c == z,
{
    let g = full_group(a, b, c);
    let h = full_group(x, y, z);
    assert(g[0] == h[0] && g[1] == h[1] && g[2] == h[2] && g[3] == h[3]);
    lemma_symbol_of_value(a as int / 4);
    lemma_symbol_of_value(x as int / 4);
    lemma_symbol_of_value((a as int % 4) * 16 + b as int / 16);
    lemma_symbol_of_value((x as int % 4) * 16 + y as int / 16);
    lemma_symbol_of_value((b as int % 16) * 4 + c as int / 64);
    lemma_symbol_of_value((y as int % 16) * 4 + z as int / 64);
    lemma_symbol_of_value(c as int % 64);
    lemma_symbol_of_value(z as int % 64);
}

/// A last group of two bytes determines them.
proof fn lemma_pair_group_injective(a: u8, b: u8, x: u8, y: u8)
    requires
        pair_group(a, b) == pair_group(x, y),
    ensures
        a == x,
        b == y,
{
    let g = pair_group(a, b);
    let h = pair_group(x, y);
    assert(g[0] == h[0] && g[1] == h[1] && g[2] == h[2]);
    lemma_symbol_of_value(a as int / 4);
    lemma_symbol_of_value(x as int / 4);
    lemma_symbol_of_value((a as int % 4) * 16 + b as int / 16);
    lemma_symbol_of_value((x as int % 4) * 16 + y as int / 16);
    lemma_symbol_of_value((b as int % 16) * 4);
    lemma_symbol_of_value((y as int % 16) * 4);
}

/// A last group of one byte determines it.
proof fn lemma_single_group_injective(a: u8, x: u8)
    requires
        single_group(a) == single_group(x),
    ensures
        a == x,
{
    let g = single_group(a);
    let h = single_group(x);
    assert(g[0] == h[0] && g[1] == h[1]);
    lemma_symbol_of_value(a as int / 4);
    lemma_symbol_of_value(x as int / 4);
    lemma_symbol_of_value((a as int % 4) * 16);
    lemma_symbol_of_value((x as int % 4) * 16);
}

/// The last two places of a text tell how many bytes its last group holds:
/// two pads for one byte, one pad for two, none for three.
proof fn lemma_encoded_tail(bytes: Seq<u8>)
    requires
        bytes.len() > 0,
    ensures
        encoded(bytes).len() >= 4,
        bytes.len() % 3 == 1 <==> encoded(bytes)[encoded(bytes).len() - 2] == pad(),
        bytes.len() % 3 != 0 <==> encoded(bytes)[encoded(bytes).len() - 1] == pad(),
    decreases bytes.len(),
{
    let text = encoded(bytes);
    if bytes.len() == 1 {
        lemma_symbol_of_value(bytes[0] as int / 4);
        lemma_symbol_of_value((bytes[0] as int % 4) * 16);
        assert(text.len() == 4);
    } else if bytes.len() == 2 {
        lemma_symbol_of_value((bytes[0] as int % 4) * 16 + bytes[1] as int / 16);
        lemma_symbol_of_value((bytes[1] as int % 16) * 4);
        assert(text.len() == 4);
    } else {
        let group = full_group(bytes[0], bytes[1], bytes[2]);
        let rest = encoded(bytes.skip(3));
        assert(text == group + rest);
        assert(group.len() == 4);
        if bytes.len() == 3 {
            assert(rest =~= Seq::<char>::empty());
            lemma_symbol_of_value((bytes[1] as int % 16) * 4 + bytes[2] as int / 64);
            lemma_symbol_of_value(bytes[2] as int % 64);
            assert(text[2] == group[2]);
            assert(text[3] == group[3]);
        } else {
            lemma_encoded_tail(bytes.skip(3));
            assert(bytes.skip(3).len() == bytes.len() - 3);
            assert(text[text.len() - 1] == rest[rest.len() - 1]);
            assert(text[text.len() - 2] == rest[rest.len() - 2]);
        }
    }
}

/// The bytes that a well-formed text stands for, group by group.
spec fn unpacked(text: Seq<char>) -> Seq<u8>
    decreases text.len(),
{
    if text.len() < 4 {
        Seq::empty()
    } else {
        let v0 = symbol_value(text[0]);
        let v1 = symbol_value(text[1]);
        let v2 = symbol_value(text[2]);
        let v3 = symbol_value(text[3]);
        let first = (v0 * 4 + v1 / 16) as u8;
        let second = ((v1 % 16) * 16 + v2 / 4) as u8;
        let third = ((v2 % 4) * 64 + v3) as u8;
        if text[2] == pad() {
            seq![first]
        } else if text[3] == pad() {
            seq![first, second]
        } else {
            seq![first, second, third] + unpacked(text.skip(4))
        }
    }
}

/// A well-formed text is the text of the bytes unpacked from it.
proof fn lemma_unpacked_encodes(text: Seq<char>)
    requires
        well_formed(text),
    ensures
        encoded(unpacked(text)) == text,
    decreases text.len(),
{
    let n = text.len() as int;
    if n == 0 {
        assert(encoded(unpacked(text)) =~= text);
    } else {
        assert(n >= 4);
        lemma_value_of_symbol(text[0]);
        lemma_value_of_symbol(text[1]);
        let v0 = symbol_value(text[0]);
        let v1 = symbol_value(text[1]);
        let v2 = symbol_value(text[2]);
        let v3 = symbol_value(text[3]);
        let first = (v0 * 4 + v1 / 16) as u8;
        let second = ((v1 % 16) * 16 + v2 / 4) as u8;
        let third = ((v2 % 4) * 64 + v3) as u8;
        if text[2] == pad() {
            assert(n == 4) by {
                if n > 4 {
                    assert(is_symbol(text[2]));
                }
            }
            assert(first as int / 4 == v0);
            assert((first as int % 4) * 16 == v1);
            assert(single_group(first) =~= text);
        } else if text[3] == pad() {
            assert(n == 4) by {
                if n > 4 {
                    assert(is_symbol(text[3]));
                }
            }
            lemma_value_of_symbol(text[2]);
            assert(first as int / 4 == v0);
            assert((first as int % 4) * 16 + second as int / 16 == v1);
            assert((second as int % 16) * 4 == v2);
            assert(pair_group(first, second) =~= text);
        } else {
            assert(is_symbol(text[2]) && is_symbol(text[3])) by {
                if n > 4 {
                    assert(is_symbol(text[2]));
                    assert(is_symbol(text[3]));
                }
            }
            lemma_value_of_symbol(text[2]);
            lemma_value_of_symbol(text[3]);
            let rest = text.skip(4);
            assert(well_formed(rest)) by {
                assert forall|i: int| 0 <= i < rest.len() - 2 implies is_symbol(
                    #[trigger] rest[i],
                ) by {
                    assert(rest[i] == text[i + 4]);
                }
                if rest.len() > 0 {
                    let m = rest.len() as int;
                    assert(rest[m - 1] == text[n - 1]);
                    assert(rest[m - 2] == text[n - 2]);
                    assert(rest[m - 3] == text[n - 3]);
                }
            }
            lemma_unpacked_encodes(rest);
            let bytes = unpacked(text);
            assert(bytes.skip(3) =~= unpacked(rest));
            assert(first as int / 4 == v0);
            assert((first as int % 4) * 16 + second as int / 16 == v1);
            assert((second as int % 16) * 4 + third as int / 64 == v2);
            assert(third as int % 64 == v3);
            assert(full_group(bytes[0], bytes[1], bytes[2]) =~= text.take(4));
            assert(encoded(bytes) =~= text.take(4) + rest);
            assert(text.take(4) + rest =~= text);
        }
    }
}

} // verus!
