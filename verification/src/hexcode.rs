//! Hexadecimal text and the bytes it stands for.

use vstd::prelude::*;

verus! {

/// The failure that the `hex` crate reports for text it cannot decode.
#[verifier::external_type_specification]
#[verifier::external_body]
pub struct ExFromHexError(hex::FromHexError);

/// Whether `c` is one of `0`-`9`, `a`-`f`, `A`-`F`.
pub open spec fn is_hex_digit(c: char) -> bool {
    ||| '0' as u32 <= c as u32 <= '9' as u32
    ||| 'a' as u32 <= c as u32 <= 'f' as u32
    ||| 'A' as u32 <= c as u32 <= 'F' as u32
}

/// The number from 0 to 15 that a hexadecimal digit stands for.
pub open spec fn hex_value(c: char) -> int {
    if '0' as u32 <= c as u32 <= '9' as u32 {
        c as u32 - '0' as u32
    } else if 'a' as u32 <= c as u32 <= 'f' as u32 {
        c as u32 - 'a' as u32 + 10
    } else {
        c as u32 - 'A' as u32 + 10
    }
}

/// Text that decodes: an even number of hexadecimal digits and nothing else.
pub open spec fn is_hex(text: Seq<char>) -> bool {
    &&& text.len() % 2 == 0
    &&& forall|i: int| 0 <= i < text.len() ==> is_hex_digit(#[trigger] text[i])
}

/// The byte that the two digits at `2 * i` and `2 * i + 1` stand for.
pub open spec fn hex_byte(text: Seq<char>, i: int) -> u8 {
    (16 * hex_value(text[2 * i]) + hex_value(text[2 * i + 1])) as u8
}

/// The bytes that hexadecimal text stands for, two digits to a byte.
pub open spec fn hex_bytes(text: Seq<char>) -> Seq<u8> {
    Seq::new((text.len() / 2) as nat, |i: int| hex_byte(text, i))
}

/// `text` without any leading repetitions of `0x`.
pub open spec fn strip_prefix(text: Seq<char>) -> Seq<char>
    decreases text.len(),
{
    if text.len() >= 2 && text[0] == '0' && text[1] == 'x' {
        strip_prefix(text.skip(2))
    } else {
        text
    }
}

/// The bytes of one bytecode part: its text without leading `0x`, decoded;
/// `None` where what is left is not hexadecimal.
pub open spec fn part_bytes(data: Seq<char>) -> Option<Seq<u8>> {
    if is_hex(strip_prefix(data)) {
        Some(hex_bytes(strip_prefix(data)))
    } else {
        None
    }
}

/// Calls `hex::decode`. It succeeds exactly on an even number of hexadecimal
/// digits of either case, and then gives one byte for every two digits, the
/// first digit being the high half of the byte.
#[verifier::external_body]
fn decode(text: &str) -> (decoded: Result<Vec<u8>, hex::FromHexError>)
    ensures
        decoded is Ok <==> is_hex(text@),
        decoded matches Ok(bytes) ==> bytes@ == hex_bytes(text@),
{
    hex::decode(text)
}

/// Calls `str::trim_start_matches` with the pattern `0x`, which removes the
/// pattern from the start of the text as often as it stands there.
#[verifier::external_body]
pub(crate) fn trim_prefix(text: &str) -> (rest: &str)
    ensures
        rest@ == strip_prefix(text@),
{
    text.trim_start_matches("0x")
}

/// Decodes the text of one bytecode part.
pub fn decode_part(data: &str) -> (bytes: Option<Vec<u8>>)
    ensures
        bytes is Some <==> part_bytes(data@) is Some,
        bytes matches Some(b) ==> Some(b@) == part_bytes(data@),
{
    match decode(trim_prefix(data)) {
        Ok(bytes) => Some(bytes),
        Err(_) => None,
    }
}

/// Two texts that decode give, joined, a text that decodes to the bytes of the
/// first followed by the bytes of the second.
pub proof fn lemma_hex_concat(a: Seq<char>, b: Seq<char>)
    requires
        is_hex(a),
        is_hex(b),
    ensures
        is_hex(a + b),
        hex_bytes(a + b) == hex_bytes(a) + hex_bytes(b),
{
    let ab = a + b;
    let half = a.len() / 2;
    assert(a.len() == 2 * half);
    assert forall|i: int| 0 <= i < ab.len() implies is_hex_digit(#[trigger] ab[i]) by {
        if i < a.len() {
            assert(ab[i] == a[i]);
        } else {
            assert(ab[i] == b[i - a.len()]);
        }
    }
    assert forall|i: int| 0 <= i < hex_bytes(ab).len() implies hex_bytes(ab)[i] == (hex_bytes(a)
        + hex_bytes(b))[i] by {
        if i < half {
            assert(ab[2 * i] == a[2 * i]);
            assert(ab[2 * i + 1] == a[2 * i + 1]);
        } else {
            assert(ab[2 * i] == b[2 * (i - half)]);
            assert(ab[2 * i + 1] == b[2 * (i - half) + 1]);
        }
    }
    assert(hex_bytes(ab) =~= hex_bytes(a) + hex_bytes(b));
}

} // verus!
