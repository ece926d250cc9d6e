use vstd::prelude::*;

use fuels::types::{Bits256, ContractId};
use std::str::FromStr;
use uuid::Uuid;

verus! {

/// The value of a hexadecimal digit, either case; `None` for any other
/// character.
pub open spec fn hex_value(c: char) -> Option<nat> {
    let n = c as int;
    if 48 <= n <= 57 {
        Some((n - 48) as nat)
    } else if 97 <= n <= 102 {
        Some((n - 87) as nat)
    } else if 65 <= n <= 70 {
        Some((n - 55) as nat)
    } else {
        None
    }
}

pub open spec fn all_hex(s: Seq<char>) -> bool {
    forall|i: int| 0 <= i < s.len() ==> #[trigger] hex_value(s[i]) is Some
}

/// `s` without one leading `0x`, when it has one.
pub open spec fn without_0x(s: Seq<char>) -> Seq<char> {
    if s.len() >= 2 && s[0] == '0' && s[1] == 'x' {
        s.skip(2)
    } else {
        s
    }
}

/// The bytes that pairs of hexadecimal digits stand for, the first digit
/// of a pair being the high half of its byte.
pub open spec fn hex_pairs(s: Seq<char>) -> Seq<u8> {
    Seq::new(
        s.len() / 2,
        |i: int| (16 * hex_value(s[2 * i])->0 + hex_value(s[2 * i + 1])->0) as u8,
    )
}

/// A 32-byte value written as 64 hexadecimal digits, with an optional
/// `0x` in front.
pub open spec fn decode_b256(s: Seq<char>) -> Option<Seq<u8>> {
    let h = without_0x(s);
    if h.len() == 64 && all_hex(h) {
        Some(hex_pairs(h))
    } else {
        None
    }
}

/// The number that a sequence of hexadecimal digits stands for, most
/// significant digit first.
pub open spec fn hex_number(s: Seq<char>) -> nat
    decreases s.len(),
{
    if s.len() == 0 {
        0
    } else {
        hex_number(s.drop_last()) * 16 + hex_value(s.last())->0
    }
}

/// The digits of a UUID in hyphenated form (groups of 8-4-4-4-12).
pub open spec fn hyphenated_digits(s: Seq<char>) -> Option<Seq<char>> {
    if s.len() == 36 && s[8] == '-' && s[13] == '-' && s[18] == '-' && s[23] == '-' {
        Some(
            s.subrange(0, 8) + s.subrange(9, 13) + s.subrange(14, 18) + s.subrange(19, 23)
                + s.subrange(24, 36),
        )
    } else {
        None
    }
}

/// A character with ASCII upper case mapped to lower case.
pub open spec fn ascii_lower(c: char) -> char {
    if 65 <= (c as int) <= 90 {
        ((c as int) + 32) as char
    } else {
        c
    }
}

pub open spec fn urn_prefix() -> Seq<char> {
    seq!['u', 'r', 'n', ':', 'u', 'u', 'i', 'd', ':']
}

/// The 32 digits of a UUID written simple, hyphenated, braced or as a URN
/// (whose prefix may be in any case).
pub open spec fn uuid_digits(s: Seq<char>) -> Option<Seq<char>> {
    if s.len() == 32 {
        Some(s)
    } else if s.len() == 36 {
        hyphenated_digits(s)
    } else if s.len() == 38 && s[0] == '{' && s[37] == '}' {
        hyphenated_digits(s.subrange(1, 37))
    } else if s.len() == 45 && s.take(9).map_values(|c: char| ascii_lower(c)) == urn_prefix() {
        hyphenated_digits(s.skip(9))
    } else {
        None
    }
}

/// The 128-bit value of a UUID in text, `None` where the text is not one.
pub open spec fn uuid_parse(s: Seq<char>) -> Option<nat> {
    match uuid_digits(s) {
        Some(d) => if all_hex(d) {
            Some(hex_number(d))
        } else {
            None
        },
        None => None,
    }
}

pub open spec fn lower_hex_digit(d: nat) -> char {
    if d < 10 {
        (48 + d) as char
    } else {
        (87 + d) as char
    }
}

/// The last `n` hexadecimal digits of `v`, lower case, most significant
/// first.
pub open spec fn hex_digits(v: nat, n: nat) -> Seq<char>
    decreases n,
{
    if n == 0 {
        seq![]
    } else {
        hex_digits(v / 16, (n - 1) as nat).push(lower_hex_digit(v % 16))
    }
}

/// The hyphenated lower-case text of a UUID: 8-4-4-4-12 hexadecimal digits.
pub open spec fn uuid_text(v: u128) -> Seq<char> {
    let d = hex_digits(v as nat, 32);
    d.subrange(0, 8) + seq!['-'] + d.subrange(8, 12) + seq!['-'] + d.subrange(12, 16) + seq!['-']
        + d.subrange(16, 20) + seq!['-'] + d.subrange(20, 32)
}

pub open spec fn contract_id_error() -> Seq<char> {
    seq![
        'I', 'n', 'v', 'a', 'l', 'i', 'd', ' ', 'e', 'n', 'c', 'o', 'd', 'e', 'd', ' ', 'b', 'y',
        't', 'e', ' ', 'i', 'n', ' ', 'C', 'o', 'n', 't', 'r', 'a', 'c', 't', 'I', 'd',
    ]
}

/// `uuid::Uuid::parse_str` followed by `Uuid::as_u128`: the value of the
/// UUID written in `s` (simple, hyphenated, braced or URN form, hexadecimal
/// digits in either case), or `None` when `s` is none of these.
#[verifier::external_body]
pub(crate) fn parse_uuid(s: &str) -> (res: Option<u128>)
    ensures
        res is None <==> uuid_parse(s@) is None,
        res matches Some(v) ==> uuid_parse(s@) == Some(v as nat),
{
    match Uuid::parse_str(s) {
        Ok(u) => Some(u.as_u128()),
        Err(_) => None,
    }
}

/// `uuid::Uuid::from_u128` followed by `to_string`: the UUID's `Display`
/// form, hyphenated lower-case hexadecimal.
#[verifier::external_body]
pub(crate) fn uuid_to_string(v: u128) -> (res: String)
    ensures
        res@ == uuid_text(v),
{
    Uuid::from_u128(v).to_string()
}

/// `fuels::types::Bits256::from_hex_str`: strips one leading `0x` and
/// decodes exactly 64 hexadecimal digits into 32 bytes; fails otherwise,
/// with the text of the fuels error. Which text (it comes from the `hex`
/// crate's error for the first fault found) is left unsaid.
#[verifier::external_body]
pub(crate) fn bits256_from_hex(s: &str) -> (res: Result<Vec<u8>, String>)
    ensures
        res is Err <==> decode_b256(s@) is None,
        res matches Ok(b) ==> decode_b256(s@) == Some(b@),
{
    match Bits256::from_hex_str(s) {
        Ok(b) => Ok(b.0.to_vec()),
        Err(e) => Err(e.to_string()),
    }
}

/// `fuels::types::ContractId::from_str`: strips one leading `0x` and
/// decodes exactly 64 hexadecimal digits into 32 bytes; on failure its error
/// is the text "Invalid encoded byte in ContractId".
#[verifier::external_body]
pub(crate) fn contract_id_from_str(s: &str) -> (res: Result<Vec<u8>, String>)
    ensures
        res is Err <==> decode_b256(s@) is None,
        res matches Ok(b) ==> decode_b256(s@) == Some(b@),
        res matches Err(m) ==> m@ == contract_id_error(),
{
    match ContractId::from_str(s) {
        Ok(c) => Ok(c.to_vec()),
        Err(e) => Err(e.to_string()),
    }
}

/// `String::push`: appends one character.
#[verifier::external_body]
pub(crate) fn push_char(s: &mut String, c: char)
    ensures
        final(s)@ == old(s)@.push(c),
{
    s.push(c);
}

} // verus!
