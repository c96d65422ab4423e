//! Text that the exchange reads and writes: decimal numbers, hex, and the `Debug` form of a list
//! of strings.

use vstd::prelude::*;
use vstd::string::StrSliceExecFns;
use vstd::utf8::encode_utf8;

verus! {

/// The character of a decimal digit.
pub open spec fn decimal_digit(d: int) -> char
    recommends
        0 <= d < 10,
{
    ('0' as int + d) as char
}

/// The decimal notation of `n`: no sign, no leading zero.
pub open spec fn decimal(n: nat) -> Seq<char>
    decreases n,
{
    if n < 10 {
        seq![decimal_digit(n as int)]
    } else {
        decimal(n / 10).push(decimal_digit((n % 10) as int))
    }
}

/// The lower-case hex digit of a value below sixteen.
pub open spec fn hex_digit(d: int) -> char
    recommends
        0 <= d < 16,
{
    if d < 10 {
        ('0' as int + d) as char
    } else {
        ('a' as int + (d - 10)) as char
    }
}

/// Two lower-case hex digits for each byte, the high half first.
pub open spec fn hex_text(bytes: Seq<u8>) -> Seq<char> {
    Seq::new(
        2 * bytes.len(),
        |i: int|
            if i % 2 == 0 {
                hex_digit(bytes[i / 2] as int / 16)
            } else {
                hex_digit(bytes[i / 2] as int % 16)
            },
    )
}

/// What a hex digit of either case stands for; `None` for any other character.
pub open spec fn hex_value(c: char) -> Option<int> {
    if '0' <= c && c <= '9' {
        Some(c as int - '0' as int)
    } else if 'a' <= c && c <= 'f' {
        Some(c as int - 'a' as int + 10)
    } else if 'A' <= c && c <= 'F' {
        Some(c as int - 'A' as int + 10)
    } else {
        None
    }
}

/// Whether a text is made of pairs of hex digits.
pub open spec fn is_hex_text(s: Seq<char>) -> bool {
    &&& s.len() % 2 == 0
    &&& forall|i: int| 0 <= i < s.len() ==> hex_value(#[trigger] s[i]) is Some
}

/// The bytes that a text of hex digit pairs stands for.
pub open spec fn hex_bytes(s: Seq<char>) -> Seq<u8> {
    Seq::new(
        s.len() / 2,
        |i: int| (16 * hex_value(s[2 * i])->0 + hex_value(s[2 * i + 1])->0) as u8,
    )
}

/// The error type of the `hex` crate.
#[verifier::external_type_specification]
#[verifier::external_body]
pub struct ExFromHexError(hex::FromHexError);

/// Calls `hex::decode`. It claims that the call succeeds exactly on texts of hex digit pairs, in
/// either case, and then gives the byte of each pair in order. Which error it gives otherwise is
/// left unsaid: no caller tells the errors apart.
#[verifier::external_body]
fn decode_hex_text(text: &String) -> (res: Result<Vec<u8>, hex::FromHexError>)
    ensures
        res is Ok <==> is_hex_text(text@),
        res matches Ok(bytes) ==> bytes@ == hex_bytes(text@),
{
    hex::decode(text)
}

/// The bytes of a text of hex digit pairs, `None` for any other text.
pub fn decode_hex(text: &String) -> (res: Option<Vec<u8>>)
    ensures
        res is Some <==> is_hex_text(text@),
        res matches Some(bytes) ==> bytes@ == hex_bytes(text@),
{
    match decode_hex_text(text) {
        Ok(bytes) => Some(bytes),
        Err(_) => None,
    }
}

/// Calls `u64::to_string` of std. It claims that the text is the decimal notation of the number.
#[verifier::external_body]
fn u64_to_text(n: u64) -> (res: String)
    ensures
        res@ == decimal(n as nat),
{
    n.to_string()
}

/// The decimal notation of `n`.
pub fn decimal_text(n: u64) -> (res: String)
    ensures
        res@ == decimal(n as nat),
{
    u64_to_text(n)
}

/// The number of bytes of a text.
pub fn byte_len(s: &String) -> (res: usize)
    ensures
        res == encode_utf8(s@).len(),
{
    s.as_str().as_bytes_vec().len()
}

/// The views of the strings of a list.
pub open spec fn string_views(list: Seq<String>) -> Seq<Seq<char>> {
    list.map_values(|s: String| s@)
}

/// The `Debug` form that std gives a string: it quotes the string and escapes the characters in it.
pub uninterp spec fn string_debug(s: Seq<char>) -> Seq<char>;

/// Calls std's `Debug` formatting of `String`. It claims that the text is a function of the
/// characters alone.
#[verifier::external_body]
pub(crate) fn string_debug_text(s: &String) -> (res: String)
    ensures
        res@ == string_debug(s@),
{
    format!("{:?}", s)
}

/// The texts one after the other, with a comma and a space between them.
pub open spec fn joined(items: Seq<Seq<char>>) -> Seq<char>
    decreases items.len(),
{
    if items.len() == 0 {
        Seq::empty()
    } else if items.len() == 1 {
        items[0]
    } else {
        joined(items.drop_last()) + ", "@ + items.last()
    }
}

/// The `Debug` form of a list whose items have the given forms.
pub open spec fn list_debug(items: Seq<Seq<char>>) -> Seq<char> {
    "["@ + joined(items) + "]"@
}

/// The `Debug` form of a list of strings.
pub open spec fn strings_debug(list: Seq<Seq<char>>) -> Seq<char> {
    list_debug(list.map_values(|s: Seq<char>| string_debug(s)))
}

/// Calls std's `Debug` formatting of `Vec<String>`. It claims that the text is the `Debug` forms of
/// the strings, separated by commas, in brackets.
#[verifier::external_body]
pub(crate) fn strings_debug_text(list: &Vec<String>) -> (res: String)
    ensures
        res@ == strings_debug(string_views(list@)),
{
    format!("{:?}", list)
}

} // verus!
