//! The text form of the values of a log line.
//!
//! A string is written between double quotes with the escapes of JSON, a port
//! as a decimal number. The writing itself is done by `serde_json`; this module
//! states what it writes.

use vstd::prelude::*;

verus! {

/// The lower-case hexadecimal digit for `n`, where `n < 16`.
pub open spec fn hex_digit(n: int) -> char {
    if n < 10 {
        ('0' as int + n) as char
    } else {
        ('a' as int + n - 10) as char
    }
}

/// The decimal digit for `n`, where `n < 10`.
pub open spec fn decimal_digit(n: int) -> char {
    ('0' as int + n) as char
}

/// How one character stands inside a quoted string: the quote, the backslash
/// and the control characters below U+0020 are escaped, every other character
/// stands for itself.
pub open spec fn escape_char(c: char) -> Seq<char> {
    if c == '"' {
        seq!['\\', '"']
    } else if c == '\\' {
        seq!['\\', '\\']
    } else if c == '\u{8}' {
        seq!['\\', 'b']
    } else if c == '\t' {
        seq!['\\', 't']
    } else if c == '\n' {
        seq!['\\', 'n']
    } else if c == '\u{c}' {
        seq!['\\', 'f']
    } else if c == '\r' {
        seq!['\\', 'r']
    } else if (c as int) < 0x20 {
        seq!['\\', 'u', '0', '0', hex_digit(c as int / 16), hex_digit(c as int % 16)]
    } else {
        seq![c]
    }
}

/// The characters of `text`, each escaped, in order.
pub open spec fn escape_text(text: Seq<char>) -> Seq<char>
    decreases text.len(),
{
    if text.len() == 0 {
        Seq::empty()
    } else {
        escape_char(text[0]) + escape_text(text.drop_first())
    }
}

/// `text` as a quoted string.
pub open spec fn quoted(text: Seq<char>) -> Seq<char> {
    seq!['"'] + escape_text(text) + seq!['"']
}

/// `n` in decimal, without leading zeros.
pub open spec fn decimal(n: nat) -> Seq<char>
    decreases n,
{
    if n < 10 {
        seq![decimal_digit(n as int)]
    } else {
        decimal(n / 10).push(decimal_digit((n % 10) as int))
    }
}

#[verifier::external_type_specification]
#[verifier::external_body]
pub struct ExJsonError(serde_json::Error);

/// `serde_json::to_string` on a string slice. It writes into memory and a
/// string slice has nothing that could fail to be written, so it succeeds. The
/// result is the slice between double quotes, with `"` and `\` behind a
/// backslash, the control characters below U+0020 as `\b`, `\t`, `\n`, `\f`,
/// `\r` or `\u00XX` in lower-case hexadecimal, and every other character
/// unchanged.
#[verifier::external_body]
pub(crate) fn write_json_string(text: &str) -> (written: Result<String, serde_json::Error>)
    ensures
        written is Ok,
        written->Ok_0@ == quoted(text@),
{
    serde_json::to_string(text)
}

/// `serde_json::to_string` on a `u16`. It writes into memory and a number has
/// nothing that could fail to be written, so it succeeds. The result is the
/// number in decimal, without sign or leading zeros.
#[verifier::external_body]
pub(crate) fn write_json_number(number: u16) -> (written: Result<String, serde_json::Error>)
    ensures
        written is Ok,
        written->Ok_0@ == decimal(number as nat),
{
    serde_json::to_string(&number)
}

} // verus!
