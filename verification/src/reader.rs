//! From a line of the log back to its record.
//!
//! The reader takes the form that the logger writes: the four fields in their
//! order, without blanks, strings with the escapes of JSON, the port as a
//! decimal number. Of the `\u` escapes it reads those of one character; a
//! surrogate half is refused.

use crate::record::{ConnectionLog, ConnectionLogView};
use crate::text::{chars_of, is_scalar_code};
use vstd::prelude::*;
use vstd::string::StrSliceExecFns;

verus! {

broadcast use vstd::utf8::char_is_scalar;

/// The value of a hexadecimal digit, in either case.
pub open spec fn hex_value(c: char) -> Option<int> {
    if '0' as int <= c as int <= '9' as int {
        Some(c as int - '0' as int)
    } else if 'a' as int <= c as int <= 'f' as int {
        Some(c as int - 'a' as int + 10)
    } else if 'A' as int <= c as int <= 'F' as int {
        Some(c as int - 'A' as int + 10)
    } else {
        None
    }
}

/// The character that the four hexadecimal digits at `at` give the number of.
pub open spec fn read_code(text: Seq<char>, at: int) -> Option<char> {
    if 0 <= at && at + 4 <= text.len() {
        match (
            hex_value(text[at]),
            hex_value(text[at + 1]),
            hex_value(text[at + 2]),
            hex_value(text[at + 3]),
        ) {
            (Some(a), Some(b), Some(c), Some(d)) => {
                let code = a * 4096 + b * 256 + c * 16 + d;
                if is_scalar_code(code) {
                    Some(code as char)
                } else {
                    None
                }
            },
            _ => None,
        }
    } else {
        None
    }
}

/// The character that stands at `at` inside a quoted string, and how many
/// places it takes: one for a plain character, two or six for an escape. There
/// is none at a quote, at a bare control character, or at a broken escape.
pub open spec fn read_char(text: Seq<char>, at: int) -> Option<(char, int)> {
    if !(0 <= at < text.len()) {
        None
    } else if text[at] == '"' || (text[at] as int) < 0x20 {
        None
    } else if text[at] != '\\' {
        Some((text[at], 1))
    } else if at + 1 >= text.len() {
        None
    } else if text[at + 1] == '"' {
        Some(('"', 2))
    } else if text[at + 1] == '\\' {
        Some(('\\', 2))
    } else if text[at + 1] == '/' {
        Some(('/', 2))
    } else if text[at + 1] == 'b' {
        Some(('\u{8}', 2))
    } else if text[at + 1] == 'f' {
        Some(('\u{c}', 2))
    } else if text[at + 1] == 'n' {
        Some(('\n', 2))
    } else if text[at + 1] == 'r' {
        Some(('\r', 2))
    } else if text[at + 1] == 't' {
        Some(('\t', 2))
    } else if text[at + 1] == 'u' {
        match read_code(text, at + 2) {
            Some(c) => Some((c, 6)),
            None => None,
        }
    } else {
        None
    }
}

/// `front` before the text that was read.
pub open spec fn prepend(front: Seq<char>, read: Option<(Seq<char>, int)>) -> Option<
    (Seq<char>, int),
> {
    match read {
        Some((rest, end)) => Some((front + rest, end)),
        None => None,
    }
}

/// The text that stands from `at` up to the next closing quote, and the place
/// behind that quote.
pub open spec fn read_text(text: Seq<char>, at: int) -> Option<(Seq<char>, int)>
    decreases text.len() - at,
{
    if !(0 <= at < text.len()) {
        None
    } else if text[at] == '"' {
        Some((Seq::empty(), at + 1))
    } else {
        match read_char(text, at) {
            Some((c, width)) => prepend(seq![c], read_text(text, at + width)),
            None => None,
        }
    }
}

/// The quoted string that begins at `at`, and the place behind it.
pub open spec fn read_quoted(text: Seq<char>, at: int) -> Option<(Seq<char>, int)> {
    if 0 <= at < text.len() && text[at] == '"' {
        read_text(text, at + 1)
    } else {
        None
    }
}

/// Whether `c` is a decimal digit.
pub open spec fn is_digit(c: char) -> bool {
    '0' as int <= c as int <= '9' as int
}

/// The place behind the digits that begin at `at`.
pub open spec fn digits_end(text: Seq<char>, at: int) -> int
    decreases text.len() - at,
{
    if 0 <= at < text.len() && is_digit(text[at]) {
        digits_end(text, at + 1)
    } else {
        at
    }
}

/// The number that the digits of `digits` write in decimal.
pub open spec fn number_of(digits: Seq<char>) -> nat
    decreases digits.len(),
{
    if digits.len() == 0 {
        0
    } else {
        (number_of(digits.drop_last()) * 10 + (digits.last() as int - '0' as int)) as nat
    }
}

/// The port that is written at `at`, and the place behind it: one digit or
/// more, no zero in front of another digit, and no more than 65535.
pub open spec fn read_port(text: Seq<char>, at: int) -> Option<(u16, int)> {
    let end = digits_end(text, at);
    let value = number_of(text.subrange(at, end));
    if !(0 <= at < text.len()) || end == at {
        None
    } else if text[at] == '0' && end > at + 1 {
        None
    } else if value > u16::MAX {
        None
    } else {
        Some((value as u16, end))
    }
}

/// Whether `piece` stands in `text` at `at`.
pub open spec fn stands_at(text: Seq<char>, at: int, piece: Seq<char>) -> bool {
    0 <= at && at + piece.len() <= text.len() && text.subrange(at, at + piece.len()) == piece
}

/// The record that `line` is the line of, if it is the line of one.
pub open spec fn read_record(line: Seq<char>) -> Option<ConnectionLogView> {
    let key_timestamp = "{\"timestamp\":"@;
    let key_ip_address = ",\"ip_address\":"@;
    let key_port = ",\"port\":"@;
    let key_data = ",\"data\":"@;
    let close = "}"@;
    if !stands_at(line, 0, key_timestamp) {
        None
    } else {
        match read_quoted(line, key_timestamp.len() as int) {
            None => None,
            Some((timestamp, after_timestamp)) => if !stands_at(
                line,
                after_timestamp,
                key_ip_address,
            ) {
                None
            } else {
                match read_quoted(line, after_timestamp + key_ip_address.len()) {
                    None => None,
                    Some((ip_address, after_ip_address)) => if !stands_at(
                        line,
                        after_ip_address,
                        key_port,
                    ) {
                        None
                    } else {
                        match read_port(line, after_ip_address + key_port.len()) {
                            None => None,
                            Some((port, after_port)) => if !stands_at(line, after_port, key_data) {
                                None
                            } else {
                                match read_quoted(line, after_port + key_data.len()) {
                                    None => None,
                                    Some((data, after_data)) => if stands_at(
                                        line,
                                        after_data,
                                        close,
                                    ) && after_data + close.len() == line.len() {
                                        Some(
                                            ConnectionLogView {
                                                timestamp,
                                                ip_address,
                                                port,
                                                data,
                                            },
                                        )
                                    } else {
                                        None
                                    },
                                }
                            },
                        }
                    },
                }
            },
        }
    }
}

/// The digits from `from` up to `to` end where the digits from `to` end.
pub proof fn lemma_digits_run(text: Seq<char>, from: int, to: int)
    requires
        0 <= from <= to <= text.len(),
        forall|i: int| from <= i < to ==> is_digit(#[trigger] text[i]),
    ensures
        digits_end(text, from) == digits_end(text, to),
        to <= digits_end(text, to) <= text.len(),
    decreases text.len() - from,
{
    if from < to {
        lemma_digits_run(text, from + 1, to);
    } else {
        lemma_digits_stop(text, to);
    }
}

/// The digits that begin at `at` end at or behind `at`, within the text, and
/// all places up to there hold digits.
pub proof fn lemma_digits_stop(text: Seq<char>, at: int)
    requires
        0 <= at <= text.len(),
    ensures
        at <= digits_end(text, at) <= text.len(),
        forall|i: int| at <= i < digits_end(text, at) ==> is_digit(#[trigger] text[i]),
        digits_end(text, at) < text.len() ==> !is_digit(text[digits_end(text, at)]),
    decreases text.len() - at,
{
    if at < text.len() && is_digit(text[at]) {
        lemma_digits_stop(text, at + 1);
    }
}

/// A number is no less than the number that fewer of its digits write.
pub proof fn lemma_number_grows(digits: Seq<char>, shorter: int)
    requires
        0 <= shorter <= digits.len(),
        forall|i: int| 0 <= i < digits.len() ==> is_digit(#[trigger] digits[i]),
    ensures
        number_of(digits.take(shorter)) <= number_of(digits),
    decreases digits.len(),
{
    if shorter < digits.len() {
        let front = digits.drop_last();
        lemma_number_grows(front, shorter);
        assert(front.take(shorter) =~= digits.take(shorter));
        assert(is_digit(digits[digits.len() - 1]));
    } else {
        assert(digits.take(shorter) =~= digits);
    }
}

/// The number of the character `c`.
fn code_of(c: char) -> (code: u32)
    ensures
        code == c as int,
        is_scalar_code(code as int),
{
    c as u32
}

/// The value of `c` as a hexadecimal digit.
fn hex_digit_value(c: char) -> (value: Option<u32>)
    ensures
        match value {
            Some(v) => hex_value(c) == Some(v as int) && v < 16,
            None => hex_value(c) is None,
        },
{
    let code = c as u32;
    if 0x30 <= code && code <= 0x39 {
        Some(code - 0x30)
    } else if 0x61 <= code && code <= 0x66 {
        Some(code - 0x61 + 10)
    } else if 0x41 <= code && code <= 0x46 {
        Some(code - 0x41 + 10)
    } else {
        None
    }
}

/// The character whose number the four hexadecimal digits at `at` write.
fn parse_code(chars: &[char], at: usize) -> (c: Option<char>)
    requires
        at <= chars.len(),
    ensures
        c == read_code(chars@, at as int),
{
    if chars.len() - at < 4 {
        return None;
    }
    let a = hex_digit_value(chars[at]);
    let b = hex_digit_value(chars[at + 1]);
    let c = hex_digit_value(chars[at + 2]);
    let d = hex_digit_value(chars[at + 3]);
    match (a, b, c, d) {
        (Some(a), Some(b), Some(c), Some(d)) => {
            let code: u32 = a * 4096 + b * 256 + c * 16 + d;
            char::from_u32(code)
        },
        _ => None,
    }
}

/// The character at `at` inside a quoted string, and its width.
fn parse_char(chars: &[char], at: usize) -> (read: Option<(char, usize)>)
    requires
        at <= chars.len(),
    ensures
        match read {
            Some((c, width)) => read_char(chars@, at as int) == Some((c, width as int)) && 1
                <= width && at + width <= chars.len(),
            None => read_char(chars@, at as int) is None,
        },
{
    if at >= chars.len() {
        return None;
    }
    let first = chars[at];
    if first == '"' || code_of(first) < 0x20 {
        return None;
    }
    if first != '\\' {
        return Some((first, 1));
    }
    if chars.len() - at < 2 {
        return None;
    }
    let second = chars[at + 1];
    if second == '"' {
        Some(('"', 2))
    } else if second == '\\' {
        Some(('\\', 2))
    } else if second == '/' {
        Some(('/', 2))
    } else if second == 'b' {
        Some(('\u{8}', 2))
    } else if second == 'f' {
        Some(('\u{c}', 2))
    } else if second == 'n' {
        Some(('\n', 2))
    } else if second == 'r' {
        Some(('\r', 2))
    } else if second == 't' {
        Some(('\t', 2))
    } else if second == 'u' {
        match parse_code(chars, at + 2) {
            Some(c) => Some((c, 6)),
            None => None,
        }
    } else {
        None
    }
}

/// The text from `start` up to the next closing quote, and the place behind
/// that quote.
fn parse_text(chars: &[char], start: usize) -> (read: Option<(String, usize)>)
    requires
        start <= chars.len(),
    ensures
        match read {
            Some((text, end)) => read_text(chars@, start as int) == Some((text@, end as int))
                && end <= chars.len(),
            None => read_text(chars@, start as int) is None,
        },
{
    let mut text = String::new();
    let mut at = start;
    loop
        invariant
            start <= at <= chars.len(),
            read_text(chars@, start as int) == prepend(text@, read_text(chars@, at as int)),
        decreases chars.len() - at,
    {
        if at >= chars.len() {
            return None;
        }
        if chars[at] == '"' {
            assert(text@ + Seq::<char>::empty() =~= text@);
            return Some((text, at + 1));
        }
        match parse_char(chars, at) {
            None => {
                return None;
            },
            Some((c, width)) => {
                proof {
                    let behind = read_text(chars@, at + width);
                    if let Some((rest, end)) = behind {
                        assert(text@ + (seq![c] + rest) =~= text@.push(c) + rest);
                    }
                }
                text.push(c);
                at = at + width;
            },
        }
    }
}

/// The quoted string that begins at `at`, and the place behind it.
fn parse_quoted(chars: &[char], at: usize) -> (read: Option<(String, usize)>)
    requires
        at <= chars.len(),
    ensures
        match read {
            Some((text, end)) => read_quoted(chars@, at as int) == Some((text@, end as int))
                && end <= chars.len(),
            None => read_quoted(chars@, at as int) is None,
        },
{
    if at < chars.len() && chars[at] == '"' {
        parse_text(chars, at + 1)
    } else {
        None
    }
}

/// The port written at `at`, and the place behind it.
fn parse_port(chars: &[char], start: usize) -> (read: Option<(u16, usize)>)
    requires
        start <= chars.len(),
    ensures
        match read {
            Some((port, end)) => read_port(chars@, start as int) == Some((port, end as int))
                && end <= chars.len(),
            None => read_port(chars@, start as int) is None,
        },
{
    let mut value: u32 = 0;
    let mut at = start;
    proof {
        lemma_digits_stop(chars@, start as int);
    }
    while at < chars.len() && 0x30 <= code_of(chars[at]) && code_of(chars[at]) <= 0x39
        invariant
            start <= at <= chars.len(),
            forall|i: int| start <= i < at ==> is_digit(#[trigger] chars@[i]),
            value == number_of(chars@.subrange(start as int, at as int)),
            value <= u16::MAX,
        decreases chars.len() - at,
    {
        let digit = code_of(chars[at]) - 0x30;
        let ghost run = chars@.subrange(start as int, at + 1);
        proof {
            assert(run.drop_last() =~= chars@.subrange(start as int, at as int));
            assert(run.last() == chars@[at as int]);
        }
        if value * 10 + digit > 0xFFFF {
            proof {
                lemma_digits_run(chars@, start as int, at + 1);
                let end = digits_end(chars@, start as int);
                let whole = chars@.subrange(start as int, end);
                lemma_digits_stop(chars@, start as int);
                lemma_number_grows(whole, at + 1 - start);
                assert(whole.take(at + 1 - start) =~= run);
            }
            return None;
        }
        value = value * 10 + digit;
        at = at + 1;
    }
    proof {
        lemma_digits_run(chars@, start as int, at as int);
        assert(digits_end(chars@, at as int) == at);
    }
    if at == start {
        return None;
    }
    if chars[start] == '0' && at - start > 1 {
        return None;
    }
    Some((value as u16, at))
}

/// The place behind `key`, where `key` stands at `at`.
fn parse_key(chars: &[char], at: usize, key: &str) -> (end: Option<usize>)
    requires
        at <= chars.len(),
    ensures
        match end {
            Some(end) => stands_at(chars@, at as int, key@) && end == at + key@.len(),
            None => !stands_at(chars@, at as int, key@),
        },
{
    let wanted = chars_of(key);
    if chars.len() - at < wanted.len() {
        return None;
    }
    let mut i: usize = 0;
    while i < wanted.len()
        invariant
            wanted@ == key@,
            at + wanted.len() <= chars.len(),
            0 <= i <= wanted.len(),
            forall|j: int| 0 <= j < i ==> chars@[at + j] == wanted@[j],
        decreases wanted.len() - i,
    {
        if chars[at + i] != wanted[i] {
            proof {
                let piece = chars@.subrange(at as int, at + key@.len());
                assert(piece[i as int] == chars@[at + i]);
            }
            return None;
        }
        i = i + 1;
    }
    proof {
        assert(chars@.subrange(at as int, at + key@.len()) =~= key@);
    }
    Some(at + wanted.len())
}

/// Reads a line of the log back into its record. There is a record for the
/// lines that hold the four fields as the logger writes them, and for no
/// others.
pub fn parse_line(line: &str) -> (record: Option<ConnectionLog>)
    ensures
        match record {
            Some(record) => read_record(line@) == Some(record@),
            None => read_record(line@) is None,
        },
{
    let chars = chars_of(line);
    let chars = chars.as_slice();
    let at = match parse_key(chars, 0, "{\"timestamp\":") {
        Some(at) => at,
        None => {
            return None;
        },
    };
    let (timestamp, at) = match parse_quoted(chars, at) {
        Some(read) => read,
        None => {
            return None;
        },
    };
    let at = match parse_key(chars, at, ",\"ip_address\":") {
        Some(at) => at,
        None => {
            return None;
        },
    };
    let (ip_address, at) = match parse_quoted(chars, at) {
        Some(read) => read,
        None => {
            return None;
        },
    };
    let at = match parse_key(chars, at, ",\"port\":") {
        Some(at) => at,
        None => {
            return None;
        },
    };
    let (port, at) = match parse_port(chars, at) {
        Some(read) => read,
        None => {
            return None;
        },
    };
    let at = match parse_key(chars, at, ",\"data\":") {
        Some(at) => at,
        None => {
            return None;
        },
    };
    let (data, at) = match parse_quoted(chars, at) {
        Some(read) => read,
        None => {
            return None;
        },
    };
    let at = match parse_key(chars, at, "}") {
        Some(at) => at,
        None => {
            return None;
        },
    };
    if at != chars.len() {
        return None;
    }
    Some(ConnectionLog { timestamp, ip_address, port, data })
}

} // verus!
