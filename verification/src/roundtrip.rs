//! What is written can be read: the reader gives back the record of every
//! line of the logger.

use crate::json::{decimal, decimal_digit, escape_char, escape_text, hex_digit, quoted};
use crate::logger::{frame, record_line};
use crate::reader::{
    digits_end, hex_value, is_digit, lemma_digits_run, number_of, prepend, read_char, read_code,
    read_port, read_quoted, read_record, read_text, stands_at,
};
use crate::record::ConnectionLogView;
use vstd::prelude::*;

verus! {

broadcast use vstd::utf8::char_is_scalar;

/// Where two pieces stand one behind the other, each of them stands at its
/// place.
pub proof fn lemma_stands_split(text: Seq<char>, at: int, first: Seq<char>, second: Seq<char>)
    requires
        stands_at(text, at, first + second),
    ensures
        stands_at(text, at, first),
        stands_at(text, at + first.len(), second),
{
    let both = text.subrange(at, at + first.len() + second.len());
    assert(both == first + second);
    assert forall|i: int| 0 <= i < first.len() implies text[at + i] == first[i] by {
        assert(both[i] == (first + second)[i]);
    }
    assert forall|i: int| 0 <= i < second.len() implies text[at + first.len() + i]
        == second[i] by {
        assert(both[first.len() + i] == (first + second)[first.len() + i]);
    }
    assert(text.subrange(at, at + first.len()) =~= first);
    assert(text.subrange(at + first.len(), at + first.len() + second.len()) =~= second);
}

/// The character at place `i` of a piece that stands at `at` stands at
/// `at + i`.
pub proof fn lemma_stands_index(text: Seq<char>, at: int, piece: Seq<char>, i: int)
    requires
        stands_at(text, at, piece),
        0 <= i < piece.len(),
    ensures
        text[at + i] == piece[i],
{
    assert(text.subrange(at, at + piece.len())[i] == piece[i]);
}

/// An escaped character is read back as the character, over its whole width,
/// and does not begin with a quote.
pub proof fn lemma_char_reads_back(text: Seq<char>, at: int, c: char)
    requires
        stands_at(text, at, escape_char(c)),
    ensures
        read_char(text, at) == Some((c, escape_char(c).len() as int)),
        text[at] != '"',
{
    let written = escape_char(c);
    assert forall|i: int| 0 <= i < written.len() implies text[at + i] == written[i] by {
        lemma_stands_index(text, at, written, i);
    }
    assert(text[at] == written[0]);
    if c == '"' || c == '\\' || c == '\u{8}' || c == '\t' || c == '\n' || c == '\u{c}' || c
        == '\r' {
        assert(text[at + 1] == written[1]);
    } else if (c as int) < 0x20 {
        let high = c as int / 16;
        let low = c as int % 16;
        assert(text[at + 1] == written[1]);
        assert(text[at + 2] == written[2]);
        assert(text[at + 3] == written[3]);
        assert(text[at + 4] == written[4]);
        assert(text[at + 5] == written[5]);
        assert(hex_value('0') == Some(0int));
        assert(hex_value(hex_digit(high)) == Some(high));
        assert(hex_value(hex_digit(low)) == Some(low));
        assert(0 * 4096 + 0 * 256 + high * 16 + low == c as int);
        assert((c as int) as char == c);
        assert(read_code(text, at + 2) == Some(c));
    }
}

/// Escaped text that stands before a quote is read back as the text, up to
/// behind that quote.
pub proof fn lemma_text_reads_back(text: Seq<char>, at: int, plain: Seq<char>)
    requires
        stands_at(text, at, escape_text(plain)),
        at + escape_text(plain).len() < text.len(),
        text[at + escape_text(plain).len()] == '"',
    ensures
        read_text(text, at) == Some((plain, at + escape_text(plain).len() + 1)),
    decreases plain.len(),
{
    if plain.len() > 0 {
        let head = escape_char(plain[0]);
        let tail = plain.drop_first();
        lemma_stands_split(text, at, head, escape_text(tail));
        lemma_char_reads_back(text, at, plain[0]);
        lemma_text_reads_back(text, at + head.len(), tail);
        assert(seq![plain[0]] + tail =~= plain);
        assert(read_text(text, at) == prepend(seq![plain[0]], read_text(text, at + head.len())));
    }
}

/// A quoted string is read back as the text between its quotes.
pub proof fn lemma_quoted_reads_back(text: Seq<char>, at: int, plain: Seq<char>)
    requires
        stands_at(text, at, quoted(plain)),
    ensures
        read_quoted(text, at) == Some((plain, at + quoted(plain).len())),
{
    let open = seq!['"'];
    let inner = escape_text(plain);
    lemma_stands_split(text, at, open + inner, open);
    lemma_stands_split(text, at, open, inner);
    lemma_stands_index(text, at, open, 0);
    lemma_stands_index(text, at + 1 + inner.len(), open, 0);
    lemma_text_reads_back(text, at + 1, plain);
}

/// A number in decimal is made of digits that write the number, with a zero
/// in front only where the number is zero.
pub proof fn lemma_decimal_digits(n: nat)
    ensures
        decimal(n).len() >= 1,
        forall|i: int| 0 <= i < decimal(n).len() ==> is_digit(#[trigger] decimal(n)[i]),
        number_of(decimal(n)) == n,
        decimal(n)[0] == '0' ==> n == 0,
        n == 0 ==> decimal(n).len() == 1,
    decreases n,
{
    if n < 10 {
        let written = decimal(n);
        assert(written.drop_last() =~= Seq::<char>::empty());
        assert(number_of(written.drop_last()) == 0);
        assert(written.last() == decimal_digit(n as int));
    } else {
        lemma_decimal_digits(n / 10);
        let front = decimal(n / 10);
        let written = decimal(n);
        assert(written.drop_last() =~= front);
        assert(written.last() == decimal_digit((n % 10) as int));
        assert(written[0] == front[0]);
    }
}

/// A port in decimal that is followed by no digit is read back as the port.
pub proof fn lemma_port_reads_back(text: Seq<char>, at: int, port: u16)
    requires
        stands_at(text, at, decimal(port as nat)),
        at + decimal(port as nat).len() == text.len() || !is_digit(
            text[at + decimal(port as nat).len()],
        ),
    ensures
        read_port(text, at) == Some((port, at + decimal(port as nat).len())),
{
    let written = decimal(port as nat);
    let end = at + written.len();
    lemma_decimal_digits(port as nat);
    assert forall|i: int| at <= i < end implies is_digit(#[trigger] text[i]) by {
        lemma_stands_index(text, at, written, i - at);
    }
    lemma_digits_run(text, at, end);
    assert(digits_end(text, end) == end);
    lemma_stands_index(text, at, written, 0);
}

/// In a line that is made of nine pieces, each piece stands behind the ones
/// before it.
pub proof fn lemma_frame_places(
    timestamp: Seq<char>,
    ip_address: Seq<char>,
    port: Seq<char>,
    data: Seq<char>,
)
    ensures
        ({
            let line = frame(timestamp, ip_address, port, data);
            let at_timestamp = "{\"timestamp\":"@.len() as int;
            let at_key_ip_address = at_timestamp + timestamp.len();
            let at_ip_address = at_key_ip_address + ",\"ip_address\":"@.len();
            let at_key_port = at_ip_address + ip_address.len();
            let at_port = at_key_port + ",\"port\":"@.len();
            let at_key_data = at_port + port.len();
            let at_data = at_key_data + ",\"data\":"@.len();
            let at_close = at_data + data.len();
            &&& stands_at(line, 0, "{\"timestamp\":"@)
            &&& stands_at(line, at_timestamp, timestamp)
            &&& stands_at(line, at_key_ip_address, ",\"ip_address\":"@)
            &&& stands_at(line, at_ip_address, ip_address)
            &&& stands_at(line, at_key_port, ",\"port\":"@)
            &&& stands_at(line, at_port, port)
            &&& stands_at(line, at_key_data, ",\"data\":"@)
            &&& stands_at(line, at_data, data)
            &&& stands_at(line, at_close, "}"@)
            &&& at_close + "}"@.len() == line.len()
        }),
{
    let key_timestamp = "{\"timestamp\":"@;
    let key_ip_address = ",\"ip_address\":"@;
    let key_port = ",\"port\":"@;
    let key_data = ",\"data\":"@;
    let close = "}"@;
    let line = frame(timestamp, ip_address, port, data);

    let rest_data = data + close;
    let rest_key_data = key_data + rest_data;
    let rest_port = port + rest_key_data;
    let rest_key_port = key_port + rest_port;
    let rest_ip_address = ip_address + rest_key_port;
    let rest_key_ip_address = key_ip_address + rest_ip_address;
    let rest_timestamp = timestamp + rest_key_ip_address;
    assert(line =~= key_timestamp + rest_timestamp);
    assert(line.subrange(0, line.len() as int) =~= line);

    let at_timestamp = key_timestamp.len() as int;
    let at_key_ip_address = at_timestamp + timestamp.len();
    let at_ip_address = at_key_ip_address + key_ip_address.len();
    let at_key_port = at_ip_address + ip_address.len();
    let at_port = at_key_port + key_port.len();
    let at_key_data = at_port + port.len();
    let at_data = at_key_data + key_data.len();

    lemma_stands_split(line, 0, key_timestamp, rest_timestamp);
    lemma_stands_split(line, at_timestamp, timestamp, rest_key_ip_address);
    lemma_stands_split(line, at_key_ip_address, key_ip_address, rest_ip_address);
    lemma_stands_split(line, at_ip_address, ip_address, rest_key_port);
    lemma_stands_split(line, at_key_port, key_port, rest_port);
    lemma_stands_split(line, at_port, port, rest_key_data);
    lemma_stands_split(line, at_key_data, key_data, rest_data);
    lemma_stands_split(line, at_data, data, close);
}

/// Round trip: the line of a record is read back as that record, with each of
/// its four fields as it was written.
pub proof fn lemma_line_reads_back(record: ConnectionLogView)
    ensures
        read_record(record_line(record)) == Some(record),
{
    let key_timestamp = "{\"timestamp\":"@;
    let key_ip_address = ",\"ip_address\":"@;
    let key_port = ",\"port\":"@;
    let key_data = ",\"data\":"@;
    let timestamp = quoted(record.timestamp);
    let ip_address = quoted(record.ip_address);
    let port = decimal(record.port as nat);
    let data = quoted(record.data);
    let line = record_line(record);

    let at_timestamp = key_timestamp.len() as int;
    let at_key_ip_address = at_timestamp + timestamp.len();
    let at_ip_address = at_key_ip_address + key_ip_address.len();
    let at_key_port = at_ip_address + ip_address.len();
    let at_port = at_key_port + key_port.len();
    let at_key_data = at_port + port.len();
    let at_data = at_key_data + key_data.len();
    let at_close = at_data + data.len();

    lemma_frame_places(timestamp, ip_address, port, data);
    assert(read_quoted(line, at_timestamp) == Some((record.timestamp, at_key_ip_address))) by {
        lemma_quoted_reads_back(line, at_timestamp, record.timestamp);
    }
    assert(read_quoted(line, at_ip_address) == Some((record.ip_address, at_key_port))) by {
        lemma_quoted_reads_back(line, at_ip_address, record.ip_address);
    }
    assert(read_port(line, at_port) == Some((record.port, at_key_data))) by {
        reveal_strlit(",\"data\":");
        lemma_stands_index(line, at_key_data, key_data, 0);
        lemma_port_reads_back(line, at_port, record.port);
    }
    assert(read_quoted(line, at_data) == Some((record.data, at_close))) by {
        lemma_quoted_reads_back(line, at_data, record.data);
    }
}

} // verus!
