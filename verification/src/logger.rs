//! From a record to its line in the log.

use crate::error::HoneypotError;
use crate::json::{
    decimal, escape_char, escape_text, hex_digit, quoted, write_json_number, write_json_string,
};
use crate::record::{ConnectionLog, ConnectionLogView};
use vstd::prelude::*;
use vstd::string::StringExecFns;

verus! {

/// The four written values of a record between the names of their fields.
pub open spec fn frame(
    timestamp: Seq<char>,
    ip_address: Seq<char>,
    port: Seq<char>,
    data: Seq<char>,
) -> Seq<char> {
    "{\"timestamp\":"@ + timestamp + ",\"ip_address\":"@ + ip_address + ",\"port\":"@ + port
        + ",\"data\":"@ + data + "}"@
}

/// The line of a record: one object whose fields are the timestamp, the
/// address and the payload as quoted strings and the port as a number, in this
/// order and without blanks.
pub open spec fn record_line(record: ConnectionLogView) -> Seq<char> {
    frame(
        quoted(record.timestamp),
        quoted(record.ip_address),
        decimal(record.port as nat),
        quoted(record.data),
    )
}

/// What is appended to the log for a record: its line and a line feed.
pub open spec fn log_entry(record: ConnectionLogView) -> Seq<char> {
    record_line(record).push('\n')
}

/// Puts the four written values of a record into one line. The line is there
/// when all four values are; where one is missing the record cannot be put into
/// text.
pub fn assemble_line(
    timestamp: Result<String, serde_json::Error>,
    ip_address: Result<String, serde_json::Error>,
    port: Result<String, serde_json::Error>,
    data: Result<String, serde_json::Error>,
) -> (line: Result<String, HoneypotError>)
    ensures
        line is Ok <==> (timestamp is Ok && ip_address is Ok && port is Ok && data is Ok),
        line is Ok ==> line->Ok_0@ == frame(
            timestamp->Ok_0@,
            ip_address->Ok_0@,
            port->Ok_0@,
            data->Ok_0@,
        ),
        line is Err ==> line->Err_0 == HoneypotError::Serialization,
{
    match (timestamp, ip_address, port, data) {
        (Ok(timestamp), Ok(ip_address), Ok(port), Ok(data)) => {
            let mut line = String::from_str("{\"timestamp\":");
            line.append(timestamp.as_str());
            line.append(",\"ip_address\":");
            line.append(ip_address.as_str());
            line.append(",\"port\":");
            line.append(port.as_str());
            line.append(",\"data\":");
            line.append(data.as_str());
            line.append("}");
            Ok(line)
        },
        _ => Err(HoneypotError::Serialization),
    }
}

impl ConnectionLog {
    /// The line of this record. Every record has one.
    pub fn to_line(&self) -> (line: Result<String, HoneypotError>)
        ensures
            line is Ok,
            line->Ok_0@ == record_line(self@),
    {
        let timestamp = write_json_string(self.timestamp.as_str());
        let ip_address = write_json_string(self.ip_address.as_str());
        let port = write_json_number(self.port);
        let data = write_json_string(self.data.as_str());
        assemble_line(timestamp, ip_address, port, data)
    }

    /// What is to be appended to the log for this record: its line, ended by a
    /// line feed. Every record has one.
    pub fn to_entry(&self) -> (entry: Result<String, HoneypotError>)
        ensures
            entry is Ok,
            entry->Ok_0@ == log_entry(self@),
    {
        match self.to_line() {
            Ok(mut line) => {
                line.append("\n");
                proof {
                    reveal_strlit("\n");
                    assert("\n"@ =~= seq!['\n']);
                    assert(line@ =~= log_entry(self@));
                }
                Ok(line)
            },
            Err(e) => Err(e),
        }
    }
}

/// Whether `text` holds no line feed.
pub open spec fn on_one_line(text: Seq<char>) -> bool {
    forall|i: int| 0 <= i < text.len() ==> #[trigger] text[i] != '\n'
}

/// An escaped character holds no line feed, whatever the character is.
pub proof fn lemma_escape_on_one_line(c: char)
    ensures
        on_one_line(escape_char(c)),
{
    broadcast use vstd::utf8::char_is_scalar;

    let written = escape_char(c);
    assert forall|i: int| 0 <= i < written.len() implies #[trigger] written[i] != '\n' by {
        if written.len() == 6 {
            let high = c as int / 16;
            let low = c as int % 16;
            assert(hex_digit(high) as int >= 0x30);
            assert(hex_digit(low) as int >= 0x30);
        }
    }
}

/// Escaped text holds no line feed, whatever the text holds.
pub proof fn lemma_escaped_on_one_line(text: Seq<char>)
    ensures
        on_one_line(escape_text(text)),
    decreases text.len(),
{
    if text.len() > 0 {
        lemma_escaped_on_one_line(text.drop_first());
        lemma_escape_on_one_line(text[0]);
    }
}

/// A number in decimal holds no line feed.
pub proof fn lemma_decimal_on_one_line(n: nat)
    ensures
        on_one_line(decimal(n)),
    decreases n,
{
    if n >= 10 {
        lemma_decimal_on_one_line(n / 10);
    }
}

/// One record, one line: the line of a record holds no line feed, so that
/// the entry of a record in the log ends at its first line feed.
pub proof fn lemma_line_on_one_line(record: ConnectionLogView)
    ensures
        on_one_line(record_line(record)),
        log_entry(record).len() == record_line(record).len() + 1,
        log_entry(record).last() == '\n',
        log_entry(record).drop_last() == record_line(record),
{
    lemma_escaped_on_one_line(record.timestamp);
    lemma_escaped_on_one_line(record.ip_address);
    lemma_escaped_on_one_line(record.data);
    lemma_decimal_on_one_line(record.port as nat);
    reveal_strlit("{\"timestamp\":");
    reveal_strlit(",\"ip_address\":");
    reveal_strlit(",\"port\":");
    reveal_strlit(",\"data\":");
    reveal_strlit("}");
    assert(on_one_line(quoted(record.timestamp)));
    assert(on_one_line(quoted(record.ip_address)));
    assert(on_one_line(quoted(record.data)));
    assert(on_one_line("{\"timestamp\":"@));
    assert(on_one_line(",\"ip_address\":"@));
    assert(on_one_line(",\"port\":"@));
    assert(on_one_line(",\"data\":"@));
    assert(on_one_line("}"@));
    assert(log_entry(record).drop_last() =~= record_line(record));
}

} // verus!
