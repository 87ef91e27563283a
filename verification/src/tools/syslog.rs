//! The syslog receiver: what a received datagram means (its severity and
//! message), and the CSV export of stored events. Receiving and storing are
//! the caller's I/O.

use vstd::prelude::*;

use crate::db::SyslogEvent;
use crate::text::{
    all_digits, chars_of, digits_value, is_digit, lemma_find_char, decimal, push_decimal, find_char, find_char_index, parse_u8, parse_u8_text, push_chars, push_signed,
    push_str, replace_char, replace_char_chars, signed_decimal, slice_chars, string_of, trim,
    trim_chars,
};

verus! {

/// The name of a syslog severity (the low three bits of the priority).
pub open spec fn severity_name(sev: nat) -> Seq<char> {
    if sev == 0 {
        "EMERG"@
    } else if sev == 1 {
        "ALERT"@
    } else if sev == 2 {
        "CRIT"@
    } else if sev == 3 {
        "ERR"@
    } else if sev == 4 {
        "WARNING"@
    } else if sev == 5 {
        "NOTICE"@
    } else if sev == 6 {
        "INFO"@
    } else if sev == 7 {
        "DEBUG"@
    } else {
        "UNKNOWN"@
    }
}

/// What a received message means: its severity and its text. A message
/// that starts with `<` and has a `>` carries a priority between them; its
/// severity is the priority modulo 8 (INFO when the priority is not a
/// number from 0 to 255), and its text is what follows the `>`, trimmed.
/// Any other message is INFO and its text is the whole message.
pub open spec fn syslog_meaning(raw: Seq<char>) -> (Seq<char>, Seq<char>) {
    if raw.len() > 0 && raw[0] == '<' && find_char(raw, '>') is Some {
        let e = find_char(raw, '>')->0 as int;
        let sev = match parse_u8_text(raw.subrange(1, e)) {
            Some(v) => severity_name((v % 8) as nat),
            None => "INFO"@,
        };
        (sev, trim(raw.skip(e + 1)))
    } else {
        ("INFO"@, raw)
    }
}

/// A message `<P>rest` whose priority `P` is written in decimal digits
/// with a value up to 255 has the severity named by `P mod 8` in the order
/// EMERG, ALERT, CRIT, ERR, WARNING, NOTICE, INFO, DEBUG, and its text is
/// `rest` trimmed.
pub proof fn lemma_priority_severity(digits: Seq<char>, rest: Seq<char>)
    requires
        digits.len() > 0,
        all_digits(digits),
        digits_value(digits) <= 255,
    ensures
        ({
            let names = seq![
                "EMERG"@,
                "ALERT"@,
                "CRIT"@,
                "ERR"@,
                "WARNING"@,
                "NOTICE"@,
                "INFO"@,
                "DEBUG"@,
            ];
            syslog_meaning(seq!['<'] + digits + seq!['>'] + rest) == (
                names[(digits_value(digits) % 8) as int],
                trim(rest),
            )
        }),
{
    let raw = seq!['<'] + digits + seq!['>'] + rest;
    let e: int = (digits.len() + 1) as int;
    assert(raw.subrange(1, e) =~= digits);
    assert(raw[e] == '>');
    lemma_find_after_digits(raw, digits);
    assert(raw.skip(e + 1) =~= rest);
    assert(is_digit(digits[0]));
    assert(parse_u8_text(digits) == Some(digits_value(digits) as u8));
    let v = digits_value(digits) as u8;
    assert((v % 8) as nat == digits_value(digits) % 8);
}

/// A message that does not start with `<` carries no priority: it is
/// INFO, and its text is the whole message.
pub proof fn lemma_message_without_priority(raw: Seq<char>)
    requires
        raw.len() == 0 || raw[0] != '<',
    ensures
        syslog_meaning(raw) == ("INFO"@, raw),
{
}

proof fn lemma_find_after_digits(raw: Seq<char>, digits: Seq<char>)
    requires
        all_digits(digits),
        raw.len() > digits.len() + 1,
        raw[0] == '<',
        raw.subrange(1, (digits.len() + 1) as int) == digits,
        raw[(digits.len() + 1) as int] == '>',
    ensures
        find_char(raw, '>') == Some(((digits.len() + 1) as int) as nat),
{
    assert forall|k: int| 0 <= k < digits.len() + 1 implies raw[k] != '>' by {
        if k > 0 {
            assert(raw[k] == raw.subrange(1, (digits.len() + 1) as int)[k - 1]);
            assert(is_digit(digits[k - 1]));
        }
    }
    lemma_find_char(raw, '>', (digits.len() + 1) as int);
}

/// The name of severity `sev`.
fn severity_text(sev: u8) -> (r: String)
    ensures
        r@ == severity_name(sev as nat),
{
    let s = if sev == 0 {
        "EMERG"
    } else if sev == 1 {
        "ALERT"
    } else if sev == 2 {
        "CRIT"
    } else if sev == 3 {
        "ERR"
    } else if sev == 4 {
        "WARNING"
    } else if sev == 5 {
        "NOTICE"
    } else if sev == 6 {
        "INFO"
    } else if sev == 7 {
        "DEBUG"
    } else {
        "UNKNOWN"
    };
    s.to_owned()
}

/// The severity and text of a received message.
pub fn parse_syslog(raw_msg: &str) -> (r: (String, String))
    ensures
        (r.0@, r.1@) == syslog_meaning(raw_msg@),
{
    let cs = chars_of(raw_msg);
    if cs.len() > 0 && cs[0] == '<' {
        if let Some(end_idx) = find_char_index(cs.as_slice(), '>') {
            let pri = slice_chars(cs.as_slice(), 1, end_idx);
            let severity = match parse_u8(pri.as_slice()) {
                Some(v) => severity_text(v & 7),
                None => "INFO".to_owned(),
            };
            proof {
                assert(end_idx >= 1);
            }
            let rest = slice_chars(cs.as_slice(), end_idx + 1, cs.len());
            let body = trim_chars(rest.as_slice());
            proof {
                assert(rest@ =~= raw_msg@.skip(end_idx + 1));
                match parse_u8_text(raw_msg@.subrange(1, end_idx as int)) {
                    Some(v) => {
                        assert(v & 7 == v % 8) by (bit_vector);
                    },
                    None => {},
                }
            }
            return (severity, string_of(body.as_slice()));
        }
    }
    ("INFO".to_owned(), raw_msg.to_owned())
}

/// A CSV cell: always quoted, quotes doubled.
pub open spec fn quoted_cell(value: Seq<char>) -> Seq<char> {
    "\""@ + replace_char(value, '"', "\"\""@) + "\""@
}

/// Quotes a CSV cell.
pub fn csv_cell(value: &str) -> (r: String)
    ensures
        r@ == quoted_cell(value@),
{
    let cs = chars_of(value);
    let inner = replace_char_chars(cs.as_slice(), '"', "\"\"");
    let mut out = String::new();
    push_str(&mut out, "\"");
    push_chars(&mut out, inner.as_slice());
    push_str(&mut out, "\"");
    proof {
        assert(out@ =~= quoted_cell(value@));
    }
    out
}

/// The CSV record of one event.
pub open spec fn event_record(e: SyslogEvent) -> Seq<char> {
    signed_decimal(e.id as int) + ","@ + quoted_cell(e.received_at@) + ","@ + quoted_cell(
        e.source_ip@,
    ) + ","@ + quoted_cell(e.severity@) + ","@ + quoted_cell(e.message@) + ","@ + quoted_cell(
        e.raw_message@,
    ) + "\r\n"@
}

/// The CSV records of a list of events, in order.
pub open spec fn event_records(es: Seq<SyslogEvent>) -> Seq<char>
    decreases es.len(),
{
    if es.len() == 0 {
        Seq::empty()
    } else {
        event_records(es.drop_last()) + event_record(es.last())
    }
}

/// The CSV export of events: a header line, then one record per event,
/// each line ending in CR LF.
pub open spec fn events_csv(es: Seq<SyslogEvent>) -> Seq<char> {
    "id,received_at,source_ip,severity,message,raw_message\r\n"@ + event_records(es)
}

/// Appends a comma and a quoted cell.
fn push_cell(out: &mut String, value: &str)
    ensures
        final(out)@ == old(out)@ + ","@ + quoted_cell(value@),
{
    push_str(out, ",");
    let c = csv_cell(value);
    push_str(out, c.as_str());
}

/// The CSV export of `events`.
pub fn events_to_csv(events: &[SyslogEvent]) -> (r: String)
    ensures
        r@ == events_csv(events@),
{
    let mut csv = "id,received_at,source_ip,severity,message,raw_message\r\n".to_owned();
    let mut i: usize = 0;
    proof {
        assert(events@.take(0) =~= Seq::<SyslogEvent>::empty());
    }
    while i < events.len()
        invariant
            i <= events.len(),
            csv@ == events_csv(events@.take(i as int)),
        decreases events.len() - i,
    {
        let e = &events[i];
        let ghost before = csv@;
        push_signed(&mut csv, e.id);
        push_cell(&mut csv, e.received_at.as_str());
        push_cell(&mut csv, e.source_ip.as_str());
        push_cell(&mut csv, e.severity.as_str());
        push_cell(&mut csv, e.message.as_str());
        push_cell(&mut csv, e.raw_message.as_str());
        push_str(&mut csv, "\r\n");
        proof {
            assert(events@.take(i + 1).drop_last() =~= events@.take(i as int));
            assert(csv@ =~= before + event_record(events@[i as int]));
        }
        i = i + 1;
    }
    proof {
        assert(events@.take(events.len() as int) =~= events@);
    }
    csv
}

/// The status line once the listener was stopped.
pub const STOPPED_MESSAGE: &'static str = "Stopped";

/// The status line when the socket cannot be made non-blocking.
pub const NONBLOCKING_FAILED_MESSAGE: &'static str = "Non-blocking mode failed";

/// The milliseconds the listener waits when no datagram is there.
pub const IDLE_PAUSE_MS: u64 = 100;

/// The bytes of the largest datagram the listener reads.
pub const DATAGRAM_BUFFER_LEN: usize = 2048;

/// The address the listener binds for `port`: every interface.
pub fn bind_address(port: u16) -> (r: String)
    ensures
        r@ == "0.0.0.0:"@ + decimal(port as nat),
{
    let mut r = "0.0.0.0:".to_owned();
    push_decimal(&mut r, port as u64);
    r
}

/// The status line while listening on `port`.
pub fn listening_message(port: u16) -> (r: String)
    ensures
        r@ == "Listening on port "@ + decimal(port as nat) + "..."@,
{
    let mut r = "Listening on port ".to_owned();
    push_decimal(&mut r, port as u64);
    push_str(&mut r, "...");
    r
}

/// The status line when the port cannot be bound, with the error.
pub fn port_error_message(e: &str) -> (r: String)
    ensures
        r@ == "Port error (administrator rights may be required): "@ + e@,
{
    let mut r = "Port error (administrator rights may be required): ".to_owned();
    push_str(&mut r, e);
    r
}

} // verus!
