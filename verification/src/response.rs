//! Assembling response bytes: status line, headers and JSON body.
//!
//! The response reads `HTTP/1.1 <code> <reason>\r\n<headers>\r\n\r\n<body>`,
//! where consecutive headers are separated by a single `\n` (a deliberate
//! oddity of this minimal protocol, kept as documented behavior). The error
//! body is `{"errors":{"<kind>":"<message>", ...}}`; the success body is
//! `{"Metric": {...}}` with the metric's four fields. String values are
//! JSON-escaped character by character.

use vstd::prelude::*;
use vstd::string::*;

use crate::headers::ResponseHeaders;
use crate::metrics::{spec_metric_type_string, Metric, MetricName};
use crate::numbers::{dec_str, u8_to_string};

verus! {

/// Lower-case hex digit of a value below sixteen.
pub open spec fn hex_char(d: nat) -> char {
    if d == 0 {
        '0'
    } else if d == 1 {
        '1'
    } else if d == 2 {
        '2'
    } else if d == 3 {
        '3'
    } else if d == 4 {
        '4'
    } else if d == 5 {
        '5'
    } else if d == 6 {
        '6'
    } else if d == 7 {
        '7'
    } else if d == 8 {
        '8'
    } else if d == 9 {
        '9'
    } else if d == 10 {
        'a'
    } else if d == 11 {
        'b'
    } else if d == 12 {
        'c'
    } else if d == 13 {
        'd'
    } else if d == 14 {
        'e'
    } else {
        'f'
    }
}

/// JSON escape of one character: quote, backslash and the named control
/// characters get two-character escapes, other control characters the
/// `\u00..` form, everything else stands as itself.
pub open spec fn esc_char(c: char) -> Seq<char> {
    if c == '"' {
        seq!['\\', '"']
    } else if c == '\\' {
        seq!['\\', '\\']
    } else if c == '\n' {
        seq!['\\', 'n']
    } else if c == '\r' {
        seq!['\\', 'r']
    } else if c == '\t' {
        seq!['\\', 't']
    } else if (c as u32) == 8 {
        seq!['\\', 'b']
    } else if (c as u32) == 12 {
        seq!['\\', 'f']
    } else if ((c as u32) < 32) {
        seq!['\\', 'u', '0', '0', hex_char((c as u32 / 16) as nat), hex_char((c as u32 % 16) as nat)]
    } else {
        seq![c]
    }
}

/// JSON escape of a whole string.
pub open spec fn json_escape_seq(s: Seq<char>) -> Seq<char>
    decreases s.len(),
{
    if s.len() == 0 {
        Seq::empty()
    } else {
        json_escape_seq(s.drop_last()) + esc_char(s.last())
    }
}

fn hex_digit_str(d: u32) -> (r: &'static str)
    requires
        d < 16,
    ensures
        r@ == seq![hex_char(d as nat)],
{
    proof {
        reveal_strlit("0");
        reveal_strlit("1");
        reveal_strlit("2");
        reveal_strlit("3");
        reveal_strlit("4");
        reveal_strlit("5");
        reveal_strlit("6");
        reveal_strlit("7");
        reveal_strlit("8");
        reveal_strlit("9");
        reveal_strlit("a");
        reveal_strlit("b");
        reveal_strlit("c");
        reveal_strlit("d");
        reveal_strlit("e");
        reveal_strlit("f");
    }
    let r = if d == 0 {
        "0"
    } else if d == 1 {
        "1"
    } else if d == 2 {
        "2"
    } else if d == 3 {
        "3"
    } else if d == 4 {
        "4"
    } else if d == 5 {
        "5"
    } else if d == 6 {
        "6"
    } else if d == 7 {
        "7"
    } else if d == 8 {
        "8"
    } else if d == 9 {
        "9"
    } else if d == 10 {
        "a"
    } else if d == 11 {
        "b"
    } else if d == 12 {
        "c"
    } else if d == 13 {
        "d"
    } else if d == 14 {
        "e"
    } else {
        "f"
    };
    proof {
        assert(r@ =~= seq![hex_char(d as nat)]);
    }
    r
}

/// Escapes `s` for inclusion inside a JSON string literal.
#[verifier::loop_isolation(false)]
pub fn json_escape(s: &str) -> (r: String)
    ensures
        r@ == json_escape_seq(s@),
{
    proof {
        reveal_strlit("\\\"");
        reveal_strlit("\\\\");
        reveal_strlit("\\n");
        reveal_strlit("\\r");
        reveal_strlit("\\t");
        reveal_strlit("\\b");
        reveal_strlit("\\f");
        reveal_strlit("\\u00");
    }
    let n = s.unicode_len();
    let mut out = String::new();
    let mut i: usize = 0;
    while i < n
        invariant
            0 <= i <= n,
            out@ == json_escape_seq(s@.take(i as int)),
        decreases n - i,
    {
        proof {
            assert(s@.take(i + 1).drop_last() =~= s@.take(i as int));
            assert(s@.take(i + 1).last() == s@[i as int]);
        }
        let c = s.get_char(i);
        if c == '"' {
            out.append("\\\"");
            proof {
                assert(("\\\"")@ =~= esc_char(c));
            }
        } else if c == '\\' {
            out.append("\\\\");
            proof {
                assert(("\\\\")@ =~= esc_char(c));
            }
        } else if c == '\n' {
            out.append("\\n");
            proof {
                assert(("\\n")@ =~= esc_char(c));
            }
        } else if c == '\r' {
            out.append("\\r");
            proof {
                assert(("\\r")@ =~= esc_char(c));
            }
        } else if c == '\t' {
            out.append("\\t");
            proof {
                assert(("\\t")@ =~= esc_char(c));
            }
        } else if (c as u32) == 8 {
            out.append("\\b");
            proof {
                assert(("\\b")@ =~= esc_char(c));
            }
        } else if (c as u32) == 12 {
            out.append("\\f");
            proof {
                assert(("\\f")@ =~= esc_char(c));
            }
        } else if (c as u32) < 32 {
            out.append("\\u00");
            let hi = hex_digit_str((c as u32) / 16);
            out.append(hi);
            let lo = hex_digit_str((c as u32) % 16);
            out.append(lo);
            proof {
                assert(("\\u00")@ + hi@ + lo@ =~= esc_char(c));
            }
        } else {
            let piece = s.substring_char(i, i + 1);
            out.append(piece);
            proof {
                assert(piece@ =~= esc_char(c));
            }
        }
        proof {
            assert(out@ =~= json_escape_seq(s@.take(i + 1)));
        }
        i += 1;
    }
    proof {
        assert(s@.take(n as int) =~= s@);
    }
    out
}

/// Header lines written `name: value` with a single `\n` between consecutive
/// lines and none after the last.
pub open spec fn join_headers(hs: Seq<(Seq<char>, Seq<char>)>) -> Seq<char>
    decreases hs.len(),
{
    if hs.len() == 0 {
        Seq::empty()
    } else if hs.len() == 1 {
        hs[0].0 + ": "@ + hs[0].1
    } else {
        join_headers(hs.drop_last()) + "\n"@ + hs.last().0 + ": "@ + hs.last().1
    }
}

/// Appends all header lines to the response text, separated by `\n`.
#[verifier::loop_isolation(false)]
pub fn add_headers_to_response(response: &mut String, headers: &Vec<(String, String)>)
    requires
        headers@.len() >= 1,
    ensures
        final(response)@ == old(response)@ + join_headers(headers.deep_view()),
{
    let mut i: usize = 0;
    while i < headers.len()
        invariant
            0 <= i <= headers.len(),
            i == 0 ==> response@ == old(response)@,
            i >= 1 ==> response@ == old(response)@ + join_headers(
                headers.deep_view().take(i as int),
            ),
        decreases headers.len() - i,
    {
        proof {
            let dv = headers.deep_view();
            assert(dv.take(i + 1).drop_last() =~= dv.take(i as int));
            assert(dv.take(i + 1).last() == dv[i as int]);
            assert(dv[i as int] == (headers[i as int].0@, headers[i as int].1@));
        }
        if i > 0 {
            response.append("\n");
        }
        response.append(headers[i].0.as_str());
        response.append(": ");
        response.append(headers[i].1.as_str());
        proof {
            assert(response@ =~= old(response)@ + join_headers(
                headers.deep_view().take(i + 1),
            ));
        }
        i += 1;
    }
    proof {
        assert(headers.deep_view().take(headers@.len() as int) =~= headers.deep_view());
    }
}

/// One error entry written `"kind":"message"` with both parts escaped.
pub open spec fn error_entry_text(e: (Seq<char>, Seq<char>)) -> Seq<char> {
    "\""@ + json_escape_seq(e.0) + "\":\""@ + json_escape_seq(e.1) + "\""@
}

/// All error entries, comma-separated.
pub open spec fn join_error_entries(errs: Seq<(Seq<char>, Seq<char>)>) -> Seq<char>
    decreases errs.len(),
{
    if errs.len() == 0 {
        Seq::empty()
    } else if errs.len() == 1 {
        error_entry_text(errs[0])
    } else {
        join_error_entries(errs.drop_last()) + ","@ + error_entry_text(errs.last())
    }
}

/// The error-shaped JSON body: an object keyed `errors` holding one member
/// per recorded error, in insertion order.
pub open spec fn error_entries_body(errs: Seq<(Seq<char>, Seq<char>)>) -> Seq<char> {
    "{\"errors\":{"@ + join_error_entries(errs) + "}}"@
}

/// Writes the error-shaped JSON body of the recorded errors.
#[verifier::loop_isolation(false)]
pub fn error_body(errors: &Vec<(String, String)>) -> (r: String)
    ensures
        r@ == error_entries_body(errors.deep_view()),
{
    let mut out = String::from_str("{\"errors\":{");
    let mut i: usize = 0;
    while i < errors.len()
        invariant
            0 <= i <= errors.len(),
            i == 0 ==> out@ == ("{\"errors\":{")@,
            i >= 1 ==> out@ == ("{\"errors\":{")@ + join_error_entries(
                errors.deep_view().take(i as int),
            ),
        decreases errors.len() - i,
    {
        proof {
            let dv = errors.deep_view();
            assert(dv.take(i + 1).drop_last() =~= dv.take(i as int));
            assert(dv.take(i + 1).last() == dv[i as int]);
            assert(dv[i as int] == (errors[i as int].0@, errors[i as int].1@));
        }
        if i > 0 {
            out.append(",");
        }
        out.append("\"");
        let k = json_escape(errors[i].0.as_str());
        out.append(k.as_str());
        out.append("\":\"");
        let v = json_escape(errors[i].1.as_str());
        out.append(v.as_str());
        out.append("\"");
        proof {
            assert(out@ =~= ("{\"errors\":{")@ + join_error_entries(
                errors.deep_view().take(i + 1),
            ));
        }
        i += 1;
    }
    proof {
        assert(errors.deep_view().take(errors@.len() as int) =~= errors.deep_view());
    }
    out.append("}}");
    proof {
        assert(out@ =~= error_entries_body(errors.deep_view()));
    }
    out
}

/// The metric-shaped JSON body: an object keyed `Metric` holding the four
/// metric fields, the category written as its canonical wire string, the two
/// free-text fields escaped and the magnitude written in decimal.
pub open spec fn metric_body_text(
    m_type: MetricName,
    subfield: Seq<char>,
    target: Seq<char>,
    value: u8,
) -> Seq<char> {
    "{\"Metric\":{\"metric_type\":\""@ + spec_metric_type_string(m_type) + "\",\"subfield\":\""@
        + json_escape_seq(subfield) + "\",\"target\":\""@ + json_escape_seq(target)
        + "\",\"value\":"@ + dec_str(value as nat) + "}}"@
}

/// Writes the metric-shaped JSON body of a metric record.
pub fn metric_body(m: &Metric) -> (r: String)
    ensures
        r@ == metric_body_text(m.metric_type, m.subfield@, m.target@, m.value),
{
    let mut out = String::from_str("{\"Metric\":{\"metric_type\":\"");
    let ts = Metric::get_metric_type_as_string(m.metric_type);
    out.append(ts.as_str());
    out.append("\",\"subfield\":\"");
    let sub = json_escape(m.subfield.as_str());
    out.append(sub.as_str());
    out.append("\",\"target\":\"");
    let tgt = json_escape(m.target.as_str());
    out.append(tgt.as_str());
    out.append("\",\"value\":");
    let val = u8_to_string(m.value);
    out.append(val.as_str());
    out.append("}}");
    proof {
        assert(out@ =~= metric_body_text(m.metric_type, m.subfield@, m.target@, m.value));
    }
    out
}

/// The status line's code and reason phrase.
pub open spec fn status_text(status: u16) -> Seq<char> {
    if status == 200 {
        "200 OK"@
    } else if status == 400 {
        "400 Bad Request"@
    } else {
        "500 Internal Server Error"@
    }
}

/// The full response text for a status, ordered headers and body.
pub open spec fn response_text(
    status: u16,
    hs: Seq<(Seq<char>, Seq<char>)>,
    body: Seq<char>,
) -> Seq<char> {
    "HTTP/1.1 "@ + status_text(status) + "\r\n"@ + join_headers(hs) + "\r\n\r\n"@ + body
}

/// One response about to be written: body, ordered headers and status code.
pub struct HttpResponse {
    pub body: String,
    pub headers: ResponseHeaders,
    pub status: u16,
}

impl HttpResponse {
    /// Assembles the response text: status line, then the header lines, then
    /// a blank line and the body.
    pub fn build(&self) -> (r: String)
        requires
            self.status == 200 || self.status == 400 || self.status == 500,
            self.headers@.len() >= 1,
        ensures
            r@ == response_text(self.status, self.headers@, self.body@),
    {
        let mut out = String::from_str("HTTP/1.1 ");
        if self.status == 200 {
            out.append("200 OK");
        } else if self.status == 400 {
            out.append("400 Bad Request");
        } else {
            out.append("500 Internal Server Error");
        }
        out.append("\r\n");
        add_headers_to_response(&mut out, &self.headers.entries);
        out.append("\r\n\r\n");
        out.append(self.body.as_str());
        proof {
            assert(out@ =~= response_text(self.status, self.headers@, self.body@));
        }
        out
    }
}

} // verus!
