//! Parsing one raw request: request line, path, query parameters, headers
//! and method.
//!
//! The request text is split on `\r\n`; the first line carries
//! `<METHOD> <PATH>[?<QUERY>] <VERSION>`. The query string is an ordered list
//! of `key=value` fragments separated by `&`; duplicate keys are all kept, in
//! source order. A query fragment without `=` is a fatal input error. Header
//! lines after the first split on the first `": "`; lines without it are
//! silently dropped.

use vstd::prelude::*;
use vstd::string::*;

use crate::text::{
    contains_seq, contains_sub, find_first, lemma_find_first, lemma_join_of_split,
    lemma_split_on_len, join_on, split_on, split_once_str, split_str,
};

verus! {

/// A fatal input error: the request is structurally malformed and no metric
/// can be read from it.
#[derive(Clone, Copy, PartialEq, Eq, Structural, Debug)]
pub enum HttpError {
    /// A query fragment has no `=` separator.
    MalformedQuery,
    /// The `value` query parameter is not a decimal number an unsigned 8-bit
    /// integer can hold.
    InvalidMetricValue,
}

/// Parsed path and ordered query parameters of one request. Immutable once
/// built; duplicate query keys are all retained in source order.
pub struct RequestUrl {
    pub path: String,
    pub query_parameters: Vec<(String, String)>,
}

/// The first `\r\n`-delimited line of the request text.
pub open spec fn request_line(req: Seq<char>) -> Seq<char> {
    split_on(req, "\r\n"@)[0]
}

/// Key and value of a query fragment: the text before and after its first
/// `=`.
pub open spec fn kv_of_fragment(f: Seq<char>) -> (Seq<char>, Seq<char>)
    recommends
        contains_seq(f, "="@),
{
    let i = find_first(f, "="@);
    (f.subrange(0, i), f.skip(i + 1))
}

/// The ordered key/value pairs of a query string, or nothing when some
/// fragment lacks an `=` separator.
pub open spec fn parse_query(q: Seq<char>) -> Option<Seq<(Seq<char>, Seq<char>)>> {
    let frags = split_on(q, "&"@);
    if forall|i: int| 0 <= i < frags.len() ==> contains_seq(#[trigger] frags[i], "="@) {
        Some(Seq::new(frags.len(), |i: int| kv_of_fragment(frags[i])))
    } else {
        None
    }
}

/// Path and query parameters read from the request text. The path token is
/// the second space-separated field of the request line; a line of fewer
/// than two fields degrades to treating its only field as the path. The
/// query string is everything after the first `?` of the path token; an
/// empty or absent query string yields no parameters. Nothing is returned
/// exactly when some query fragment lacks `=`.
pub open spec fn spec_url(req: Seq<char>) -> Option<(Seq<char>, Seq<(Seq<char>, Seq<char>)>)> {
    let line = request_line(req);
    let toks = split_on(line, " "@);
    if toks.len() <= 1 {
        Some((toks[0], Seq::empty()))
    } else {
        let tok = toks[1];
        let i = find_first(tok, "?"@);
        if i < 0 {
            Some((tok, Seq::empty()))
        } else {
            let path = tok.subrange(0, i);
            let q = tok.skip(i + 1);
            if q.len() == 0 {
                Some((path, Seq::empty()))
            } else {
                match parse_query(q) {
                    Some(qp) => Some((path, qp)),
                    None => None,
                }
            }
        }
    }
}

fn first_line(s: &str) -> (r: String)
    ensures
        r@ == request_line(s@),
{
    proof {
        reveal_strlit("\r\n");
    }
    match split_once_str(s, "\r\n") {
        Some(p) => {
            proof {
                let i = find_first(s@, "\r\n"@);
                assert(split_on(s@, "\r\n"@) == seq![s@.subrange(0, i)] + split_on(
                    s@.skip(i + "\r\n"@.len() as int),
                    "\r\n"@,
                ));
                assert(request_line(s@) == s@.subrange(0, i));
            }
            p.0
        },
        None => {
            proof {
                assert(split_on(s@, "\r\n"@) == seq![s@]);
            }
            s.to_owned()
        },
    }
}

/// Builds the `RequestUrl` of a request, or reports the malformed query
/// fragment that makes one impossible.
#[verifier::loop_isolation(false)]
pub fn get_url_from_req(req: &str) -> (r: Result<RequestUrl, HttpError>)
    ensures
        match r {
            Ok(u) => spec_url(req@) == Some((u.path@, u.query_parameters.deep_view())),
            Err(e) => spec_url(req@) is None && e == HttpError::MalformedQuery,
        },
{
    proof {
        reveal_strlit(" ");
        reveal_strlit("?");
        reveal_strlit("&");
        reveal_strlit("=");
    }
    let line = first_line(req);
    let tokens = split_str(line.as_str(), " ");
    proof {
        lemma_split_on_len(line@, " "@);
        assert(tokens.deep_view()[0] == tokens[0]@);
    }
    if tokens.len() <= 1 {
        let u = RequestUrl { path: tokens[0].clone(), query_parameters: Vec::new() };
        proof {
            assert(u.query_parameters.deep_view() =~= Seq::<(Seq<char>, Seq<char>)>::empty());
        }
        return Ok(u);
    }
    proof {
        assert(tokens.deep_view()[1] == tokens[1]@);
    }
    let tok = &tokens[1];
    match split_once_str(tok.as_str(), "?") {
        None => {
            let u = RequestUrl { path: tok.clone(), query_parameters: Vec::new() };
            proof {
                assert(u.query_parameters.deep_view() =~= Seq::<(Seq<char>, Seq<char>)>::empty());
            }
            Ok(u)
        },
        Some(pq) => {
            let path = pq.0;
            let q = pq.1;
            if q.unicode_len() == 0 {
                let u = RequestUrl { path, query_parameters: Vec::new() };
                proof {
                    assert(u.query_parameters.deep_view() =~= Seq::<
                        (Seq<char>, Seq<char>),
                    >::empty());
                }
                return Ok(u);
            }
            let frags = split_str(q.as_str(), "&");
            let mut params: Vec<(String, String)> = Vec::new();
            let mut i: usize = 0;
            while i < frags.len()
                invariant
                    frags.deep_view() == split_on(q@, "&"@),
                    "="@.len() == 1,
                    0 <= i <= frags.len(),
                    params.len() == i,
                    forall|j: int|
                        0 <= j < i ==> contains_seq(#[trigger] frags.deep_view()[j], "="@),
                    forall|j: int|
                        0 <= j < i ==> #[trigger] params.deep_view()[j] == kv_of_fragment(
                            frags.deep_view()[j],
                        ),
                decreases frags.len() - i,
            {
                proof {
                    assert(frags.deep_view()[i as int] == frags[i as int]@);
                }
                let ghost old_dv = params.deep_view();
                match split_once_str(frags[i].as_str(), "=") {
                    None => {
                        proof {
                            assert(!contains_seq(frags.deep_view()[i as int], "="@));
                            assert(parse_query(q@) is None);
                        }
                        return Err(HttpError::MalformedQuery);
                    },
                    Some(kv) => {
                        proof {
                            lemma_find_first(frags.deep_view()[i as int], "="@);
                        }
                        params.push(kv);
                        proof {
                            assert(params.deep_view() =~= old_dv.push((kv.0@, kv.1@)));
                        }
                    },
                }
                i += 1;
            }
            let u = RequestUrl { path, query_parameters: params };
            proof {
                let frags_dv = frags.deep_view();
                assert(parse_query(q@) == Some(
                    Seq::new(frags_dv.len(), |j: int| kv_of_fragment(frags_dv[j])),
                ));
                assert(u.query_parameters.deep_view() =~= Seq::new(
                    frags_dv.len(),
                    |j: int| kv_of_fragment(frags_dv[j]),
                ));
            }
            Ok(u)
        },
    }
}

/// The sanitized path of a parsed request.
pub fn get_path(req_url: &RequestUrl) -> (r: String)
    ensures
        r@ == req_url.path@,
{
    req_url.path.clone()
}

/// Name and value of a header line: the text before and after its first
/// `": "`.
pub open spec fn hsplit(line: Seq<char>) -> (Seq<char>, Seq<char>)
    recommends
        contains_seq(line, ": "@),
{
    let i = find_first(line, ": "@);
    (line.subrange(0, i), line.skip(i + 2))
}

/// The header pairs read from a list of lines: every line containing `": "`
/// split on its first occurrence, in order; other lines are dropped.
pub open spec fn header_pairs(lines: Seq<Seq<char>>) -> Seq<(Seq<char>, Seq<char>)>
    decreases lines.len(),
{
    if lines.len() == 0 {
        Seq::empty()
    } else {
        header_pairs(lines.drop_last()) + if contains_seq(lines.last(), ": "@) {
            seq![hsplit(lines.last())]
        } else {
            Seq::empty()
        }
    }
}

/// The header pairs of the request text: every line after the first, split
/// on `": "`.
pub open spec fn spec_headers(req: Seq<char>) -> Seq<(Seq<char>, Seq<char>)> {
    header_pairs(split_on(req, "\r\n"@).skip(1))
}

/// Extracts all header name/value pairs of the request, in source order,
/// without case normalization.
pub fn get_headers_off_req(request: &str) -> (headers: Vec<(String, String)>)
    ensures
        headers.deep_view() == spec_headers(request@),
{
    proof {
        reveal_strlit("\r\n");
        reveal_strlit(": ");
    }
    let lines = split_str(request, "\r\n");
    proof {
        lemma_split_on_len(request@, "\r\n"@);
    }
    let mut headers: Vec<(String, String)> = Vec::new();
    let mut i: usize = 1;
    while i < lines.len()
        invariant
            lines.deep_view() == split_on(request@, "\r\n"@),
            ": "@.len() == 2,
            lines.len() >= 1,
            1 <= i <= lines.len(),
            headers.deep_view() == header_pairs(lines.deep_view().subrange(1, i as int)),
        decreases lines.len() - i,
    {
        proof {
            let dv = lines.deep_view();
            assert(dv.subrange(1, i + 1).drop_last() =~= dv.subrange(1, i as int));
            assert(dv.subrange(1, i + 1).last() == dv[i as int]);
            assert(dv[i as int] == lines[i as int]@);
        }
        let ghost old_dv = headers.deep_view();
        match split_once_str(lines[i].as_str(), ": ") {
            Some(p) => {
                proof {
                    lemma_find_first(lines.deep_view()[i as int], ": "@);
                }
                headers.push(p);
                proof {
                    assert(headers.deep_view() =~= old_dv.push((p.0@, p.1@)));
                    assert(old_dv.push((p.0@, p.1@)) =~= old_dv + seq![(p.0@, p.1@)]);
                }
            },
            None => {
                proof {
                    assert(headers.deep_view() =~= old_dv + Seq::<(Seq<char>, Seq<char>)>::empty());
                }
            },
        }
        i += 1;
    }
    proof {
        assert(lines.deep_view().subrange(1, lines.len() as int) =~= lines.deep_view().skip(1));
    }
    headers
}

/// The verb of the request line: the first of `GET`, `POST`, `OPTIONS` that
/// the line contains, in that priority order, else `OTHER`.
pub open spec fn spec_method(req: Seq<char>) -> Seq<char> {
    let line = request_line(req);
    if contains_seq(line, "GET"@) {
        "GET"@
    } else if contains_seq(line, "POST"@) {
        "POST"@
    } else if contains_seq(line, "OPTIONS"@) {
        "OPTIONS"@
    } else {
        "OTHER"@
    }
}

/// Classifies the request's verb from the request line alone and stores it
/// in `method`.
pub fn get_http_method(request: &str, method: &mut String)
    ensures
        final(method)@ == spec_method(request@),
{
    let line = first_line(request);
    if contains_sub(line.as_str(), "GET") {
        *method = String::from_str("GET");
    } else if contains_sub(line.as_str(), "POST") {
        *method = String::from_str("POST");
    } else if contains_sub(line.as_str(), "OPTIONS") {
        *method = String::from_str("OPTIONS");
    } else {
        *method = String::from_str("OTHER");
    }
}

/// The query string a parameter list came from: pairs written `key=value`
/// and glued with `&`.
pub open spec fn join_query(qp: Seq<(Seq<char>, Seq<char>)>) -> Seq<char> {
    join_on(Seq::new(qp.len(), |i: int| qp[i].0 + "="@ + qp[i].1), "&"@)
}

/// Round trip of the query parser: whenever a query string parses, joining
/// the parsed pairs in order with `=` and `&` reproduces it exactly. Order
/// and the exact key/value text are preserved.
pub proof fn lemma_query_round_trip(q: Seq<char>)
    ensures
        parse_query(q) matches Some(qp) ==> join_query(qp) == q,
{
    reveal_strlit("=");
    reveal_strlit("&");
    if parse_query(q) is Some {
        let frags = split_on(q, "&"@);
        let qp = parse_query(q).unwrap();
        assert forall|i: int| 0 <= i < frags.len() implies Seq::new(
            qp.len(),
            |j: int| qp[j].0 + "="@ + qp[j].1,
        )[i] == frags[i] by {
            assert(contains_seq(frags[i], "="@));
            lemma_find_first(frags[i], "="@);
            let j = find_first(frags[i], "="@);
            assert(frags[i].subrange(j, j + 1) == "="@);
            assert(qp[i] == kv_of_fragment(frags[i]));
            assert(qp[i].0 + "="@ + qp[i].1 =~= frags[i]);
        }
        assert(Seq::new(qp.len(), |j: int| qp[j].0 + "="@ + qp[j].1) =~= frags);
        lemma_join_of_split(q, "&"@);
    }
}

/// Parsing is a function of the request text alone: two parses of the same
/// text are structurally identical, both for the URL and for the header
/// pairs.
pub proof fn lemma_parse_idempotent(
    req: Seq<char>,
    u1: (Seq<char>, Seq<(Seq<char>, Seq<char>)>),
    u2: (Seq<char>, Seq<(Seq<char>, Seq<char>)>),
    h1: Seq<(Seq<char>, Seq<char>)>,
    h2: Seq<(Seq<char>, Seq<char>)>,
)
    requires
        spec_url(req) == Some(u1),
        spec_url(req) == Some(u2),
        h1 == spec_headers(req),
        h2 == spec_headers(req),
    ensures
        u1 == u2,
        h1 == h2,
{
}

} // verus!
