//! The request/response pipeline: one request's text in, one response's text
//! out.
//!
//! The path check runs before the credentials check and both errors
//! accumulate; any recorded error forces status 500 with the error-shaped
//! body. `OPTIONS` requests bypass the credentials check entirely (the CORS
//! preflight exemption). The two fatal input errors — a query fragment
//! without `=` and a metric value no unsigned 8-bit integer can hold — abort
//! the metric path with status 400 instead. Otherwise the response is 200
//! with the metric-shaped body.

use vstd::prelude::*;
use vstd::string::*;

use crate::headers::{key_index, upsert, ContentHeaders, CorsHeaders, ResponseHeaders};
use crate::metrics::{
    spec_metric_subfield, spec_metric_target, spec_metric_type, spec_metric_value, Metric,
};
use crate::request::{
    get_headers_off_req, get_http_method, get_path, get_url_from_req, spec_headers, spec_method,
    spec_url,
};
use crate::response::{
    error_body, error_entries_body, error_entry_text, join_error_entries, json_escape_seq,
    metric_body, metric_body_text, response_text, HttpResponse,
};
use crate::text::{contains_seq, lemma_contains_concat, lemma_contains_self, str_eq};
use crate::validate::{
    env_value, get_key_value_pair_from_env, has_valid_ulysses_key, header_value, is_valid_path,
    spec_valid_path,
};

verus! {

/// The non-fatal errors one request accumulates, in check order: the path
/// whitelist first, then — for non-`OPTIONS` methods only — the shared
/// secret against the `x-ulysses-key` header.
pub open spec fn spec_error_entries(req: Seq<char>, env: Seq<char>) -> Seq<(Seq<char>, Seq<char>)>
    recommends
        spec_url(req) is Some,
{
    let path = spec_url(req).unwrap().0;
    let perr: Seq<(Seq<char>, Seq<char>)> = if !spec_valid_path(path) {
        seq![("PathError"@, "[Error] Attempt to access an inaccessible path."@)]
    } else {
        Seq::empty()
    };
    let cerr: Seq<(Seq<char>, Seq<char>)> = if spec_method(req) != "OPTIONS"@ && header_value(
        spec_headers(req),
        "x-ulysses-key"@,
    ) != Some(env_value(env, "ULYSSES_HASHED_KEY"@)) {
        seq![("CredentialsError"@, "[Error]: Invalid ulysses key."@)]
    } else {
        Seq::empty()
    };
    perr + cerr
}

/// Status code and body of the response to one request: 400 with an
/// error-shaped body for the two fatal input errors, 500 with the recorded
/// errors when any validation failed, 200 with the metric-shaped body
/// otherwise.
pub open spec fn spec_status_body(req: Seq<char>, env: Seq<char>) -> (u16, Seq<char>) {
    match spec_url(req) {
        None => (
            400u16,
            error_entries_body(
                seq![("MalformedQuery"@, "[Error] Malformed query parameter fragment."@)],
            ),
        ),
        Some(pq) => {
            let errs = spec_error_entries(req, env);
            if errs.len() > 0 {
                (500u16, error_entries_body(errs))
            } else {
                match spec_metric_value(pq.1) {
                    Err(_) => (
                        400u16,
                        error_entries_body(
                            seq![("InvalidMetricValue"@, "[Error] Invalid metric value."@)],
                        ),
                    ),
                    Ok(v) => (
                        200u16,
                        metric_body_text(
                            spec_metric_type(pq.1),
                            spec_metric_subfield(pq.1),
                            spec_metric_target(pq.1),
                            v,
                        ),
                    ),
                }
            }
        },
    }
}

/// The headers of every response, in emission order: the three CORS entries,
/// then the JSON content type.
pub open spec fn base_headers() -> Seq<(Seq<char>, Seq<char>)> {
    seq![
        ("Access-Control-Allow-Origin"@, "*"@),
        ("Access-Control-Allow-Methods"@, "OPTIONS, GET, POST"@),
        ("Access-Control-Allow-Headers"@, "*"@),
        ("Content-Type"@, "application/json"@),
    ]
}

/// The full response text to one request, given the configuration text.
pub open spec fn spec_response(req: Seq<char>, env: Seq<char>) -> Seq<char> {
    let sb = spec_status_body(req, env);
    response_text(sb.0, base_headers(), sb.1)
}

fn base_response_headers() -> (headers: ResponseHeaders)
    ensures
        headers@ == base_headers(),
        headers.wf(),
{
    proof {
        reveal_strlit("Access-Control-Allow-Origin");
        reveal_strlit("Access-Control-Allow-Methods");
        reveal_strlit("Access-Control-Allow-Headers");
        reveal_strlit("Content-Type");
    }
    let mut headers = ResponseHeaders::new();
    CorsHeaders::add_cors_to_headers(&mut headers);
    ContentHeaders::add_content_type_to_headers(&mut headers);
    proof {
        reveal_with_fuel(key_index, 5);
        assert("Access-Control-Allow-Origin"@.len() == 27);
        assert("Access-Control-Allow-Methods"@.len() == 28);
        assert("Access-Control-Allow-Headers"@.len() == 28);
        assert("Content-Type"@.len() == 12);
        assert("Access-Control-Allow-Methods"@[21] == 'M');
        assert("Access-Control-Allow-Headers"@[21] == 'H');
        assert("Access-Control-Allow-Methods"@ != "Access-Control-Allow-Headers"@);
        let e = Seq::<(Seq<char>, Seq<char>)>::empty();
        let h1 = upsert(e, "Access-Control-Allow-Origin"@, "*"@);
        assert(h1 =~= seq![("Access-Control-Allow-Origin"@, "*"@)]);
        let h2 = upsert(h1, "Access-Control-Allow-Methods"@, "OPTIONS, GET, POST"@);
        assert(h2 =~= h1.push(("Access-Control-Allow-Methods"@, "OPTIONS, GET, POST"@)));
        let h3 = upsert(h2, "Access-Control-Allow-Headers"@, "*"@);
        assert(h3 =~= h2.push(("Access-Control-Allow-Headers"@, "*"@)));
        let h4 = upsert(h3, "Content-Type"@, "application/json"@);
        assert(h4 =~= h3.push(("Content-Type"@, "application/json"@)));
        assert(headers@ =~= base_headers());
    }
    headers
}

/// Answers one request: parses and validates it against the configuration
/// text and returns the full response text.
pub fn handle_request(request: &str, env_contents: &str) -> (r: String)
    ensures
        r@ == spec_response(request@, env_contents@),
{
    proof {
        reveal_strlit("OPTIONS");
        reveal_strlit("x-ulysses-key");
        reveal_strlit("ULYSSES_HASHED_KEY");
        reveal_strlit("MalformedQuery");
        reveal_strlit("[Error] Malformed query parameter fragment.");
        reveal_strlit("PathError");
        reveal_strlit("[Error] Attempt to access an inaccessible path.");
        reveal_strlit("CredentialsError");
        reveal_strlit("[Error]: Invalid ulysses key.");
        reveal_strlit("InvalidMetricValue");
        reveal_strlit("[Error] Invalid metric value.");
    }
    let mut method = String::new();
    get_http_method(request, &mut method);
    let headers = base_response_headers();

    match get_url_from_req(request) {
        Err(_) => {
            let mut errors: Vec<(String, String)> = Vec::new();
            errors.push(
                (
                    String::from_str("MalformedQuery"),
                    String::from_str("[Error] Malformed query parameter fragment."),
                ),
            );
            proof {
                assert(errors.deep_view() =~= seq![
                    ("MalformedQuery"@, "[Error] Malformed query parameter fragment."@),
                ]);
            }
            let body = error_body(&errors);
            let resp = HttpResponse { body, headers, status: 400 };
            resp.build()
        },
        Ok(req_url) => {
            let path = get_path(&req_url);
            let mut errors: Vec<(String, String)> = Vec::new();
            if !is_valid_path(&path) {
                errors.push(
                    (
                        String::from_str("PathError"),
                        String::from_str("[Error] Attempt to access an inaccessible path."),
                    ),
                );
            }
            if !str_eq(method.as_str(), "OPTIONS") {
                let req_headers = get_headers_off_req(request);
                let secret = get_key_value_pair_from_env(env_contents, "ULYSSES_HASHED_KEY");
                if !has_valid_ulysses_key(secret.as_str(), &req_headers) {
                    errors.push(
                        (
                            String::from_str("CredentialsError"),
                            String::from_str("[Error]: Invalid ulysses key."),
                        ),
                    );
                }
            }
            proof {
                assert(errors.deep_view() =~= spec_error_entries(request@, env_contents@));
            }
            if errors.len() > 0 {
                let body = error_body(&errors);
                let resp = HttpResponse { body, headers, status: 500 };
                resp.build()
            } else {
                match Metric::get_val_off_query_params(&req_url) {
                    Err(_) => {
                        let mut verrors: Vec<(String, String)> = Vec::new();
                        verrors.push(
                            (
                                String::from_str("InvalidMetricValue"),
                                String::from_str("[Error] Invalid metric value."),
                            ),
                        );
                        proof {
                            assert(verrors.deep_view() =~= seq![
                                ("InvalidMetricValue"@, "[Error] Invalid metric value."@),
                            ]);
                        }
                        let body = error_body(&verrors);
                        let resp = HttpResponse { body, headers, status: 400 };
                        resp.build()
                    },
                    Ok(v) => {
                        let metric_type = Metric::get_metric_type_off_query_param(&req_url);
                        let metric_subfield = Metric::get_metric_subfield_off_query_params(
                            &req_url,
                        );
                        let metric_target = Metric::get_target_string_off_query_params(&req_url);
                        let metric = Metric::get_metric(
                            metric_type,
                            metric_subfield,
                            metric_target,
                            v,
                        );
                        let body = metric_body(&metric);
                        let resp = HttpResponse { body, headers, status: 200 };
                        resp.build()
                    },
                }
            }
        },
    }
}

/// Any path outside the whitelist forces status 500, with a `PathError`
/// entry standing first in the error body, whose text therefore contains
/// `PathError`.
pub proof fn lemma_invalid_path_gives_500(req: Seq<char>, env: Seq<char>)
    requires
        spec_url(req) is Some,
        !spec_valid_path(spec_url(req).unwrap().0),
    ensures
        spec_status_body(req, env).0 == 500,
        spec_status_body(req, env).1 == error_entries_body(spec_error_entries(req, env)),
        spec_error_entries(req, env).len() >= 1,
        spec_error_entries(req, env)[0] == (
            "PathError"@,
            "[Error] Attempt to access an inaccessible path."@,
        ),
        contains_seq(spec_status_body(req, env).1, "PathError"@),
{
    reveal_strlit("PathError");
    reveal_with_fuel(json_escape_seq, 10);
    assert(json_escape_seq("PathError"@) =~= "PathError"@);
    lemma_entry_kind_in_body(req, env, 0, "PathError"@);
}

/// The kind of the error entry at position `at` occurs as a substring of the
/// error-shaped body built from the entries.
proof fn lemma_entry_kind_in_body(req: Seq<char>, env: Seq<char>, at: int, kind: Seq<char>)
    requires
        0 <= at < spec_error_entries(req, env).len(),
        spec_error_entries(req, env)[at].0 == kind,
        json_escape_seq(kind) == kind,
    ensures
        contains_seq(error_entries_body(spec_error_entries(req, env)), kind),
{
    let errs = spec_error_entries(req, env);
    let e = errs[at];
    let quote_and_kind = "\""@ + json_escape_seq(e.0);
    lemma_contains_self(kind);
    lemma_contains_concat("\""@, json_escape_seq(e.0), kind);
    lemma_contains_concat(quote_and_kind, "\":\""@, kind);
    lemma_contains_concat(quote_and_kind + "\":\""@, json_escape_seq(e.1), kind);
    lemma_contains_concat(quote_and_kind + "\":\""@ + json_escape_seq(e.1), "\""@, kind);
    assert(contains_seq(error_entry_text(e), kind));
    assert(errs.len() <= 2);
    let join = join_error_entries(errs);
    if errs.len() == 1 {
        assert(join == error_entry_text(errs[0]));
    } else {
        assert(errs.drop_last() =~= seq![errs[0]]);
        assert(join_error_entries(errs.drop_last()) == error_entry_text(errs[0]));
        assert(join == error_entry_text(errs[0]) + ","@ + error_entry_text(errs[1]));
        if at == 0 {
            lemma_contains_concat(error_entry_text(errs[0]), ","@, kind);
            lemma_contains_concat(
                error_entry_text(errs[0]) + ","@,
                error_entry_text(errs[1]),
                kind,
            );
        } else {
            lemma_contains_concat(
                error_entry_text(errs[0]) + ","@,
                error_entry_text(errs[1]),
                kind,
            );
        }
    }
    assert(contains_seq(join, kind));
    lemma_contains_concat("{\"errors\":{"@, join, kind);
    lemma_contains_concat("{\"errors\":{"@ + join, "}}"@, kind);
}

/// An `OPTIONS` request never records a `CredentialsError`, whatever the
/// header contents and the configuration.
pub proof fn lemma_options_never_credentials_error(req: Seq<char>, env: Seq<char>)
    requires
        spec_method(req) == "OPTIONS"@,
    ensures
        forall|i: int|
            0 <= i < spec_error_entries(req, env).len() ==> (#[trigger] spec_error_entries(
                req,
                env,
            )[i]).0 != "CredentialsError"@,
{
    lemma_error_kinds_distinct();
}

proof fn lemma_error_kinds_distinct()
    ensures
        "PathError"@ != "CredentialsError"@,
{
    reveal_strlit("PathError");
    reveal_strlit("CredentialsError");
    assert("PathError"@.len() == 9);
    assert("CredentialsError"@.len() == 16);
}

/// For non-`OPTIONS` requests: a header matched by the `x-ulysses-key` rule
/// carrying exactly the configured secret records no `CredentialsError`; any
/// mismatch — a missing header included — records exactly one, standing
/// last.
pub proof fn lemma_credentials_check(req: Seq<char>, env: Seq<char>)
    requires
        spec_url(req) is Some,
        spec_method(req) != "OPTIONS"@,
    ensures
        header_value(spec_headers(req), "x-ulysses-key"@) == Some(
            env_value(env, "ULYSSES_HASHED_KEY"@),
        ) ==> forall|i: int|
            0 <= i < spec_error_entries(req, env).len() ==> (#[trigger] spec_error_entries(
                req,
                env,
            )[i]).0 != "CredentialsError"@,
        header_value(spec_headers(req), "x-ulysses-key"@) != Some(
            env_value(env, "ULYSSES_HASHED_KEY"@),
        ) ==> spec_error_entries(req, env).last() == (
            "CredentialsError"@,
            "[Error]: Invalid ulysses key."@,
        ) && forall|i: int|
            0 <= i < spec_error_entries(req, env).len() - 1 ==> (#[trigger] spec_error_entries(
                req,
                env,
            )[i]).0 != "CredentialsError"@,
        header_value(spec_headers(req), "x-ulysses-key"@) != Some(
            env_value(env, "ULYSSES_HASHED_KEY"@),
        ) ==> spec_status_body(req, env).0 == 500 && contains_seq(
            spec_status_body(req, env).1,
            "CredentialsError"@,
        ),
{
    lemma_error_kinds_distinct();
    if header_value(spec_headers(req), "x-ulysses-key"@) != Some(
        env_value(env, "ULYSSES_HASHED_KEY"@),
    ) {
        reveal_strlit("CredentialsError");
        reveal_with_fuel(json_escape_seq, 17);
        assert(json_escape_seq("CredentialsError"@) =~= "CredentialsError"@);
        let errs = spec_error_entries(req, env);
        lemma_entry_kind_in_body(req, env, errs.len() - 1, "CredentialsError"@);
    }
}

} // verus!
