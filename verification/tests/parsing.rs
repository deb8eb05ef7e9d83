use couch_gag_metrics::metrics::{Metric, MetricName};
use couch_gag_metrics::request::{
    get_headers_off_req, get_http_method, get_path, get_url_from_req, HttpError,
};

fn parse_ok(req: &str) -> couch_gag_metrics::request::RequestUrl {
    get_url_from_req(req).expect("request should parse")
}

#[test]
fn query_round_trip_preserves_order_and_text() {
    let url = parse_ok("GET /metric?k1=v1&k2=v2&k1=v3 HTTP/1.1\r\n\r\n");
    assert_eq!(url.path, "/metric");
    let pairs: Vec<(String, String)> = url.query_parameters.clone();
    assert_eq!(
        pairs,
        vec![
            ("k1".to_string(), "v1".to_string()),
            ("k2".to_string(), "v2".to_string()),
            ("k1".to_string(), "v3".to_string()),
        ]
    );
    let joined: Vec<String> = pairs.iter().map(|p| format!("{}={}", p.0, p.1)).collect();
    assert_eq!(joined.join("&"), "k1=v1&k2=v2&k1=v3");
}

#[test]
fn parsing_twice_is_structurally_identical() {
    let req = "GET /metric?metric=share&value=3 HTTP/1.1\r\nHost: x\r\nx-ulysses-key: s\r\n\r\n";
    let a = parse_ok(req);
    let b = parse_ok(req);
    assert_eq!(a.path, b.path);
    assert_eq!(a.query_parameters, b.query_parameters);
    let h1 = get_headers_off_req(req);
    let h2 = get_headers_off_req(req);
    assert_eq!(h1, h2);
}

#[test]
fn fragment_without_equals_is_fatal() {
    let r = get_url_from_req("GET /metric?novalue HTTP/1.1\r\n\r\n");
    assert_eq!(r.err(), Some(HttpError::MalformedQuery));
}

#[test]
fn fragment_without_equals_among_good_ones_is_fatal() {
    let r = get_url_from_req("GET /metric?a=1&b&c=3 HTTP/1.1\r\n\r\n");
    assert_eq!(r.err(), Some(HttpError::MalformedQuery));
}

#[test]
fn empty_query_string_yields_no_parameters() {
    let url = parse_ok("GET /metric? HTTP/1.1\r\n\r\n");
    assert_eq!(url.path, "/metric");
    assert!(url.query_parameters.is_empty());
}

#[test]
fn path_without_query_yields_no_parameters() {
    let url = parse_ok("GET /ping HTTP/1.1\r\n\r\n");
    assert_eq!(url.path, "/ping");
    assert!(url.query_parameters.is_empty());
}

#[test]
fn single_token_request_line_degrades_to_path() {
    let url = parse_ok("lone-token\r\n\r\n");
    assert_eq!(url.path, "lone-token");
    assert!(url.query_parameters.is_empty());
    assert_eq!(get_path(&url), "lone-token");
}

#[test]
fn value_with_equals_sign_keeps_everything_after_first() {
    let url = parse_ok("GET /metric?a=b=c HTTP/1.1\r\n\r\n");
    assert_eq!(
        url.query_parameters,
        vec![("a".to_string(), "b=c".to_string())]
    );
}

#[test]
fn headers_split_on_first_colon_space() {
    let req = "GET / HTTP/1.1\r\nHost: example: 443\r\nnocolonhere\r\nx-ulysses-key: abc\r\n\r\n";
    let headers = get_headers_off_req(req);
    assert_eq!(
        headers,
        vec![
            ("Host".to_string(), "example: 443".to_string()),
            ("x-ulysses-key".to_string(), "abc".to_string()),
        ]
    );
}

#[test]
fn request_line_is_not_a_header() {
    let req = "GET /a: b HTTP/1.1\r\nA: b\r\n\r\n";
    let headers = get_headers_off_req(req);
    assert_eq!(headers, vec![("A".to_string(), "b".to_string())]);
}

#[test]
fn method_classification_by_containment_in_priority_order() {
    let mut m = String::new();
    get_http_method("GET / HTTP/1.1\r\n", &mut m);
    assert_eq!(m, "GET");
    get_http_method("POST /metric HTTP/1.1\r\n", &mut m);
    assert_eq!(m, "POST");
    get_http_method("OPTIONS /metric HTTP/1.1\r\n", &mut m);
    assert_eq!(m, "OPTIONS");
    get_http_method("DELETE /x HTTP/1.1\r\n", &mut m);
    assert_eq!(m, "OTHER");
    // Containment, not token equality: GET inside the path wins over DELETE.
    get_http_method("DELETE /GETaway HTTP/1.1\r\n", &mut m);
    assert_eq!(m, "GET");
    // Only the request line is inspected, not later lines.
    get_http_method("DELETE /x HTTP/1.1\r\nX: GET\r\n", &mut m);
    assert_eq!(m, "OTHER");
}

#[test]
fn metric_value_reads_last_matching_parameter() {
    let url = parse_ok("GET /metric?value=5&value=9 HTTP/1.1\r\n\r\n");
    assert_eq!(Metric::get_val_off_query_params(&url), Ok(9));
    let url = parse_ok("GET /metric?value=abc&value=3 HTTP/1.1\r\n\r\n");
    assert_eq!(Metric::get_val_off_query_params(&url), Ok(3));
}

#[test]
fn metric_value_decoding() {
    let url = parse_ok("GET /metric?value=7 HTTP/1.1\r\n\r\n");
    assert_eq!(Metric::get_val_off_query_params(&url), Ok(7));
    let url = parse_ok("GET /metric?value=007 HTTP/1.1\r\n\r\n");
    assert_eq!(Metric::get_val_off_query_params(&url), Ok(7));
    let url = parse_ok("GET /metric?value=255 HTTP/1.1\r\n\r\n");
    assert_eq!(Metric::get_val_off_query_params(&url), Ok(255));
    let url = parse_ok("GET /metric? HTTP/1.1\r\n\r\n");
    assert_eq!(Metric::get_val_off_query_params(&url), Ok(0));
}

#[test]
fn metric_value_out_of_range_or_non_numeric_fails() {
    let url = parse_ok("GET /metric?value=999 HTTP/1.1\r\n\r\n");
    assert_eq!(
        Metric::get_val_off_query_params(&url),
        Err(HttpError::InvalidMetricValue)
    );
    let url = parse_ok("GET /metric?value=256 HTTP/1.1\r\n\r\n");
    assert_eq!(
        Metric::get_val_off_query_params(&url),
        Err(HttpError::InvalidMetricValue)
    );
    let url = parse_ok("GET /metric?value=abc HTTP/1.1\r\n\r\n");
    assert_eq!(
        Metric::get_val_off_query_params(&url),
        Err(HttpError::InvalidMetricValue)
    );
    let url = parse_ok("GET /metric?value= HTTP/1.1\r\n\r\n");
    assert_eq!(
        Metric::get_val_off_query_params(&url),
        Err(HttpError::InvalidMetricValue)
    );
    // Decimal digits only: a sign is not accepted.
    let url = parse_ok("GET /metric?value=+7 HTTP/1.1\r\n\r\n");
    assert_eq!(
        Metric::get_val_off_query_params(&url),
        Err(HttpError::InvalidMetricValue)
    );
}

#[test]
fn metric_type_mapping_is_exact_with_error_fallback() {
    let cases = [
        ("story-view", MetricName::StoryView),
        ("page-view", MetricName::PageView),
        ("share", MetricName::Share),
        ("button-click", MetricName::ButtonClick),
        ("base", MetricName::Base),
        ("unknown-kind", MetricName::Error),
        ("Story-View", MetricName::Error),
    ];
    for (value, expected) in cases {
        let req = format!("GET /metric?metric={} HTTP/1.1\r\n\r\n", value);
        let url = parse_ok(&req);
        assert_eq!(Metric::get_metric_type_off_query_param(&url), expected);
    }
}

#[test]
fn metric_type_defaults_to_base_when_absent() {
    let url = parse_ok("GET /metric?subfield=x HTTP/1.1\r\n\r\n");
    assert_eq!(
        Metric::get_metric_type_off_query_param(&url),
        MetricName::Base
    );
}

#[test]
fn parameter_keys_match_by_substring_and_last_wins() {
    let url = parse_ok("GET /metric?xmetricy=share&mysubfield=a&subfield=b HTTP/1.1\r\n\r\n");
    assert_eq!(
        Metric::get_metric_type_off_query_param(&url),
        MetricName::Share
    );
    assert_eq!(Metric::get_metric_subfield_off_query_params(&url), "b");
}

#[test]
fn subfield_and_target_default_to_empty() {
    let url = parse_ok("GET /metric?value=1 HTTP/1.1\r\n\r\n");
    assert_eq!(Metric::get_metric_subfield_off_query_params(&url), "");
    assert_eq!(Metric::get_target_string_off_query_params(&url), "");
}

#[test]
fn metric_record_holds_its_fields() {
    let m = Metric::get_metric(
        MetricName::Share,
        "sub".to_string(),
        "tgt".to_string(),
        42,
    );
    assert_eq!(m.metric_type, MetricName::Share);
    assert_eq!(m.subfield, "sub");
    assert_eq!(m.target, "tgt");
    assert_eq!(m.value, 42);
}

#[test]
fn metric_type_wire_strings() {
    let cases = [
        (MetricName::Base, "couch-gag-base-metric-health-ping"),
        (MetricName::ButtonClick, "couch-gag-button-click"),
        (MetricName::Error, "couch-gag-error"),
        (MetricName::PageView, "couch-gag-page-view-hit"),
        (MetricName::Share, "couch-gag-share-story"),
        (MetricName::StoryView, "couch-gag-story-view"),
    ];
    for (name, expected) in cases {
        assert_eq!(Metric::get_metric_type_as_string(name), expected);
    }
}
