use couch_gag_metrics::handler::handle_request;

const ENV: &str = "SOME_OTHER=1\nULYSSES_HASHED_KEY=s3cr3t\n";

fn status_of(resp: &str) -> &str {
    let line = resp.split("\r\n").next().unwrap();
    line.strip_prefix("HTTP/1.1 ").unwrap()
}

fn body_of(resp: &str) -> &str {
    let at = resp.find("\r\n\r\n").unwrap();
    &resp[at + 4..]
}

#[test]
fn invalid_path_gives_500_with_path_error() {
    let resp = handle_request(
        "GET /nope HTTP/1.1\r\nx-ulysses-key: s3cr3t\r\n\r\n",
        ENV,
    );
    assert_eq!(status_of(&resp), "500 Internal Server Error");
    let v: serde_json::Value = serde_json::from_str(body_of(&resp)).unwrap();
    assert!(v["errors"]["PathError"].is_string());
    assert!(v["errors"]["CredentialsError"].is_null());
}

#[test]
fn options_requests_never_record_credentials_error() {
    // No key at all on a preflight: still no credentials error.
    let resp = handle_request("OPTIONS /metric HTTP/1.1\r\n\r\n", ENV);
    assert_eq!(status_of(&resp), "200 OK");
    assert_eq!(body_of(&resp).matches("CredentialsError").count(), 0);
    // A wrong key on a preflight: still none.
    let resp = handle_request(
        "OPTIONS /metric HTTP/1.1\r\nx-ulysses-key: wrong\r\n\r\n",
        ENV,
    );
    assert_eq!(status_of(&resp), "200 OK");
    // Even when the path check fails, only the path error is recorded.
    let resp = handle_request("OPTIONS /nope HTTP/1.1\r\n\r\n", ENV);
    assert_eq!(status_of(&resp), "500 Internal Server Error");
    assert_eq!(body_of(&resp).matches("CredentialsError").count(), 0);
    assert_eq!(body_of(&resp).matches("PathError").count(), 1);
}

#[test]
fn matching_secret_records_no_credentials_error() {
    let resp = handle_request(
        "GET /ping HTTP/1.1\r\nx-ulysses-key: s3cr3t\r\n\r\n",
        ENV,
    );
    assert_eq!(status_of(&resp), "200 OK");
    assert_eq!(body_of(&resp).matches("CredentialsError").count(), 0);
}

#[test]
fn mismatched_secret_records_exactly_one_credentials_error() {
    let resp = handle_request(
        "GET /ping HTTP/1.1\r\nx-ulysses-key: wrong\r\n\r\n",
        ENV,
    );
    assert_eq!(status_of(&resp), "500 Internal Server Error");
    assert_eq!(body_of(&resp).matches("CredentialsError").count(), 1);
}

#[test]
fn absent_header_records_exactly_one_credentials_error() {
    let resp = handle_request("GET /ping HTTP/1.1\r\n\r\n", ENV);
    assert_eq!(status_of(&resp), "500 Internal Server Error");
    assert_eq!(body_of(&resp).matches("CredentialsError").count(), 1);
}

#[test]
fn valid_metric_request_gives_200_with_metric_body() {
    let resp = handle_request(
        "GET /metric?metric=button-click&subfield=home&target=feed&value=7 HTTP/1.1\r\nx-ulysses-key: s3cr3t\r\n\r\n",
        ENV,
    );
    assert_eq!(status_of(&resp), "200 OK");
    let v: serde_json::Value = serde_json::from_str(body_of(&resp)).unwrap();
    assert_eq!(
        v["Metric"]["metric_type"].as_str(),
        Some("couch-gag-button-click")
    );
    assert_eq!(v["Metric"]["subfield"].as_str(), Some("home"));
    assert_eq!(v["Metric"]["target"].as_str(), Some("feed"));
    assert_eq!(v["Metric"]["value"].as_u64(), Some(7));
}

#[test]
fn out_of_range_value_fails_with_invalid_metric_value() {
    let resp = handle_request(
        "GET /metric?value=999 HTTP/1.1\r\nx-ulysses-key: s3cr3t\r\n\r\n",
        ENV,
    );
    assert_eq!(status_of(&resp), "400 Bad Request");
    let v: serde_json::Value = serde_json::from_str(body_of(&resp)).unwrap();
    assert!(v["errors"]["InvalidMetricValue"].is_string());
}

#[test]
fn malformed_query_fails_with_400() {
    let resp = handle_request(
        "GET /metric?broken HTTP/1.1\r\nx-ulysses-key: s3cr3t\r\n\r\n",
        ENV,
    );
    assert_eq!(status_of(&resp), "400 Bad Request");
    let v: serde_json::Value = serde_json::from_str(body_of(&resp)).unwrap();
    assert!(v["errors"]["MalformedQuery"].is_string());
}

#[test]
fn validation_errors_accumulate_in_check_order() {
    let resp = handle_request("GET /nope HTTP/1.1\r\n\r\n", ENV);
    assert_eq!(status_of(&resp), "500 Internal Server Error");
    assert_eq!(
        body_of(&resp),
        "{\"errors\":{\"PathError\":\"[Error] Attempt to access an inaccessible path.\",\"CredentialsError\":\"[Error]: Invalid ulysses key.\"}}"
    );
}

#[test]
fn full_response_text_is_exact() {
    let resp = handle_request("OPTIONS /ping HTTP/1.1\r\n\r\n", "");
    let expected = "HTTP/1.1 200 OK\r\nAccess-Control-Allow-Origin: *\nAccess-Control-Allow-Methods: OPTIONS, GET, POST\nAccess-Control-Allow-Headers: *\nContent-Type: application/json\r\n\r\n{\"Metric\":{\"metric_type\":\"couch-gag-base-metric-health-ping\",\"subfield\":\"\",\"target\":\"\",\"value\":0}}";
    assert_eq!(resp, expected);
}

#[test]
fn every_response_carries_cors_and_content_type() {
    let requests = [
        "GET /ping HTTP/1.1\r\nx-ulysses-key: s3cr3t\r\n\r\n",
        "GET /nope HTTP/1.1\r\n\r\n",
        "GET /metric?broken HTTP/1.1\r\n\r\n",
    ];
    for req in requests {
        let resp = handle_request(req, ENV);
        assert!(resp.contains("Access-Control-Allow-Origin: *"));
        assert!(resp.contains("Access-Control-Allow-Methods: OPTIONS, GET, POST"));
        assert!(resp.contains("Access-Control-Allow-Headers: *"));
        assert!(resp.contains("Content-Type: application/json"));
    }
}

#[test]
fn root_path_with_valid_key_reports_default_metric() {
    let resp = handle_request(
        "POST / HTTP/1.1\r\nx-ulysses-key: s3cr3t\r\n\r\n",
        ENV,
    );
    assert_eq!(status_of(&resp), "200 OK");
    let v: serde_json::Value = serde_json::from_str(body_of(&resp)).unwrap();
    assert_eq!(
        v["Metric"]["metric_type"].as_str(),
        Some("couch-gag-base-metric-health-ping")
    );
    assert_eq!(v["Metric"]["value"].as_u64(), Some(0));
}
