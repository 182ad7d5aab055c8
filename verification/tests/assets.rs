use tauriless::assets::{
    build_response, complete_response, default_status, error_response, guessed_mime, Answer, AssetProtocol, Header, ResponseBody,
    ResponsePayload, INVALID_STATUS_ERROR, MISSING_BODY_ERROR,
};

fn payload(request_id: u64, content: Option<&str>, path: Option<&str>) -> ResponsePayload {
    ResponsePayload {
        request_id,
        status: 200,
        headers: Vec::new(),
        mime: None,
        path: path.map(|p| p.to_string()),
        content: content.map(|c| c.to_string()),
    }
}

#[test]
fn inline_content_infers_mime_from_requested_url() {
    let response = build_response(payload(1, Some("body {}"), None), "/styles/app.css").unwrap();

    assert_eq!(response.status, 200);
    assert_eq!(response.content_type.as_deref(), Some("text/css"));
    match response.body {
        ResponseBody::Bytes(bytes) => assert_eq!(bytes, b"body {}"),
        other => panic!("unexpected body {other:?}"),
    }
}

#[test]
fn local_path_is_read_as_bytes() {
    let path = "/tmp/tauriless-asset-test.svg";
    let response = build_response(payload(1, None, Some(path)), "/without-an-extension").unwrap();

    assert_eq!(response.content_type.as_deref(), Some("image/svg+xml"));
    match &response.body {
        ResponseBody::File(file) => assert_eq!(file, path),
        other => panic!("unexpected body {other:?}"),
    }
    // The runtime reads the named file and completes the response with its bytes.
    let response = complete_response(response, Ok(b"<svg/>".to_vec())).unwrap();
    assert_eq!(response.content_type.as_deref(), Some("image/svg+xml"));
    match response.body {
        ResponseBody::Bytes(bytes) => assert_eq!(bytes, b"<svg/>"),
        other => panic!("unexpected body {other:?}"),
    }
}

#[test]
fn response_requires_a_body_source() {
    let error = build_response(payload(1, None, None), "/index.html").unwrap_err();

    assert!(error.contains("either `path` or `content`"));
    assert_eq!(error, MISSING_BODY_ERROR);
}

#[test]
fn status_outside_three_digits_is_refused_first() {
    let mut low = payload(1, None, None);
    low.status = 99;
    assert_eq!(build_response(low, "/").unwrap_err(), INVALID_STATUS_ERROR);
    let mut high = payload(1, Some("x"), None);
    high.status = 1000;
    assert_eq!(build_response(high, "/").unwrap_err(), INVALID_STATUS_ERROR);
    let mut odd = payload(1, Some("x"), None);
    odd.status = 999;
    assert_eq!(build_response(odd, "/").unwrap().status, 999);
}

#[test]
fn a_content_type_header_in_any_case_suppresses_the_guess() {
    let mut answer = payload(1, Some("{}"), None);
    answer.headers = vec![
        Header { name: "X-Extra".to_string(), value: "1".to_string() },
        Header { name: "CONTENT-type".to_string(), value: "application/json".to_string() },
    ];
    answer.mime = Some("text/plain".to_string());
    let response = build_response(answer, "/data.css").unwrap();
    assert!(response.content_type.is_none());
    assert_eq!(response.headers.len(), 2);
    assert_eq!(response.headers[1].value, "application/json");
}

#[test]
fn an_explicit_mime_wins_over_the_guess_and_content_over_path() {
    let mut answer = payload(1, Some("<p/>"), Some("/srv/page.svg"));
    answer.mime = Some("text/html".to_string());
    let response = build_response(answer, "/page.css").unwrap();
    assert_eq!(response.content_type.as_deref(), Some("text/html"));
    match response.body {
        ResponseBody::Bytes(bytes) => assert_eq!(bytes, b"<p/>"),
        other => panic!("unexpected body {other:?}"),
    }
}

#[test]
fn the_guess_falls_back_from_path_to_url_to_octet_stream() {
    assert_eq!(guessed_mime(Some("/srv/logo.png"), "/index.html"), "image/png");
    assert_eq!(guessed_mime(Some("/srv/no-extension"), "/index.html"), "text/html");
    assert_eq!(guessed_mime(None, "/app.js"), "text/javascript");
    assert_eq!(guessed_mime(None, "/unknown"), "application/octet-stream");
}

#[test]
fn failed_answers_are_sent_as_plain_text_errors() {
    let response = error_response("boom");
    assert_eq!(response.status, 500);
    assert!(response.headers.is_empty());
    assert_eq!(response.content_type.as_deref(), Some("text/plain; charset=utf-8"));
    match response.body {
        ResponseBody::Bytes(bytes) => assert_eq!(bytes, b"boom"),
        other => panic!("unexpected body {other:?}"),
    }
}

#[test]
fn default_status_is_ok() {
    assert_eq!(default_status(), 200);
}

#[test]
fn requests_are_numbered_from_one_and_answered_once() {
    let mut protocol = AssetProtocol::new();
    let first = protocol.begin_request("/index.html".to_string());
    let second = protocol.begin_request("/app.css".to_string());
    assert_eq!(first, 1);
    assert_eq!(second, 2);
    assert!(protocol.is_pending(1));
    assert!(protocol.is_pending(2));

    match protocol.respond(Ok(payload(2, Some("body {}"), None))).unwrap() {
        Answer::Respond(plan) => assert_eq!(plan.content_type.as_deref(), Some("text/css")),
        other => panic!("unexpected answer {other:?}"),
    }
    assert!(!protocol.is_pending(2));
    assert!(protocol.is_pending(1));

    let again = protocol.respond(Ok(payload(2, Some("body {}"), None))).unwrap_err();
    assert_eq!(again, "unknown or already answered asset request 2");
}

#[test]
fn an_answer_without_body_still_ends_the_request() {
    let mut protocol = AssetProtocol::new();
    let id = protocol.begin_request("/index.html".to_string());
    match protocol.respond(Ok(payload(id, None, None))).unwrap() {
        Answer::Fail(reason) => assert_eq!(reason, MISSING_BODY_ERROR),
        other => panic!("unexpected answer {other:?}"),
    }
    assert!(!protocol.is_pending(id));
}

#[test]
fn unreadable_or_unknown_answers_change_nothing() {
    let mut protocol = AssetProtocol::new();
    let id = protocol.begin_request("/index.html".to_string());
    assert_eq!(protocol.respond(Err("missing field `requestId`".to_string())).unwrap_err(), "missing field `requestId`");
    assert_eq!(
        protocol.respond(Ok(payload(18446744073709551615, Some("x"), None))).unwrap_err(),
        "unknown or already answered asset request 18446744073709551615"
    );
    assert!(protocol.is_pending(id));
}

#[test]
fn headers_the_http_builder_refuses_are_reported() {
    let mut bad_name = payload(1, Some("x"), None);
    bad_name.headers = vec![Header { name: "bad name".to_string(), value: "1".to_string() }];
    assert_eq!(build_response(bad_name, "/a.css").unwrap_err(), "invalid HTTP header name");

    let mut bad_value = payload(1, Some("x"), None);
    bad_value.headers = vec![Header { name: "x-ok".to_string(), value: "a\nb".to_string() }];
    assert_eq!(build_response(bad_value, "/a.css").unwrap_err(), "failed to parse header value");

    let mut bad_mime = payload(1, Some("x"), None);
    bad_mime.mime = Some("text/plain\r".to_string());
    assert_eq!(build_response(bad_mime, "/a.css").unwrap_err(), "failed to parse header value");

    let mut unicode_value = payload(1, Some("x"), None);
    unicode_value.headers = vec![Header { name: "X-Name".to_string(), value: "café\t1".to_string() }];
    assert!(build_response(unicode_value, "/a.css").is_ok());
}

#[test]
fn a_file_plan_is_completed_after_the_read() {
    let mut answer = payload(1, None, Some("/srv/page.svg"));
    answer.headers = vec![Header { name: "bad name".to_string(), value: "1".to_string() }];
    let plan = build_response(answer, "/page").unwrap();
    assert_eq!(
        complete_response(plan, Err("No such file or directory (os error 2)".to_string())).unwrap_err(),
        "failed to read `/srv/page.svg`: No such file or directory (os error 2)"
    );

    let plan = build_response(payload(1, None, Some("/srv/page.svg")), "/page").unwrap();
    let done = complete_response(plan, Ok(b"<svg/>".to_vec())).unwrap();
    assert_eq!(done.content_type.as_deref(), Some("image/svg+xml"));
    match done.body {
        ResponseBody::Bytes(bytes) => assert_eq!(bytes, b"<svg/>"),
        other => panic!("unexpected body {other:?}"),
    }

    let mut answer = payload(1, None, Some("/srv/page.svg"));
    answer.headers = vec![Header { name: "bad name".to_string(), value: "1".to_string() }];
    let plan = build_response(answer, "/page").unwrap();
    assert_eq!(complete_response(plan, Ok(Vec::new())).unwrap_err(), "invalid HTTP header name");
}

#[test]
fn many_headers_fit_the_header_map() {
    let mut answer = payload(1, Some("x"), None);
    answer.headers = (0..300).map(|i| Header { name: format!("x-h{i}"), value: "1".to_string() }).collect();
    let response = build_response(answer, "/a.css").unwrap();
    assert_eq!(response.headers.len(), 300);
}
