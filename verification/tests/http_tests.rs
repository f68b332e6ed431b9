use idea_ime::http::{
    bad_request_reply, build_http_response, forward_reply, json_escape, parse_mode_from_path,
    parse_mode_value, parse_requested_mode, status_text, ForwardOutcome, SwitchRequest,
    SwitchResponse,
};
use idea_ime::ime::ImeMode;

#[test]
fn query_mode_one_is_chinese() {
    assert_eq!(parse_requested_mode("GET /switch?mode=1 HTTP/1.1\r\n"), Ok(ImeMode::Chinese));
}

#[test]
fn query_mode_zero_is_english() {
    assert_eq!(parse_requested_mode("GET /switch?mode=0 HTTP/1.1\r\n"), Ok(ImeMode::English));
}

#[test]
fn path_forms() {
    assert_eq!(parse_requested_mode("GET /switch/1 HTTP/1.1"), Ok(ImeMode::Chinese));
    assert_eq!(parse_requested_mode("GET /0 HTTP/1.1"), Ok(ImeMode::English));
    assert_eq!(parse_requested_mode("POST /1"), Ok(ImeMode::Chinese));
    assert_eq!(parse_requested_mode("  GET \t /switch/0  "), Ok(ImeMode::English));
}

#[test]
fn query_forms() {
    assert_eq!(parse_requested_mode("GET /switch?value=1 HTTP/1.1"), Ok(ImeMode::Chinese));
    assert_eq!(parse_requested_mode("GET /switch?foo=1&mode=0 HTTP/1.1"), Ok(ImeMode::English));
    assert_eq!(parse_requested_mode("GET /switch?flag&mode=1 HTTP/1.1"), Ok(ImeMode::Chinese));
    assert_eq!(parse_requested_mode("GET /?mode=1"), Ok(ImeMode::Chinese));
    assert_eq!(parse_requested_mode("GET /x?a=b?mode=1"), Err("请使用 /switch?mode=1 或 /switch?mode=0"));
}

#[test]
fn first_mode_pair_decides() {
    assert_eq!(parse_requested_mode("GET /switch?mode=2&mode=1"), Err("mode 只能传 1 或 0"));
    assert_eq!(parse_requested_mode("GET /switch?mode=0&value=1"), Ok(ImeMode::English));
}

#[test]
fn errors() {
    assert_eq!(parse_requested_mode(""), Err("缺少 HTTP 方法"));
    assert_eq!(parse_requested_mode(" \r\n"), Err("缺少 HTTP 方法"));
    assert_eq!(parse_requested_mode("GET"), Err("缺少请求路径"));
    assert_eq!(parse_requested_mode("GET   \r\n"), Err("缺少请求路径"));
    assert_eq!(parse_requested_mode("GET /switch?mode=on HTTP/1.1"), Err("mode 只能传 1 或 0"));
    assert_eq!(parse_requested_mode("GET /switch HTTP/1.1"), Err("请使用 /switch?mode=1 或 /switch?mode=0"));
    assert_eq!(parse_requested_mode("GET /switch/2 HTTP/1.1"), Err("请使用 /switch?mode=1 或 /switch?mode=0"));
    assert_eq!(parse_requested_mode("GET /switch?other=1"), Err("请使用 /switch?mode=1 或 /switch?mode=0"));
}

#[test]
fn mode_values_and_paths() {
    assert_eq!(parse_mode_value("1"), Some(ImeMode::Chinese));
    assert_eq!(parse_mode_value("0"), Some(ImeMode::English));
    assert_eq!(parse_mode_value("01"), None);
    assert_eq!(parse_mode_value(""), None);
    assert_eq!(parse_mode_from_path("/switch/1"), Some(ImeMode::Chinese));
    assert_eq!(parse_mode_from_path("/1"), Some(ImeMode::Chinese));
    assert_eq!(parse_mode_from_path("1"), None);
    assert_eq!(parse_mode_from_path("/switch?mode=1"), None);
}

#[test]
fn json_escaping() {
    assert_eq!(json_escape("a\"b\\c\nd\re\tf"), "a\\\"b\\\\c\\nd\\re\\tf");
    assert_eq!(json_escape("中文"), "中文");
    assert_eq!(json_escape(""), "");
}

#[test]
fn status_texts() {
    assert_eq!(status_text(200), "OK");
    assert_eq!(status_text(400), "Bad Request");
    assert_eq!(status_text(404), "Not Found");
    assert_eq!(status_text(500), "Internal Server Error");
    assert_eq!(status_text(504), "Gateway Timeout");
    assert_eq!(status_text(418), "OK");
}

#[test]
fn success_reply() {
    let response = SwitchResponse::success(ImeMode::Chinese, true, "已切换到中文输入".to_string());
    let body = "{\"success\":true,\"changed\":true,\"mode\":\"chinese\",\"message\":\"已切换到中文输入\"}";
    let expected = format!(
        "HTTP/1.1 200 OK\r\nContent-Type: application/json; charset=utf-8\r\nContent-Length: {}\r\nConnection: close\r\n\r\n{}",
        body.len(),
        body
    );
    assert_eq!(build_http_response(200, &response), expected);
}

#[test]
fn error_reply_escapes_message() {
    let response = SwitchResponse::error("bad \"x\"".to_string());
    let body = "{\"success\":false,\"changed\":false,\"mode\":null,\"message\":\"bad \\\"x\\\"\"}";
    let expected = format!(
        "HTTP/1.1 504 Gateway Timeout\r\nContent-Type: application/json; charset=utf-8\r\nContent-Length: {}\r\nConnection: close\r\n\r\n{}",
        body.len(),
        body
    );
    assert_eq!(build_http_response(504, &response), expected);
}

#[test]
fn reply_modes() {
    let english = build_http_response(200, &SwitchResponse::success(ImeMode::English, false, "x".to_string()));
    assert!(english.contains("\"mode\":\"english\""));
    assert!(english.contains("\"changed\":false"));
    let unknown = build_http_response(200, &SwitchResponse::success(ImeMode::Unknown, false, "x".to_string()));
    assert!(unknown.contains("\"mode\":\"unknown\""));
}

#[test]
fn forwarded_replies() {
    let not_delivered = forward_reply(ForwardOutcome::NotDelivered);
    assert!(not_delivered.starts_with("HTTP/1.1 500 Internal Server Error\r\n"));
    assert!(not_delivered.ends_with("\"message\":\"应用未在处理 HTTP 切换请求\"}"));
    let timed_out = forward_reply(ForwardOutcome::TimedOut);
    assert!(timed_out.starts_with("HTTP/1.1 504 Gateway Timeout\r\n"));
    assert!(timed_out.ends_with("\"message\":\"等待输入法切换结果超时\"}"));
    let answered = forward_reply(ForwardOutcome::Answered(SwitchResponse::success(
        ImeMode::English,
        true,
        "ok".to_string(),
    )));
    assert!(answered.starts_with("HTTP/1.1 200 OK\r\n"));
    let bad = bad_request_reply("缺少请求路径");
    assert!(bad.starts_with("HTTP/1.1 400 Bad Request\r\n"));
    assert!(bad.ends_with("\"mode\":null,\"message\":\"缺少请求路径\"}"));
}

#[test]
fn response_constructors() {
    let ok = SwitchResponse::success(ImeMode::English, true, "m".to_string());
    assert!(ok.success && ok.changed);
    assert_eq!(ok.mode, Some(ImeMode::English));
    let err = SwitchResponse::error("e".to_string());
    assert!(!err.success && !err.changed);
    assert_eq!(err.mode, None);
    assert_eq!(err.message, "e");
}

#[test]
fn request_respond_delivers() {
    let (tx, rx) = std::sync::mpsc::sync_channel(1);
    let request = SwitchRequest::new(ImeMode::Chinese, tx);
    assert_eq!(request.desired_mode, ImeMode::Chinese);
    request.respond(SwitchResponse::error("done".to_string()));
    let got = rx.recv().unwrap();
    assert_eq!(got.message, "done");
}
