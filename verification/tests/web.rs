use cosmic_scribe::api::ApiError;
use cosmic_scribe::web::{
    api_audio, api_error_status, asset_request_name, content_length, correction_error_status,
    header_end, history_query, http_head, http_response, mime_guess, open_ui, parse_ui_lock,
    recording_id_from_path, request_kind, request_line, route_api, ui_lock_path, ui_lock_text,
    ui_url, ApiRoute, RequestKind, UiOpen,
};

#[test]
fn test_read_http_request_reads_split_post_body() {
    let body = r#"{"lang":"en","output_mode":"wtype"}"#;
    let head = format!(
        "POST /api/config HTTP/1.1\r\nHost: 127.0.0.1\r\nContent-Type: application/json\r\nContent-Length: {}\r\n\r\n",
        body.len()
    );
    let mut buf = head.clone().into_bytes();
    buf.extend_from_slice(body.as_bytes());
    let end = header_end(&buf).expect("head complete");
    assert_eq!(end, head.len());
    let headers = String::from_utf8_lossy(&buf[..end]).into_owned();
    let req_line = request_line(&headers).unwrap();
    assert!(req_line.starts_with("POST /api/config"));
    let n = content_length(&headers);
    assert_eq!(n, body.len());
    assert_eq!(&buf[end..end + n], body.as_bytes());
    assert_eq!(header_end(b"GET / HTTP/1.1\r\n"), None);
    assert_eq!(content_length("GET / HTTP/1.1\r\ncontent-LENGTH:  12 \r\n\r\n"), 12);
    assert_eq!(content_length("GET / HTTP/1.1\r\nContent-Length: x\r\nContent-Length: 3\r\n\r\n"), 3);
}

#[test]
fn api_routing() {
    assert_eq!(route_api("GET /api/history?offset=5 HTTP/1.1").0, ApiRoute::History);
    assert_eq!(route_api("GET /api/recording/abc/waveform HTTP/1.1").0, ApiRoute::Waveform);
    assert_eq!(route_api("GET /api/recording/abc HTTP/1.1").0, ApiRoute::RecordingGet);
    assert_eq!(route_api("POST /api/recording/abc/delete HTTP/1.1").0, ApiRoute::Delete);
    assert_eq!(route_api("POST /api/recording/abc/edit HTTP/1.1").0, ApiRoute::Edit);
    assert_eq!(route_api("GET /api/config HTTP/1.1").0, ApiRoute::ConfigGet);
    assert_eq!(route_api("POST /api/config HTTP/1.1").0, ApiRoute::ConfigPost);
    assert_eq!(route_api("GET /api/models HTTP/1.1").0, ApiRoute::Models);
    assert_eq!(route_api("DELETE /api/config HTTP/1.1").0, ApiRoute::NotFound);
    assert_eq!(route_api("GET").1, "/");
    assert_eq!(request_kind("GET /index.html HTTP/1.1"), RequestKind::Asset("/index.html".into()));
    assert_eq!(request_kind("GET /api/recording/x/audio HTTP/1.1"), RequestKind::Audio);
    assert_eq!(request_kind("POST /api/config HTTP/1.1"), RequestKind::Api);
}

#[test]
fn request_paths_and_queries() {
    assert_eq!(recording_id_from_path("/api/recording/abc/waveform", "/waveform"), "abc");
    assert_eq!(recording_id_from_path("/api/recording/abc/", ""), "abc");
    assert_eq!(recording_id_from_path("/other/abc", ""), "");
    assert_eq!(history_query("/api/history?offset=40&limit=10"), (40, 10));
    assert_eq!(history_query("/api/history"), (0, 20));
    assert_eq!(history_query("/api/history?offset=x&offset=3&junk"), (3, 20));
    assert_eq!(mime_guess("app.js"), "application/javascript");
    assert_eq!(mime_guess("index.html"), "text/html; charset=utf-8");
    assert_eq!(mime_guess("README"), "application/octet-stream");
    assert_eq!(asset_request_name("/"), "index.html");
    assert_eq!(asset_request_name("//a/b.css"), "a/b.css");
}

#[test]
fn responses_and_ui_lock() {
    let r = http_response("200 OK", "text/plain", "héllo");
    assert_eq!(r, "HTTP/1.1 200 OK\r\nContent-Type: text/plain\r\nContent-Length: 6\r\nConnection: close\r\n\r\nhéllo");
    assert_eq!(http_head("audio/wav", 44), "HTTP/1.1 200 OK\r\nContent-Type: audio/wav\r\nContent-Length: 44\r\nConnection: close\r\n\r\n");
    assert_eq!(api_error_status(&ApiError::NotFound("x".into())), "404 Not Found");
    assert_eq!(api_error_status(&ApiError::Internal("x".into())), "500 Internal Server Error");
    assert_eq!(correction_error_status(&ApiError::Internal("x".into())), "502 Bad Gateway");
    assert_eq!(api_audio().0, "404 Not Found");
    assert_eq!(ui_url("127.0.0.1:8080", "/"), "http://127.0.0.1:8080");
    assert_eq!(ui_url("127.0.0.1:8080", "/settings"), "http://127.0.0.1:8080/settings");
    let text = ui_lock_text(77, "http://127.0.0.1:9");
    assert_eq!(text, "77\nhttp://127.0.0.1:9\n");
    assert_eq!(parse_ui_lock(&text), Some((77, "http://127.0.0.1:9".to_string())));
    assert_eq!(parse_ui_lock("77\n   \n"), None);
    assert_eq!(parse_ui_lock("77"), None);
    assert_eq!(ui_lock_path("/d"), "/d/ui-browser.lock");
    assert_eq!(open_ui(Some((77, "http://h:1".into())), true, "/x"), UiOpen::Reuse("http://h:1/x".into()));
    assert_eq!(open_ui(Some((77, "http://h:1".into())), false, "/x"), UiOpen::ClearAndStart);
    assert_eq!(open_ui(None, false, "/"), UiOpen::Start);
}
