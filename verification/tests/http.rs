use metrics_generator::generators::{MetricsRoot, TOTAL_BYTES};
use metrics_generator::handlers::{
    handle_connection, handle_healthz, handle_metrics, handle_stats, reply_bytes, Reply,
};
use metrics_generator::metrics::register_prom_metrics;
use metrics_generator::registry::{MetricsRegistry, Readings};
use metrics_generator::request::{
    route_line, same_bytes, split_on_space, RequestHead, Route, SPACE,
};
use metrics_generator::response::{
    bad_request_response, healthz_response, method_not_allowed_response, not_found_response,
    ok_response, push_decimal,
};

fn lines(text: &[&str]) -> Vec<Vec<u8>> {
    text.iter().map(|line| line.as_bytes().to_vec()).collect()
}

fn registered() -> MetricsRegistry {
    let mut registry = MetricsRegistry::new();
    assert_eq!(register_prom_metrics(&mut registry), Ok(()));
    registry
}

fn answer(request: &[&str], registry: &mut MetricsRegistry) -> Reply {
    let head = RequestHead::from_lines(&lines(request));
    handle_connection(&head, registry)
}

fn sent(reply: Reply) -> Vec<u8> {
    match reply {
        Reply::Send(bytes) => bytes,
        other => panic!("not a fixed response: {other:?}"),
    }
}

fn json(stats: &MetricsRoot) -> String {
    let mut cpu = serde_json::Map::new();
    cpu.insert("load_1m".to_string(), serde_json::Value::from(stats.cpu.load_1m as f64 / 1e6));
    cpu.insert("load_5m".to_string(), serde_json::Value::from(stats.cpu.load_5m as f64 / 1e6));
    cpu.insert("load_15m".to_string(), serde_json::Value::from(stats.cpu.load_15m as f64 / 1e6));
    cpu.insert("thread_count".to_string(), serde_json::Value::from(stats.cpu.thread_count));
    let mut memory = serde_json::Map::new();
    memory.insert("used_bytes".to_string(), serde_json::Value::from(stats.memory.used_bytes));
    memory.insert("total_bytes".to_string(), serde_json::Value::from(stats.memory.total_bytes));
    let mut root = serde_json::Map::new();
    root.insert("cpu".to_string(), serde_json::Value::Object(cpu));
    root.insert("memory".to_string(), serde_json::Value::Object(memory));
    serde_json::to_string(&serde_json::Value::Object(root)).unwrap()
}

#[test]
fn space_is_the_ascii_space() {
    assert_eq!(SPACE, b' ');
}

#[test]
fn same_bytes_compares_whole_strings() {
    assert!(same_bytes(b"GET", b"GET"));
    assert!(same_bytes(b"", b""));
    assert!(!same_bytes(b"GET", b"GE"));
    assert!(!same_bytes(b"GET", b"GEt"));
    assert!(!same_bytes(b"", b"G"));
}

#[test]
fn split_on_space_gives_the_pieces_between_spaces() {
    assert_eq!(split_on_space(b"GET /stats HTTP/1.1"), lines(&["GET", "/stats", "HTTP/1.1"]));
    assert_eq!(split_on_space(b"GET"), lines(&["GET"]));
    assert_eq!(split_on_space(b""), lines(&[""]));
    assert_eq!(split_on_space(b" "), lines(&["", ""]));
    assert_eq!(split_on_space(b"a  b"), lines(&["a", "", "b"]));
    assert_eq!(split_on_space(b" a "), lines(&["", "a", ""]));
    assert_eq!(split_on_space(b"a\tb c"), lines(&["a\tb", "c"]));
}

#[test]
fn split_on_space_agrees_with_str_split() {
    for text in ["GET / HTTP/1.1", "  ", "x", "a b c d e", " lead", "trail ", "GET  /healthz"] {
        let expected: Vec<Vec<u8>> = text.split(' ').map(|t| t.as_bytes().to_vec()).collect();
        assert_eq!(split_on_space(text.as_bytes()), expected);
    }
}

#[test]
fn route_line_serves_the_three_paths() {
    assert_eq!(route_line(b"GET /healthz HTTP/1.1"), Route::Healthz);
    assert_eq!(route_line(b"GET /stats HTTP/1.1"), Route::Stats);
    assert_eq!(route_line(b"GET /metrics HTTP/1.1"), Route::Metrics);
    assert_eq!(route_line(b"GET /metrics"), Route::Metrics);
    assert_eq!(route_line(b"GET /stats HTTP/1.0 and more"), Route::Stats);
}

#[test]
fn route_line_does_not_find_other_paths() {
    assert_eq!(route_line(b"GET /bogus HTTP/1.1"), Route::NotFound);
    assert_eq!(route_line(b"GET / HTTP/1.1"), Route::NotFound);
    assert_eq!(route_line(b"GET /stats/ HTTP/1.1"), Route::NotFound);
    assert_eq!(route_line(b"GET /Stats HTTP/1.1"), Route::NotFound);
    assert_eq!(route_line(b"GET  /stats HTTP/1.1"), Route::NotFound);
    assert_eq!(route_line(b"GET "), Route::NotFound);
}

#[test]
fn route_line_allows_get_only() {
    assert_eq!(route_line(b"POST /metrics HTTP/1.1"), Route::MethodNotAllowed);
    assert_eq!(route_line(b"get /stats HTTP/1.1"), Route::MethodNotAllowed);
    assert_eq!(route_line(b"GETS /stats HTTP/1.1"), Route::MethodNotAllowed);
    assert_eq!(route_line(b" GET /stats"), Route::MethodNotAllowed);
    assert_eq!(route_line(b"HEAD /healthz"), Route::MethodNotAllowed);
}

#[test]
fn route_line_wants_a_path() {
    assert_eq!(route_line(b"GET"), Route::BadRequest);
    assert_eq!(route_line(b"POST"), Route::BadRequest);
    assert_eq!(route_line(b""), Route::BadRequest);
    assert_eq!(route_line(b"GET/stats"), Route::BadRequest);
}

#[test]
fn a_head_takes_lines_up_to_the_empty_one() {
    let mut head = RequestHead::new();
    assert!(!head.is_complete());
    assert_eq!(head.line_count(), 0);
    assert!(head.push_line(b"GET /stats HTTP/1.1".to_vec()));
    assert!(head.push_line(b"Host: localhost".to_vec()));
    assert_eq!(head.line_count(), 2);
    assert!(!head.is_complete());
    assert!(!head.push_line(Vec::new()));
    assert!(head.is_complete());
    assert_eq!(head.line_count(), 2);
    assert!(!head.push_line(b"POST / HTTP/1.1".to_vec()));
    assert_eq!(head.line_count(), 2);
    assert_eq!(head.line(0), Some(&b"GET /stats HTTP/1.1".to_vec()));
    assert_eq!(head.line(1), Some(&b"Host: localhost".to_vec()));
    assert_eq!(head.line(2), None);
    assert_eq!(head.route(), Route::Stats);
}

#[test]
fn a_head_from_lines_stops_at_the_empty_one() {
    let head = RequestHead::from_lines(&lines(&["GET /metrics HTTP/1.1", "A: b", "", "body", ""]));
    assert!(head.is_complete());
    assert_eq!(head.line_count(), 2);
    assert_eq!(head.route(), Route::Metrics);

    let head = RequestHead::from_lines(&lines(&["GET /metrics HTTP/1.1", "A: b"]));
    assert!(!head.is_complete());
    assert_eq!(head.line_count(), 2);

    let head = RequestHead::from_lines(&lines(&["", "GET /metrics HTTP/1.1"]));
    assert!(head.is_complete());
    assert_eq!(head.line_count(), 0);
    assert_eq!(head.route(), Route::BadRequest);

    let head = RequestHead::from_lines(&lines(&[]));
    assert!(!head.is_complete());
    assert_eq!(head.route(), Route::BadRequest);
}

#[test]
fn fixed_responses() {
    assert_eq!(bad_request_response(), b"HTTP/1.1 400 Bad Request\r\n\r\n");
    assert_eq!(not_found_response(), b"HTTP/1.1 404 Not Found\r\n\r\n");
    assert_eq!(method_not_allowed_response(), b"HTTP/1.1 405 Method Not Allowed\r\n\r\n");
    assert_eq!(healthz_response(true), b"HTTP/1.1 200 Ok\r\n\r\n");
    assert_eq!(healthz_response(false), b"");
}

#[test]
fn decimal_digits() {
    for n in [0usize, 1, 9, 10, 11, 99, 100, 101, 12345, 4294967295, usize::MAX] {
        let mut out = b"n=".to_vec();
        push_decimal(&mut out, n);
        assert_eq!(String::from_utf8(out).unwrap(), format!("n={n}"));
    }
}

#[test]
fn ok_response_frames_the_body() {
    assert_eq!(
        ok_response(b"hello"),
        b"HTTP/1.1 200 Ok\r\nContent-Length: 5\r\n\r\nhello"
    );
    assert_eq!(ok_response(b""), b"HTTP/1.1 200 Ok\r\nContent-Length: 0\r\n\r\n");
    let body = vec![b'x'; 1234];
    let response = ok_response(&body);
    assert!(response.starts_with(b"HTTP/1.1 200 Ok\r\nContent-Length: 1234\r\n\r\nxxx"));
    assert_eq!(response.len(), 41 + 1234);
}

#[test]
fn get_healthz_is_ok_or_nothing() {
    let mut registry = registered();
    let mut ok = 0;
    let mut nothing = 0;
    for _ in 0..2_000 {
        let bytes = sent(answer(&["GET /healthz HTTP/1.1", "Host: x", ""], &mut registry));
        if bytes == b"HTTP/1.1 200 Ok\r\n\r\n" {
            ok += 1;
        } else {
            assert!(bytes.is_empty());
            nothing += 1;
        }
    }
    assert!(ok > 1_600);
    assert!(nothing > 100);
    assert_eq!(registry.len(), 4);
}

#[test]
fn handle_healthz_is_ok_or_nothing() {
    for _ in 0..200 {
        let bytes = sent(handle_healthz());
        assert!(bytes == b"HTTP/1.1 200 Ok\r\n\r\n" || bytes.is_empty());
    }
}

#[test]
fn get_stats_gives_a_payload_for_json() {
    let mut registry = registered();
    let reply = answer(&["GET /stats HTTP/1.1", ""], &mut registry);
    let stats = match reply {
        Reply::Json(stats) => stats,
        other => panic!("not a payload: {other:?}"),
    };
    assert_eq!(stats.cpu.thread_count, 16);
    assert_eq!(stats.memory.total_bytes, TOTAL_BYTES);
    assert!(stats.memory.used_bytes < stats.memory.total_bytes);
    assert!(stats.memory.used_bytes >= stats.memory.total_bytes / 2);
    assert!(stats.cpu.load_15m >= stats.cpu.load_5m);
    assert!(stats.cpu.load_5m >= stats.cpu.load_1m);

    let body = json(&stats);
    let response = reply_bytes(Reply::Json(stats), body.as_bytes());
    assert_eq!(response, ok_response(body.as_bytes()));
    let text = String::from_utf8(response).unwrap();
    let (head, sent_body) = text.split_once("\r\n\r\n").unwrap();
    assert_eq!(head, format!("HTTP/1.1 200 Ok\r\nContent-Length: {}", body.len()));
    let parsed: serde_json::Value = serde_json::from_str(sent_body).unwrap();
    assert!(parsed["cpu"]["load_1m"].is_f64());
    assert!(parsed["cpu"]["load_5m"].is_f64());
    assert!(parsed["cpu"]["load_15m"].is_f64());
    assert_eq!(parsed["cpu"]["thread_count"].as_u64(), Some(16));
    assert_eq!(parsed["memory"]["total_bytes"].as_u64(), Some(4294967296));
    let used = parsed["memory"]["used_bytes"].as_u64().unwrap();
    assert!(used < parsed["memory"]["total_bytes"].as_u64().unwrap());
    assert!(parsed["cpu"]["load_15m"].as_f64().unwrap() >= parsed["cpu"]["load_5m"].as_f64().unwrap());
    assert!(parsed["cpu"]["load_1m"].as_f64().unwrap() < 16.0);

    for at in 0..4 {
        match &registry.get(at).unwrap().readings {
            Readings::Scalar(value) => assert_eq!(*value, 0),
            Readings::Family(series) => assert!(series.is_empty()),
        }
    }
}

#[test]
fn handle_stats_gives_a_payload() {
    match handle_stats() {
        Reply::Json(stats) => {
            assert_eq!(stats.cpu.thread_count, 16);
            assert_eq!(stats.memory.total_bytes, 4294967296);
        }
        other => panic!("not a payload: {other:?}"),
    }
}

#[test]
fn get_metrics_refreshes_the_registry() {
    let mut registry = registered();
    let reply = answer(&["GET /metrics HTTP/1.1", ""], &mut registry);
    assert!(matches!(reply, Reply::Exposition));
    assert_eq!(registry.len(), 4);
    match &registry.get(1).unwrap().readings {
        Readings::Family(series) => assert_eq!(series.len(), 3),
        Readings::Scalar(_) => panic!("the load is a family"),
    }
    match &registry.get(2).unwrap().readings {
        Readings::Scalar(value) => assert_eq!(*value, TOTAL_BYTES),
        Readings::Family(_) => panic!("total memory is a single gauge"),
    }
}

#[test]
fn reply_bytes_sends_fixed_responses_as_they_are() {
    assert_eq!(reply_bytes(Reply::Send(b"HTTP/1.1 404 Not Found\r\n\r\n".to_vec()), b"unused"),
        b"HTTP/1.1 404 Not Found\r\n\r\n");
    assert_eq!(reply_bytes(Reply::Send(Vec::new()), b"unused"), b"");
}

#[test]
fn reply_bytes_frames_the_document() {
    assert_eq!(
        reply_bytes(Reply::Exposition, b"# EOF\n"),
        b"HTTP/1.1 200 Ok\r\nContent-Length: 6\r\n\r\n# EOF\n"
    );
    let stats = match handle_stats() {
        Reply::Json(stats) => stats,
        other => panic!("not a payload: {other:?}"),
    };
    assert_eq!(
        reply_bytes(Reply::Json(stats), b"{\"cpu\":1}"),
        b"HTTP/1.1 200 Ok\r\nContent-Length: 9\r\n\r\n{\"cpu\":1}"
    );
    assert_eq!(
        reply_bytes(Reply::Exposition, "\u{e9}".as_bytes()),
        b"HTTP/1.1 200 Ok\r\nContent-Length: 2\r\n\r\n\xc3\xa9"
    );
}

#[test]
fn get_metrics_is_sent_with_its_length() {
    let mut registry = registered();
    let reply = answer(&["GET /metrics HTTP/1.1", ""], &mut registry);
    let text = "# HELP a b.\n# EOF\n";
    let out = reply_bytes(reply, text.as_bytes());
    assert_eq!(out, format!("HTTP/1.1 200 Ok\r\nContent-Length: {}\r\n\r\n{text}", text.len()).into_bytes());
}

#[test]
fn handle_metrics_exposes_a_bare_registry_as_it_is() {
    let mut registry = MetricsRegistry::new();
    assert!(matches!(handle_metrics(&mut registry), Reply::Exposition));
    assert_eq!(registry.len(), 0);
}

#[test]
fn get_bogus_is_not_found() {
    let mut registry = registered();
    let bytes = sent(answer(&["GET /bogus HTTP/1.1", ""], &mut registry));
    assert_eq!(bytes, b"HTTP/1.1 404 Not Found\r\n\r\n");
}

#[test]
fn post_metrics_is_not_allowed() {
    let mut registry = registered();
    let bytes = sent(answer(&["POST /metrics HTTP/1.1", "Content-Length: 0", ""], &mut registry));
    assert_eq!(bytes, b"HTTP/1.1 405 Method Not Allowed\r\n\r\n");
    match &registry.get(1).unwrap().readings {
        Readings::Family(series) => assert!(series.is_empty()),
        Readings::Scalar(_) => panic!("the load is a family"),
    }
}

#[test]
fn an_empty_request_is_a_bad_request() {
    let mut registry = registered();
    let bytes = sent(answer(&[], &mut registry));
    assert_eq!(bytes, b"HTTP/1.1 400 Bad Request\r\n\r\n");
    let bytes = sent(answer(&[""], &mut registry));
    assert_eq!(bytes, b"HTTP/1.1 400 Bad Request\r\n\r\n");
}

#[test]
fn a_request_line_without_a_path_is_a_bad_request() {
    let mut registry = registered();
    let bytes = sent(answer(&["GET", ""], &mut registry));
    assert_eq!(bytes, b"HTTP/1.1 400 Bad Request\r\n\r\n");
    let bytes = sent(answer(&["POST", ""], &mut registry));
    assert_eq!(bytes, b"HTTP/1.1 400 Bad Request\r\n\r\n");
}
