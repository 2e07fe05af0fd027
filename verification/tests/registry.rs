use rust_net::http::ClientContext;
use rust_net::http::HttpEvent;
use rust_net::http::HttpVersion;
use rust_net::http::Pair;
use rust_net::http::RespResult;
use rust_net::http::RespResultType;
use rust_net::http::ResponseData;

fn ok_result(status: u16, body: Vec<u8>, at: u64) -> RespResult {
    RespResult {
        resp: RespResultType::Data(ResponseData {
            status,
            data: body,
            version: HttpVersion::Http11,
            cookies: Vec::new(),
        }),
        create_time: at,
    }
}

fn err_result(message: &str, at: u64) -> RespResult {
    RespResult {
        resp: RespResultType::Error(String::from(message)),
        create_time: at,
    }
}

#[test]
fn handle_lifecycle() {
    let mut c = ClientContext::new(0);
    let h = c.begin_request(0);
    assert_eq!(c.request_state(h), 0);
    assert!(c.request_error(h).is_none());
    assert!(c.request_response(h).is_none());

    let did = c.complete(h, ok_result(200, vec![1, 2, 3], 5));
    assert!(did);
    assert_eq!(c.request_state(h), 1);

    let r1 = c.request_response(h).unwrap();
    assert_eq!(r1.status, 200);
    assert_eq!(r1.version, 11);
    assert_eq!(r1.data, vec![1, 2, 3]);

    // repeated reads return identical content
    let r2 = c.request_response(h).unwrap();
    assert_eq!(r2.status, 200);
    assert_eq!(r2.version, 11);
    assert_eq!(r2.data, vec![1, 2, 3]);

    c.remove_request(h);
    assert_eq!(c.request_state(h), -2);
    assert!(c.request_response(h).is_none());
    // still not found on every later poll
    assert_eq!(c.request_state(h), -2);
}

#[test]
fn write_once_first_writer_wins() {
    let mut c = ClientContext::new(0);
    let h = c.begin_request(0);
    assert!(c.complete(h, ok_result(200, vec![7], 1)));
    // a second, late writer is a no-op
    assert!(!c.complete(h, err_result("late", 2)));
    assert_eq!(c.request_state(h), 1);
    let r = c.request_response(h).unwrap();
    assert_eq!(r.data, vec![7]);
    assert!(c.request_error(h).is_none());
}

#[test]
fn failed_operation_reports_error() {
    let mut c = ClientContext::new(0);
    let h = c.begin_request(0);
    assert!(c.complete(h, err_result("connection reset", 1)));
    assert_eq!(c.request_state(h), -1);
    assert_eq!(c.request_error(h).unwrap(), "connection reset");
    assert!(c.request_response(h).is_none());
    assert!(c.response_cookies(h).is_none());
}

#[test]
fn unknown_handles_poll_not_found() {
    let mut c = ClientContext::new(0);
    assert_eq!(c.request_state(424242), -2);
    assert!(c.request_error(424242).is_none());
    assert!(c.request_response(424242).is_none());
    // completing an unknown handle writes nowhere
    assert!(!c.complete(424242, ok_result(200, vec![], 1)));
    assert_eq!(c.request_state(424242), -2);
}

#[test]
fn abandoned_operation_is_never_written() {
    let mut c = ClientContext::new(0);
    let h = c.begin_request(0);
    let other = c.begin_request(0);
    c.remove_request(h);
    // the task finishes late: its result vanishes without touching anything
    assert!(!c.complete(h, ok_result(200, vec![9], 3)));
    assert_eq!(c.request_state(h), -2);
    assert_eq!(c.request_state(other), 0);
}

#[test]
fn distinct_live_handles() {
    let mut c = ClientContext::new(0);
    let h1 = c.begin_request(0);
    let h2 = c.begin_request(0);
    let h3 = c.begin_request(0);
    assert_ne!(h1, h2);
    assert_ne!(h1, h3);
    assert_ne!(h2, h3);

    c.remove_request(h2);
    // a freed slot index may be reused, but never collides with live ones
    let h4 = c.begin_request(0);
    assert_ne!(h4, h1);
    assert_ne!(h4, h3);
    assert_eq!(c.request_state(h1), 0);
    assert_eq!(c.request_state(h3), 0);
    assert_eq!(c.request_state(h4), 0);
}

#[test]
fn sweep_respects_interval_and_retention() {
    let mut c = ClientContext::new(0);
    let done = c.begin_request(0);
    let stays_pending = c.begin_request(0);
    assert!(c.complete(done, ok_result(200, vec![1], 1000)));

    // interval (10s) not yet passed since the sweep clock started: no sweep
    let _ = c.begin_request(5000);
    assert_eq!(c.request_state(done), 1);

    // sweep due, but the result is younger than the retention window (20s)
    let _ = c.begin_request(15000);
    assert_eq!(c.request_state(done), 1);

    // next sweep due at 25000; the result is 24s old: evicted. The
    // triggering submission may reuse the freed index, so drop it first.
    let trigger = c.begin_request(25000);
    c.remove_request(trigger);
    assert_eq!(c.request_state(done), -2);
    // pending slots are never evicted
    assert_eq!(c.request_state(stays_pending), 0);
}

#[test]
fn result_fetched_before_eviction_stays_valid() {
    let mut c = ClientContext::new(0);
    let h = c.begin_request(0);
    assert!(c.complete(h, ok_result(204, vec![], 1000)));
    let _ = c.begin_request(15000);
    // fetched before the eviction point: still valid and identical
    assert_eq!(c.request_state(h), 1);
    assert_eq!(c.request_response(h).unwrap().status, 204);
}

#[test]
fn sweep_can_be_disabled() {
    let mut c = ClientContext::new(0);
    let h = c.begin_request(0);
    assert!(c.complete(h, ok_result(200, vec![], 0)));
    c.set_clear_expires_enabled(false, 0);
    let _ = c.begin_request(1_000_000);
    assert_eq!(c.request_state(h), 1);
    // re-enabling restarts the interval at the given time
    c.set_clear_expires_enabled(true, 1_000_000);
    let _ = c.begin_request(1_005_000);
    assert_eq!(c.request_state(h), 1);
    let trigger = c.begin_request(1_010_000);
    c.remove_request(trigger);
    assert_eq!(c.request_state(h), -2);
}

#[test]
fn header_and_param_configuration() {
    let mut c = ClientContext::new(0);
    c.add_header(String::from("accept"), String::from("text/plain"));
    c.add_header(String::from("accept"), String::from("application/json"));
    c.add_header(String::from("x-trace"), String::from("on"));
    let headers = c.headers();
    assert_eq!(headers.len(), 2);
    assert_eq!(headers[0].key, "accept");
    assert_eq!(headers[0].value, "application/json");
    assert_eq!(headers[1].key, "x-trace");

    c.add_param(String::from("q"), String::from("rust"));
    assert_eq!(c.params().len(), 1);
    c.clear_param();
    assert!(c.params().is_empty());
    c.clear_header();
    assert!(c.headers().is_empty());
}

#[test]
fn handle_response_drives_completion() {
    let mut c = ClientContext::new(0);
    let h = c.begin_request(0);
    let event = HttpEvent::TransportError(String::from("dns failure"));
    assert!(c.handle_response(h, event, 42));
    assert_eq!(c.request_state(h), -1);
    assert_eq!(c.request_error(h).unwrap(), "dns failure");
}

#[test]
fn response_cookies_round_out() {
    let mut c = ClientContext::new(0);
    let h = c.begin_request(0);
    let result = RespResult {
        resp: RespResultType::Data(ResponseData {
            status: 200,
            data: Vec::new(),
            version: HttpVersion::Http2,
            cookies: vec![Pair {
                key: String::from("sid"),
                value: String::from("abc"),
            }],
        }),
        create_time: 1,
    };
    assert!(c.complete(h, result));
    let cookies = c.response_cookies(h).unwrap();
    assert_eq!(cookies.len(), 1);
    assert_eq!(cookies[0].key, "sid");
    assert_eq!(cookies[0].value, "abc");
    let r = c.request_response(h).unwrap();
    assert_eq!(r.version, 20);
}
