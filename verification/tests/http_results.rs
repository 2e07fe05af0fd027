use rust_net::http::should_read_body;
use rust_net::http::normalize_response;
use rust_net::http::BodyRead;
use rust_net::http::HttpEvent;
use rust_net::http::HttpVersion;
use rust_net::http::Pair;
use rust_net::http::RequestResponse;
use rust_net::http::RespResultType;
use rust_net::http::ResponseData;

#[test]
fn body_is_read_only_on_success_status() {
    assert!(!should_read_body(199));
    assert!(should_read_body(200));
    assert!(should_read_body(204));
    assert!(should_read_body(299));
    assert!(!should_read_body(300));
    assert!(!should_read_body(404));
    assert!(!should_read_body(500));
}

#[test]
fn success_response_keeps_body() {
    let event = HttpEvent::Response {
        status: 200,
        version: HttpVersion::Http11,
        cookies: Vec::new(),
        body: BodyRead::Bytes(vec![10, 20]),
    };
    let r = normalize_response(event, 77);
    assert_eq!(r.create_time, 77);
    match r.resp {
        RespResultType::Data(d) => {
            assert_eq!(d.status, 200);
            assert_eq!(d.data, vec![10, 20]);
        }
        RespResultType::Error(_) => panic!("expected a response"),
    }
}

#[test]
fn non_success_response_drops_body() {
    let event = HttpEvent::Response {
        status: 404,
        version: HttpVersion::Http2,
        cookies: vec![Pair {
            key: String::from("k"),
            value: String::from("v"),
        }],
        body: BodyRead::NotRead,
    };
    let r = normalize_response(event, 1);
    match r.resp {
        RespResultType::Data(d) => {
            assert_eq!(d.status, 404);
            assert!(d.data.is_empty());
            assert_eq!(d.cookies.len(), 1);
            assert_eq!(d.cookies[0].key, "k");
        }
        RespResultType::Error(_) => panic!("a non-success status still resolves as a response"),
    }
}

#[test]
fn body_read_failure_resolves_to_failure() {
    let event = HttpEvent::Response {
        status: 200,
        version: HttpVersion::Http11,
        cookies: Vec::new(),
        body: BodyRead::Failed(String::from("truncated")),
    };
    let r = normalize_response(event, 9);
    match r.resp {
        RespResultType::Error(m) => assert_eq!(m, "truncated"),
        RespResultType::Data(_) => panic!("expected a failure"),
    }
}

#[test]
fn transport_failure_resolves_to_failure() {
    let r = normalize_response(HttpEvent::TransportError(String::from("tls handshake")), 3);
    assert_eq!(r.create_time, 3);
    match r.resp {
        RespResultType::Error(m) => assert_eq!(m, "tls handshake"),
        RespResultType::Data(_) => panic!("expected a failure"),
    }
}

#[test]
fn version_codes_for_every_version() {
    let codes = [
        (HttpVersion::Http09, 9),
        (HttpVersion::Http10, 10),
        (HttpVersion::Http11, 11),
        (HttpVersion::Http2, 20),
        (HttpVersion::Http3, 30),
        (HttpVersion::Other, 1),
    ];
    for (version, code) in codes {
        let d = ResponseData {
            status: 200,
            data: Vec::new(),
            version,
            cookies: Vec::new(),
        };
        assert_eq!(RequestResponse::from(&d).version, code);
    }
}

#[test]
fn packaged_response_copies_body() {
    let d = ResponseData {
        status: 206,
        data: vec![1, 2, 3, 4],
        version: HttpVersion::Http3,
        cookies: Vec::new(),
    };
    let r = RequestResponse::from(&d);
    assert_eq!(r.status, 206);
    assert_eq!(r.version, 30);
    assert_eq!(r.data, vec![1, 2, 3, 4]);
    // the original data is untouched
    assert_eq!(d.data, vec![1, 2, 3, 4]);
}
