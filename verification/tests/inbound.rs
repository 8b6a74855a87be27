use sidecar_proxy::harness::{
    admin_status, http_status, is_accepted, is_available, settled, Condition, WatchEvent,
    NOT_FOUND, OK,
};
use sidecar_proxy::inbound::{trace_labels, HttpRequestSpec, Method, RequestParts};
use sidecar_proxy::tls::client::AlpnProtocols;
use sidecar_proxy::tls::{NegotiatedProtocol, NegotiatedProtocolRef};

fn request(uri: &[u8], name: &[u8], value: &[u8], http_method: bool) -> HttpRequestSpec {
    HttpRequestSpec {
        uri: uri.to_vec(),
        header_name: name.to_vec(),
        header_value: value.to_vec(),
        http_method,
    }
}

fn condition(type_: &str, status: &str) -> Condition {
    Condition { type_: type_.to_string(), status: status.to_string() }
}

#[test]
fn inbound_traces_are_labelled() {
    let labels = trace_labels();
    assert_eq!(labels.get("direction"), Some(&"inbound".to_string()));
    assert_eq!(labels.entries().len(), 1);
}

#[test]
fn protocol_is_described_as_text_when_it_is_text() {
    assert_eq!(NegotiatedProtocolRef(b"h2").describe(), "\"h2\"");
    assert_eq!(NegotiatedProtocolRef(b"http/1.1").describe(), "\"http/1.1\"");
    assert_eq!(NegotiatedProtocolRef(b"").describe(), "\"\"");
    assert_eq!(NegotiatedProtocolRef(b"a\"b\n").describe(), "\"a\\\"b\\n\"");
    assert_eq!(NegotiatedProtocol("é".as_bytes().to_vec()).describe(), "\"é\"");
}

#[test]
fn protocol_is_described_as_numbers_when_it_is_no_text() {
    assert_eq!(NegotiatedProtocolRef(&[0xff]).describe(), "[255]");
    assert_eq!(NegotiatedProtocolRef(&[0, 159, 146, 150]).describe(), "[0, 159, 146, 150]");
    assert_eq!(NegotiatedProtocol(vec![104, 50, 0xc0]).describe(), "[104, 50, 192]");
    // An encoding that stops short is no text either.
    assert_eq!(NegotiatedProtocolRef(&[0xc3]).describe(), "[195]");
}

#[test]
fn description_matches_the_standard_formatting() {
    let samples: [&[u8]; 4] = [b"h2", b"tab\there", &[1, 2, 3], &[10, 200, 7]];
    for sample in samples {
        let expected = match std::str::from_utf8(sample) {
            Ok(text) => format!("{:?}", text),
            Err(_) => format!("{:?}", sample),
        };
        assert_eq!(NegotiatedProtocolRef(sample).describe(), expected);
    }
}

#[test]
fn alpn_protocols_are_described_as_a_tuple() {
    assert_eq!(AlpnProtocols(Vec::new()).describe(), "AlpnProtocols");
    assert_eq!(AlpnProtocols(vec![b"h2".to_vec()]).describe(), "AlpnProtocols(\"h2\")");
    assert_eq!(
        AlpnProtocols(vec![b"h2".to_vec(), vec![0xff, 1], b"http/1.1".to_vec()]).describe(),
        "AlpnProtocols(\"h2\", [255, 1], \"http/1.1\")"
    );
}

#[test]
fn raw_request_is_described_field_by_field() {
    assert_eq!(
        request(b"/", b"x-id", &[0xff], true).describe(),
        "HttpRequestSpec { http_method: true, uri: \"/\", header_name: \"x-id\", header_value: [255] }"
    );
    assert_eq!(
        request(&[0x80, 0x81], b"", b"v", false).describe(),
        "HttpRequestSpec { http_method: false, uri: [128, 129], header_name: \"\", header_value: \"v\" }"
    );
}

#[test]
fn raw_request_of_texts_makes_a_request() {
    assert_eq!(
        request(b"/users", b"accept", b"*/*", true).parts(),
        Some(RequestParts {
            method: Method::Get,
            uri: "/users",
            header_name: "accept",
            header_value: "*/*"
        })
    );
    assert_eq!(
        request(b"", b"", b"", false).parts(),
        Some(RequestParts { method: Method::Post, uri: "", header_name: "", header_value: "" })
    );
}

#[test]
fn raw_request_with_bytes_that_are_no_text_makes_none() {
    assert_eq!(request(&[0xff], b"accept", b"*/*", true).parts(), None);
    assert_eq!(request(b"/", &[0xff], b"*/*", true).parts(), None);
    assert_eq!(request(b"/", b"accept", &[0xff], false).parts(), None);
}

#[test]
fn admin_server_answers_health_probes() {
    for method in ["GET", "HEAD"] {
        for path in ["/live", "/ready"] {
            assert_eq!(admin_status(method, path), OK);
        }
    }
    assert_eq!(OK, 200);
}

#[test]
fn admin_server_knows_nothing_else() {
    assert_eq!(NOT_FOUND, 404);
    assert_eq!(admin_status("POST", "/live"), NOT_FOUND);
    assert_eq!(admin_status("get", "/live"), NOT_FOUND);
    assert_eq!(admin_status("GET", "/"), NOT_FOUND);
    assert_eq!(admin_status("GET", "/live/"), NOT_FOUND);
    assert_eq!(admin_status("GET", "/request-summary"), NOT_FOUND);
    assert_eq!(admin_status("", ""), NOT_FOUND);
}

#[test]
fn test_server_summarizes_requests() {
    assert_eq!(http_status("/request-summary"), OK);
    assert_eq!(http_status("/request-summary/"), NOT_FOUND);
    assert_eq!(http_status("/live"), NOT_FOUND);
    assert_eq!(http_status(""), NOT_FOUND);
}

#[test]
fn definition_is_accepted_when_a_condition_says_so() {
    assert!(is_accepted(&vec![condition("NamesAccepted", "True")]));
    assert!(is_accepted(&vec![
        condition("Established", "False"),
        condition("NamesAccepted", "True")
    ]));
    assert!(!is_accepted(&vec![condition("NamesAccepted", "False")]));
    assert!(!is_accepted(&vec![condition("Established", "True")]));
    assert!(!is_accepted(&vec![condition("NamesAccepted", "true")]));
    assert!(!is_accepted(&Vec::new()));
}

#[test]
fn deployment_is_available_with_a_replica() {
    assert!(is_available(Some(1)));
    assert!(is_available(Some(i32::MAX)));
    assert!(!is_available(Some(0)));
    assert!(!is_available(Some(-1)));
    assert!(!is_available(None));
}

#[test]
fn watch_ends_with_a_ready_resource() {
    assert_eq!(settled(WatchEvent::Added("crd"), true), Some("crd"));
    assert_eq!(settled(WatchEvent::Modified("crd"), true), Some("crd"));
    assert_eq!(settled(WatchEvent::Added("crd"), false), None);
    assert_eq!(settled(WatchEvent::Modified("crd"), false), None);
    assert_eq!(settled(WatchEvent::Deleted("crd"), true), None);
    assert_eq!(settled(WatchEvent::<&str>::Bookmark, true), None);
    assert_eq!(settled(WatchEvent::<&str>::Error, true), None);
}
