use request_logging_proxy::config::LoggerType;
use request_logging_proxy::proxy::{route_request, ProxyAction, BAD_REQUEST};
use request_logging_proxy::text::push_decimal;

#[test]
fn ordinary_requests_are_forwarded() {
    assert_eq!(route_request("GET", None), ProxyAction::Forward);
    assert_eq!(route_request("POST", Some("example.com:80".to_string())), ProxyAction::Forward);
    assert_eq!(route_request("connect", None), ProxyAction::Forward);
}

#[test]
fn connect_is_tunnelled_to_its_authority() {
    assert_eq!(
        route_request("CONNECT", Some("www.domain.com:443".to_string())),
        ProxyAction::Tunnel { authority: "www.domain.com:443".to_string() }
    );
}

#[test]
fn connect_without_authority_is_refused() {
    assert_eq!(
        route_request("CONNECT", None),
        ProxyAction::Reject { status: BAD_REQUEST, body: "CONNECT must be to a socket address".to_string() }
    );
    assert_eq!(BAD_REQUEST, 400);
}

#[test]
fn logger_type_defaults_to_vscode() {
    assert_eq!(LoggerType::default(), LoggerType::Vscode);
    assert_eq!(LoggerType::Vscode.to_string(), "vscode");
}

#[test]
fn decimal_rendering_reads_back() {
    for n in [0u16, 7, 10, 99, 200, 404, 1000, 65535] {
        let mut s = String::from("x");
        push_decimal(&mut s, n);
        assert_eq!(s, format!("x{n}"));
        assert_eq!(s[1..].parse::<u16>().unwrap(), n);
    }
}
