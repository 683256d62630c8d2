use tonic_ws_transport::transport::{ConnectRequest, Error, WsConnectionInfo, WsConnector};

fn uri() -> http::Uri {
    http::Uri::from_static("ws://127.0.0.1:3012/grpc")
}

fn authorization(request: &http::Request<()>) -> Option<String> {
    request
        .headers()
        .get(http::header::AUTHORIZATION)
        .map(|v| String::from_utf8(v.as_bytes().to_vec()).unwrap())
}

fn request(token: Option<&str>) -> Result<http::Request<()>, Error> {
    ConnectRequest {
        uri: uri(),
        bearer_token: token.map(|t| t.to_string()),
    }
    .into_http_request()
}

#[test]
fn request_without_token_has_no_authorization() {
    let request = request(None).unwrap();
    assert_eq!(request.method(), http::Method::GET);
    assert_eq!(request.uri(), &uri());
    assert_eq!(request.headers().len(), 0);
    assert_eq!(authorization(&request), None);
}

#[test]
fn request_with_token_carries_bearer_header() {
    let request = request(Some("abc.DEF-123")).unwrap();
    assert_eq!(request.method(), http::Method::GET);
    assert_eq!(request.uri(), &uri());
    assert_eq!(request.headers().len(), 1);
    assert_eq!(authorization(&request), Some("Bearer abc.DEF-123".to_string()));
}

#[test]
fn token_with_tab_and_unicode_is_accepted() {
    let request = request(Some("a\tb ü")).unwrap();
    assert_eq!(authorization(&request), Some("Bearer a\tb ü".to_string()));
}

#[test]
fn empty_token_is_accepted() {
    let request = request(Some("")).unwrap();
    assert_eq!(authorization(&request), Some("Bearer ".to_string()));
}

#[test]
fn token_with_newline_is_invalid() {
    assert!(matches!(request(Some("abc\ndef")), Err(Error::InvalidBearerToken(_))));
}

#[test]
fn token_with_del_is_invalid() {
    assert!(matches!(request(Some("abc\u{7f}")), Err(Error::InvalidBearerToken(_))));
}

#[test]
fn token_with_control_char_is_invalid() {
    assert!(matches!(request(Some("\u{1}")), Err(Error::InvalidBearerToken(_))));
}

#[test]
fn connector_without_resolver_sends_no_token() {
    let r = WsConnector::new().connect_request(uri());
    assert_eq!(r.uri, uri());
    assert!(r.bearer_token.is_none());
    assert_eq!(authorization(&r.into_http_request().unwrap()), None);
    let r = WsConnector::default().connect_request(uri());
    assert!(r.bearer_token.is_none());
}

#[test]
fn connector_asks_resolver_each_time() {
    let counter = std::sync::Arc::new(std::sync::atomic::AtomicUsize::new(0));
    let seen = counter.clone();
    let connector = WsConnector::with_bearer_resolver(move || {
        let n = seen.fetch_add(1, std::sync::atomic::Ordering::SeqCst);
        format!("token{}", n)
    });
    let first = connector.connect_request(uri());
    let second = connector.clone().connect_request(uri());
    assert_eq!(first.bearer_token.as_deref(), Some("token0"));
    assert_eq!(second.bearer_token.as_deref(), Some("token1"));
    assert_eq!(counter.load(std::sync::atomic::Ordering::SeqCst), 2);
    let first = first.into_http_request().unwrap();
    assert_eq!(authorization(&first), Some("Bearer token0".to_string()));
    assert_eq!(first.uri(), &uri());
}

#[test]
fn connector_with_invalid_token_fails() {
    let connector = WsConnector::with_bearer_resolver(|| "bad\r\ntoken".to_string());
    let res = connector.connect_request(uri()).into_http_request();
    assert!(matches!(res, Err(Error::InvalidBearerToken(_))));
}

#[test]
fn connection_info_is_empty() {
    let info = WsConnectionInfo::default();
    let _copy = info.clone();
}

#[test]
fn error_messages() {
    assert_eq!(Error::Js("oops".to_string()).message(), "Js error: oops");
    let e = Error::Tungstenite(tungstenite::Error::ConnectionClosed);
    assert_eq!(e.message(), tungstenite::Error::ConnectionClosed.to_string());
    let invalid = match request(Some("\n")) {
        Err(e) => e,
        Ok(_) => panic!("the token is invalid"),
    };
    assert_eq!(invalid.message(), "InvalidBearerToken");
}

#[test]
fn js_error_from_json() {
    let e = Error::from_js_json(Some("{\"a\":1}".to_string()));
    assert!(matches!(e, Error::Js(ref s) if s == "{\"a\":1}"));
    let e = Error::from_js_json(None);
    assert!(matches!(e, Error::Js(ref s) if s == "unknown"));
    assert_eq!(e.message(), "Js error: unknown");
}
