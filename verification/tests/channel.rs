use tonic_ws_transport::connection::{ConnectError, WsConnector};
use tonic_ws_transport::{Channel, Endpoint};

#[test]
fn channel_builds_endpoints() {
    let _e: Endpoint = Channel::builder(http::Uri::from_static("ws://localhost:1"));
    let _e: Endpoint = Channel::from_static("ws://localhost:1");
    assert!(Channel::from_shared("ws://localhost:1".to_string()).is_ok());
    assert!(Channel::from_shared(bytes::Bytes::from_static(b"not a uri")).is_ok());
}

#[test]
fn endpoint_accepts_every_address() {
    let _e: Endpoint = Endpoint::from_static("ws://localhost:1");
    assert!(Endpoint::from_shared("anything at all").is_ok());
}

#[test]
fn first_connector_is_plain() {
    let connector = WsConnector::new();
    let _copy = connector.clone();
    let e = ConnectError::Tungstenite(tungstenite::Error::ConnectionClosed);
    assert!(format!("{:?}", e).contains("ConnectionClosed"));
}
