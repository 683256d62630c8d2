//! The first web socket connector, which sends no bearer token.
use vstd::prelude::*;

verus! {

/// Connects to web sockets.
#[derive(Debug, Clone)]
pub struct WsConnector;

impl WsConnector {
    /// The connector.
    pub fn new() -> (connector: Self)
        ensures
            connector == WsConnector,
    {
        WsConnector
    }
}

/// Why a connection could not be opened.
#[derive(Debug)]
pub enum ConnectError {
    /// The web socket failed.
    Tungstenite(tungstenite::Error),
}

} // verus!
