//! The shapes of the chat delivery collaborator's requests and
//! responses.  The network calls themselves live outside the library;
//! these types give the driver a typed view of what comes back, and
//! the explicit outcome it proceeds on.

use std::collections::HashMap;
use vstd::prelude::*;

verus! {

/// The chat server messages are delivered through.
pub struct Matrix {
    pub server: String,
}

/// The server's supported-versions answer.
pub struct ClientVersionResponse {
    pub versions: Vec<String>,
    pub unstable_features: HashMap<String, bool>,
}

/// A successful login: the access token authorizes the message sends.
pub struct LoginResponse {
    pub user_id: String,
    pub access_token: String,
    pub home_server: String,
    pub device_id: String,
    pub well_known: HashMap<String, HashMap<String, String>>,
}

/// A reply that is either the expected payload or the server's error.
pub enum MatrixResponse<T> {
    Success(T),
    Failure(ErrorResponse),
}

/// A successful message send: the event the server recorded.
pub struct EventResponse {
    pub event_id: String,
}

/// The server's error payload.
pub struct ErrorResponse {
    pub errcode: String,
    pub error: String,
}

} // verus!
