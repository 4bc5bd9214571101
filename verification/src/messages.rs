//! The messages the echo service exchanges.

use vstd::prelude::*;

verus! {

/// A request carrying the text to echo.
#[derive(Debug)]
pub struct EchoRequest {
    /// The payload to echo back.
    pub message: String,
}

/// A response carrying an echoed text.
#[derive(Debug)]
pub struct EchoResponse {
    /// The echoed payload, unchanged.
    pub message: String,
}

} // verus!
