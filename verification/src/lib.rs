//! A small verified client library for browsing job advertisements from the
//! Swedish public employment service's search API.
//!
//! The library holds the logic of one interactive session: building the search
//! request, decoding the response into advertisement records, ranking and
//! annotating them for display, and classifying the user's commands. The
//! surrounding I/O (the HTTP transport, the terminal, the browser launch) is
//! left to the embedding application.

use vstd::prelude::*;

pub mod adverts;
pub mod dates;
pub mod decode;
pub mod render;
pub mod request;
pub mod session;

verus! {

/// The errors a session can end with or report.
#[derive(Debug)]
pub enum AmsError {
    /// The server could not be reached at the transport level.
    Network,
    /// The server answered with a non-success HTTP status.
    HttpStatus(u16),
    /// The response body was not a well-formed advertisement listing.
    Malformed,
    /// The platform browser could not be started.
    LaunchFailed,
}

impl AmsError {
    /// A user-facing description of the error.
    pub fn message(&self) -> (r: String)
        ensures
            self is Network ==> r@ == "Nework connectivity issues, server not reachable..."@,
            self is HttpStatus ==> r@ == "The server answered with an error status."@,
            self is Malformed ==> r@ == "Failed to parse json string"@,
            self is LaunchFailed ==> r@ == "Problem opening browser!"@,
    {
        match self {
            AmsError::Network => "Nework connectivity issues, server not reachable...".to_owned(),
            AmsError::HttpStatus(_) => "The server answered with an error status.".to_owned(),
            AmsError::Malformed => "Failed to parse json string".to_owned(),
            AmsError::LaunchFailed => "Problem opening browser!".to_owned(),
        }
    }
}

} // verus!
