//! A connection handler that gathers bytes until `CR LF CR LF` and answers with a
//! plain-text reply echoing what it received.

pub mod framing;
pub mod handler;
pub mod response;

pub use framing::contains_terminator;
pub use handler::{Action, ConnectionHandler, Event, Phase, TRANSFER_WINDOW};
pub use response::{build_response, respond};
