//! Client-side session layer for the WAMP (Web Application Messaging
//! Protocol): the authenticated-handshake state machine, the request/response
//! correlation tables, and the dispatch logic that routes inbound protocol
//! frames to the right pending operation or registered procedure handler.
//!
//! The engine here is a pure state machine: it decides what frame to send and
//! how to update its tables, while the surrounding program owns the transport
//! and performs the actual sends and receives.

pub mod common;
pub mod laws;
pub mod messages;
pub mod options;
pub mod session;
pub mod table;

pub use common::ClientRole;
pub use common::ServerRole;
pub use common::is_valid_strict_uri;
pub use messages::{Arg, ErrorDetails, Msg, WampDict, WampError, WampId};
pub use options::{InvokeOption, MatchOption, RegistrationOptionItem, RegistrationOptions};
pub use session::{Core, Dispatch, HandshakeStep, Request, SessionState};
