//! Core of a mail-transfer protocol server carried over a multiplexed
//! transport: the session token scheme, the session store, the connection
//! registry, the command dispatcher, and the state machines of the control
//! stream and of attachment uploads.

pub mod attachment;
pub mod config;
pub mod connection;
pub mod control;
pub mod dispatch;
pub mod protocol;
pub mod session;
pub mod token;

pub use config::Config;
pub use session::{create_session_store, SessionManager, SessionStore, WmtpSession};
pub use token::{generate_ephemeral_token, generate_identity_token, verify_identity_token};
