//! Mailbox triage: rule matching over fetched messages, MIME extraction,
//! date ordering, and the command sequence of one mail session, as
//! verified state machines that a thin driver feeds with server replies.

pub mod coordinator;
pub mod credentials;
pub mod dates;
pub mod executor;
pub mod message;
pub mod modes;
pub mod text;
pub mod rules;
pub mod session;
pub mod settings;
