//! Flow control for a mail proxy: which upstream server a mail session is sent to.
//!
//! A mail proxy such as nginx asks, once per session, where the session is to go, and is answered
//! from a small routing table that maps mail domains to servers. A client that logs in is routed
//! by the domain of its user name. Mail without a login is routed by the domain of the recipient
//! or, where that is not managed, by the domain of the sender. Credentials and mail are not
//! checked here: that is left to the upstream server.
//!
//! - [`config`] is the routing table, and the protocols that it distinguishes.
//! - [`http`] decides on a request and puts the decision into the headers of the answer.
//! - [`envelope`] reads addresses out of the headers of a request.
//! - [`error`] and [`smtp_status`] are the refusals, their messages and their reply codes.
//! - [`text`] is what the contracts say of text.
//! - [`outside`] is what is relied on without proof.
//! - [`laws`] is what holds of all these together.
//! - [`behaviour`] is what all these come to, in terms of bytes, characters and table entries.

pub mod behaviour;
pub mod config;
pub mod envelope;
pub mod error;
pub mod http;
pub mod laws;
pub mod outside;
pub mod smtp_status;
pub mod text;
