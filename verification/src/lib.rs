//! A minimal session-authentication service.
//!
//! Callers are identified by an opaque, externally issued identity. The
//! [`session::SessionStore`] records one session per identity: `login`
//! creates or overwrites the record, `logout` marks it unauthenticated,
//! and `is_session_valid` applies the expiry policy (a fixed 24-hour
//! window from the login timestamp). The [`http`] module builds the
//! fixed-header HTTP responses served next to the session operations.

pub mod http;
pub mod session;
