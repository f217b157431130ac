//! Session-refreshing price agent.
//!
//! The library holds the verified core of a client that fetches the current
//! market price of an asset from a web page guarded by an anti-bot check:
//! the price-extraction scan over the raw page bytes, the session data
//! built from the cookie-issuing side channel, and the retry/refresh
//! protocol that decides when a request is retried with a fresh session.
//! The surrounding process (HTTP transport, clocks, the shared lock around
//! the live client) drives these functions from outside.

pub mod extract;
pub mod grant;
pub mod protocol;
pub mod session;
