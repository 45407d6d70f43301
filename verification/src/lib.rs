//! Client-side logic for publishing to and reading from an IOTA Streams
//! channel: resolving message links, building message payloads, generating
//! author seeds, and the decisions a subscriber takes while it receives the
//! messages found at a link.

pub mod author;
pub mod link;
pub mod payload;
pub mod reception;
pub mod seed;
