//! Peer discovery over multicast DNS for a content-addressed replication
//! protocol.
//!
//! Processes that share a discovery key meet under a rendezvous name on the
//! local network. Each broadcasts a question for TXT records under that
//! name and answers the questions of the others with a record that carries
//! its port and its token. The modules, leaves first:
//!
//! - [`encoding`]: base64, hexadecimal, big-endian and UTF-8, as the crates
//!   that do them are trusted to do them.
//! - [`peer`]: a peer and the two TXT fields that announce it.
//! - [`dns`]: the part of a DNS message that discovery reads and writes.
//! - [`rendezvous`]: the rendezvous name of a discovery key.
//! - [`discovery`]: the engine, from events to actions.
//! - [`table`]: the consumer's table of peers seen.
//! - [`crypto`]: key pairs, discovery keys and tokens.

pub mod crypto;
pub mod discovery;
pub mod dns;
pub mod encoding;
pub mod peer;
pub mod rendezvous;
pub mod table;
