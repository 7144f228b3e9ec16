//! A trace log for a peer-to-peer node. Each protocol event (a node starts or
//! shuts down, a message, a challenge or a handshake message is sent) is
//! stamped with the wall clock, encoded as one self-delimiting binary record
//! and appended to a log; a reader takes the log apart again, record by
//! record, and tells a log that ends in the middle of a record from one that
//! ends clean.
//!
//! * [`event`] is what can be recorded, [`rpc`] and [`peer`] what the node
//!   hands in.
//! * [`varint`], [`wire`], [`text`] and [`schema`] define the wire form;
//!   [`encode`] and [`decode`] write and read it, [`record`] puts the length
//!   in front.
//! * [`log`] is the append-only log and its reader, [`clock`] the timestamps,
//!   [`emit`] one operation for each kind of event.
//! * [`round_trip`] and [`laws`] hold what is proved of all of it.

pub mod clock;
pub mod decode;
pub mod emit;
pub mod encode;
pub mod event;
pub mod laws;
pub mod log;
pub mod peer;
pub mod record;
pub mod round_trip;
pub mod rpc;
pub mod schema;
pub mod text;
pub mod varint;
pub mod wire;
