//! A remote-command client: a registration handshake, a table of command
//! handlers and the decisions of the read/dispatch/respond cycle, over JSON
//! envelopes of the form `{"type": ..., "payload": ...}`.

pub mod codec;
pub mod ws;
