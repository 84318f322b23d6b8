//! Messages of a JSON-RPC protocol in the style of the Language Server
//! Protocol: the message model, identifiers, the JSON envelope that carries a
//! message, and the `Content-Length` framing that carries envelopes over a
//! byte stream.

pub mod envelope;
pub mod framing;
pub mod id;
pub mod message;
