//! Core of a minimal XML-streaming message relay.
//!
//! Clients register an identifier, open an XML stream, and send `message`
//! stanzas addressed to other registered identifiers; the relay extracts the
//! message body and forwards its raw bytes to the addressed client's
//! connection. This crate holds the verified logic: the shared session
//! registry, the incremental stream decoder, the router, and the
//! per-connection session rules. All socket handling lives outside, in the
//! surrounding program, which drives these types with plain byte values.

pub mod decoder;
pub mod registry;
pub mod router;
pub mod session;
pub mod text;
pub mod xml;
