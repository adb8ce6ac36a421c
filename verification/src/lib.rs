//! Bidirectional codec between the model-card subtree of a software
//! bill of materials and its XML wire form.
//!
//! The wire form is a flat stream of open/close/text events.  Decoding
//! reconstructs structured entities from that stream, tolerating unknown
//! ordering of optional children, validating required fields and reporting
//! errors with their element context; encoding is a pre-order tree walk
//! that emits events in the schema's canonical field order.  Both
//! directions are specified against mathematical views of the entities and
//! of the event stream, and the round-trip between them is proved.

pub mod adapt;
pub mod canonical;
pub mod decode;
pub mod encode;
pub mod errors;
pub mod events;
pub mod laws;
pub mod model;
pub mod xmlio;
