//! Script-to-shape bridge: a sandboxed script describes a parametric
//! geometric shape; this library reconstructs a strongly-typed, finite,
//! recursively validated shape tree from whatever the script produced.
//!
//! The pieces, leaves first: `shape` is the algebra of shape variants
//! and their invariants; `value` models the untyped, self-describing
//! data a script hands back; `decode` rebuilds a shape from such a
//! value, defensively and within a recursion budget; `bridge` is the
//! catalogue of constructor operations a script may call through opaque
//! handles instead; `host` drives the script's lifecycle and decides
//! which export may be invoked; `handoff` packages the finished shape
//! for the external geometry processor. `laws` proves the decoder's
//! governing properties: it inverts the canonical encoding exactly,
//! bounds its recursion, and rejects malformed data deterministically.

pub mod bridge;
pub mod decode;
pub mod handoff;
pub mod host;
pub mod laws;
pub mod shape;
pub mod value;
