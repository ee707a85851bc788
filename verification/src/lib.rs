//! Core of a real-time scene renderer: groups transformed model instances by
//! shared mesh into instanced draws, assembles per-pass uniform constants,
//! sequences the shadow and main passes as recorded GPU commands, and builds
//! stage-specific shader sources from annotated source text.
//!
//! Scalar quantities coming from the surrounding math library are carried as
//! opaque 32-bit words; this crate never interprets them, it only routes and
//! packs them. Device work is modelled as commands recorded into explicit
//! logs, which the embedding replays against the real graphics API.

pub mod batch;
pub mod bytes;
pub mod global;
pub mod gpu;
pub mod render;
pub mod shader;
pub mod space;
