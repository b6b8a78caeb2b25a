//! Build-side logic of the merve CommonJS lexer package, and a plain-value
//! model of the results the lexer hands back.
//!
//! - `target`: platform triples and architecture aliases.
//! - `amalgam`: flattening of a native source tree into self-contained units.
//! - `toolchain`: the per-target compiler configuration decisions.
//! - `orchestrator`: source mode versus artifact mode, and the artifact set.
//! - `lexer`: lexer error codes, exports, and the analysis of one parse.
//! - `error`: why a build stops.
//! - `text`: decimal rendering and character-level helpers.

pub mod amalgam;
pub mod error;
pub mod lexer;
pub mod orchestrator;
pub mod target;
pub mod text;
pub mod toolchain;
