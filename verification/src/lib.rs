//! Guest-side core of an edge-function runtime.
//!
//! A script is compiled into a sandboxed module that reaches its host through
//! a handful of imported functions. This library holds what that module and
//! its compiler decide:
//!
//! - [`memory`] and [`exchange`]: the handle discipline for crossing the host
//!   boundary, as a state machine that a driver carries out;
//! - [`wire`], [`headers`] and [`fetch`]: the wire records of an outbound
//!   fetch, their byte format, and the fetch itself;
//! - [`value`] and [`convert`]: the tagged value that crosses between script
//!   engine and library, and the steps that build it inside the engine;
//! - [`globals`] and [`text`]: the bindings that scripts find in their global
//!   namespace;
//! - [`engine`]: the life of one instance and its two entry points;
//! - [`pipeline`]: the build from source to final artifact.
//!
//! Nothing here performs input or output. Whoever drives a state machine
//! performs each action it asks for and reports what came of it.

pub mod convert;
pub mod engine;
pub mod exchange;
pub mod fetch;
pub mod globals;
pub mod headers;
pub mod memory;
pub mod pipeline;
pub mod text;
pub mod value;
pub mod wire;
