//! A safe, verified high-level layer over an OpenCL-style, handle-based
//! compute API: platforms, devices, contexts, command queues, memory objects,
//! programs and kernels.
//!
//! The native runtime exposes resources as opaque handles manipulated through
//! explicit retain/release reference counting, and answers "get info" queries
//! through a uniform two-phase (size, then data) calling convention. This
//! crate models that native boundary as an explicit, executable conformance
//! model ([`host::Host`]), states the convention as contracts on the model's
//! entry points, and proves the wrapper layer correct against them: the
//! generic query engine, the retain-on-clone / release-on-drop discipline
//! (with the asymmetric root vs. sub-device rule), and the capability-gated
//! device partition state machine.
//!
//! Text crossing the native boundary is modeled as C-string text: seven-bit
//! bytes, one byte per character, never holding a null terminator. Wider
//! text is excluded by the text well-formedness of the runtime's records
//! and by the preconditions of the functions that take strings in.

pub mod array;
pub mod bytes;
pub mod codes;
pub mod command_queue;
pub mod context;
pub mod device;
pub mod errors;
pub mod host;
pub mod information;
pub mod kernel;
pub mod laws;
pub mod mem;
pub mod partition;
pub mod platform;
pub mod program;
pub mod text;
