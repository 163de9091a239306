//! Device-side array expressions: the building blocks that turn an
//! iterator-shaped computation into kernel source text.

pub mod iterator;
