//! Per-format metadata readers: each submodule parses one image container
//! format into an immutable metadata record, without decoding pixel data.

pub mod gif;
pub mod jpeg;
pub mod png;
pub mod webp;
