//! Reading metadata (dimensions, color model, frame and block structure) from
//! image container formats — JPEG, PNG, GIF, WebP/RIFF and TIFF — without
//! decoding any pixel data.
//!
//! The parsers work over in-memory byte buffers.  The RIFF and TIFF readers
//! expose cursor protocols so a caller can stop as soon as it has what it
//! needs; the per-format `load` functions drive those cursors to fill one
//! immutable metadata record per format.

pub mod common;
pub mod formats;
pub mod generic;
pub mod types;
pub mod utils;

pub use crate::generic::markers;
pub use crate::generic::{load, load_from_buf, GenRec, GenericMetadata};
pub use crate::types::{Dimensions, Error, ErrorKind};
