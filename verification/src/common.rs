//! Readers for general-purpose container layouts shared by several image
//! formats: the RIFF chunk walker and the TIFF directory reader.

pub mod riff;
pub mod tiff;
