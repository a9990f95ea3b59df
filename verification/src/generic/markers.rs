//! Metadata marker types: a convenient handle per concrete image format,
//! integrated with [`GenericMetadata`](crate::generic::GenericMetadata)
//! for safe downcasting.

use vstd::prelude::*;

use crate::formats::{gif, jpeg, png};
use crate::generic::GenericMetadata;
use crate::types::{Error, ErrorKind};

verus! {

/// A marker for one concrete metadata type.
pub trait MetadataMarker: Sized {
    type Metadata: View;

    /// What loading this format's metadata from the bytes `b` yields.
    spec fn spec_load_from_buf(b: Seq<u8>) -> Result<<Self::Metadata as View>::V, ErrorKind>;

    /// Whether the generic value holds this marker's format.
    spec fn spec_matches(gmd: &GenericMetadata) -> bool;

    /// Whether the generic value is exactly this marker's variant wrapped
    /// around the metadata `m`.
    spec fn spec_wraps(m: &Self::Metadata, gmd: &GenericMetadata) -> bool;

    /// Converts a generic value into the concrete metadata type, or hands
    /// the generic value back unchanged when it holds another format.
    fn from_generic(gmd: GenericMetadata) -> (r: Result<Self::Metadata, GenericMetadata>)
        ensures
            r is Ok <==> Self::spec_matches(&gmd),
            r matches Ok(m) ==> Self::spec_wraps(&m, &gmd),
            r matches Err(g) ==> g == gmd,
    ;

    /// Views a generic value as the concrete metadata type, if it holds
    /// this format.
    fn from_generic_ref(gmd: &GenericMetadata) -> (r: Option<&Self::Metadata>)
        ensures
            r is Some <==> Self::spec_matches(gmd),
            r matches Some(m) ==> Self::spec_wraps(m, gmd),
    ;

    /// Loads metadata of the concrete format from a byte buffer.
    fn load_from_buf(b: &[u8]) -> (r: Result<Self::Metadata, Error>)
        ensures
            match Self::spec_load_from_buf(b@) {
                Ok(m) => r matches Ok(got) && got@ == m,
                Err(k) => r matches Err(e) && e.kind() == k,
            },
    ;
}

/// Marker for JPEG metadata.
pub struct Jpeg;

/// Marker for PNG metadata.
pub struct Png;

/// Marker for GIF metadata.
pub struct Gif;

impl MetadataMarker for Jpeg {
    type Metadata = jpeg::Metadata;

    open spec fn spec_load_from_buf(b: Seq<u8>) -> Result<jpeg::Metadata, ErrorKind> {
        jpeg::spec_load(b)
    }

    open spec fn spec_matches(gmd: &GenericMetadata) -> bool {
        gmd is Jpeg
    }

    open spec fn spec_wraps(m: &jpeg::Metadata, gmd: &GenericMetadata) -> bool {
        *gmd == GenericMetadata::Jpeg(*m)
    }

    fn from_generic(gmd: GenericMetadata) -> Result<jpeg::Metadata, GenericMetadata> {
        match gmd {
            GenericMetadata::Jpeg(md) => Ok(md),
            other => Err(other),
        }
    }

    fn from_generic_ref(gmd: &GenericMetadata) -> Option<&jpeg::Metadata> {
        match gmd {
            GenericMetadata::Jpeg(md) => Some(md),
            _ => None,
        }
    }

    fn load_from_buf(b: &[u8]) -> Result<jpeg::Metadata, Error> {
        jpeg::Metadata::load_from_buf(b)
    }
}

impl MetadataMarker for Png {
    type Metadata = png::Metadata;

    open spec fn spec_load_from_buf(b: Seq<u8>) -> Result<png::Metadata, ErrorKind> {
        png::spec_load(b)
    }

    open spec fn spec_matches(gmd: &GenericMetadata) -> bool {
        gmd is Png
    }

    open spec fn spec_wraps(m: &png::Metadata, gmd: &GenericMetadata) -> bool {
        *gmd == GenericMetadata::Png(*m)
    }

    fn from_generic(gmd: GenericMetadata) -> Result<png::Metadata, GenericMetadata> {
        match gmd {
            GenericMetadata::Png(md) => Ok(md),
            other => Err(other),
        }
    }

    fn from_generic_ref(gmd: &GenericMetadata) -> Option<&png::Metadata> {
        match gmd {
            GenericMetadata::Png(md) => Some(md),
            _ => None,
        }
    }

    fn load_from_buf(b: &[u8]) -> Result<png::Metadata, Error> {
        png::Metadata::load_from_buf(b)
    }
}

impl MetadataMarker for Gif {
    type Metadata = gif::Metadata;

    open spec fn spec_load_from_buf(b: Seq<u8>) -> Result<gif::MetadataRec, ErrorKind> {
        gif::spec_load(b)
    }

    open spec fn spec_matches(gmd: &GenericMetadata) -> bool {
        gmd is Gif
    }

    open spec fn spec_wraps(m: &gif::Metadata, gmd: &GenericMetadata) -> bool {
        *gmd == GenericMetadata::Gif(*m)
    }

    fn from_generic(gmd: GenericMetadata) -> Result<gif::Metadata, GenericMetadata> {
        match gmd {
            GenericMetadata::Gif(md) => Ok(md),
            other => Err(other),
        }
    }

    fn from_generic_ref(gmd: &GenericMetadata) -> Option<&gif::Metadata> {
        match gmd {
            GenericMetadata::Gif(md) => Some(md),
            _ => None,
        }
    }

    fn load_from_buf(b: &[u8]) -> Result<gif::Metadata, Error> {
        gif::Metadata::load_from_buf(b)
    }
}

} // verus!
