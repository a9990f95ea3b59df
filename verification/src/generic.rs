//! Format sniffing and the generic metadata record.
//!
//! [`load`] tries the candidate formats in the order PNG, GIF, JPEG —
//! JPEG last, because it has no fixed magic signature and a short header
//! scan can false-positive on other formats — rewinding the reader to the
//! start before each attempt, so no offset leaks from a failed attempt
//! into the next.  The first format that parses wins.

pub mod markers;

use vstd::prelude::*;

use crate::formats::{gif, jpeg, png};
use crate::generic::markers::MetadataMarker;
use crate::types::{Dimensions, Error, ErrorKind};
use crate::utils::ByteReader;

verus! {

/// Metadata loaded from a buffer whose format was determined
/// automatically.
#[derive(Clone, PartialEq, Debug)]
pub enum GenericMetadata {
    Png(png::Metadata),
    Gif(gif::Metadata),
    Jpeg(jpeg::Metadata),
}

/// Ghost image of a [`GenericMetadata`].
pub enum GenRec {
    Png(png::Metadata),
    Gif(gif::MetadataRec),
    Jpeg(jpeg::Metadata),
}

impl View for GenericMetadata {
    type V = GenRec;

    open spec fn view(&self) -> GenRec {
        match self {
            GenericMetadata::Png(m) => GenRec::Png(*m),
            GenericMetadata::Gif(m) => GenRec::Gif(m@),
            GenericMetadata::Jpeg(m) => GenRec::Jpeg(*m),
        }
    }
}

/// The sniffing model over the whole buffer `d`: the first of PNG, GIF
/// and JPEG whose parse succeeds, each attempted from the start of `d`;
/// when all three fail, `InvalidFormat`.
pub open spec fn spec_sniff(d: Seq<u8>) -> Result<GenRec, ErrorKind> {
    if png::spec_load(d) is Ok {
        Ok(GenRec::Png(png::spec_load(d)->Ok_0))
    } else if gif::spec_load(d) is Ok {
        Ok(GenRec::Gif(gif::spec_load(d)->Ok_0))
    } else if jpeg::spec_load(d) is Ok {
        Ok(GenRec::Jpeg(jpeg::spec_load(d)->Ok_0))
    } else {
        Err(ErrorKind::InvalidFormat)
    }
}

impl GenericMetadata {
    /// The image dimensions from the contained metadata.
    pub fn dimensions(&self) -> (r: Dimensions)
        ensures
            r == match *self {
                GenericMetadata::Png(m) => m.dimensions,
                GenericMetadata::Gif(m) => m.dimensions,
                GenericMetadata::Jpeg(m) => m.dimensions,
            },
    {
        match self {
            GenericMetadata::Png(m) => m.dimensions,
            GenericMetadata::Gif(m) => m.dimensions,
            GenericMetadata::Jpeg(m) => m.dimensions,
        }
    }

    /// A MIME type string for the contained metadata's image type.
    pub fn mime_type(&self) -> (r: &'static str)
        ensures
            r@ == match *self {
                GenericMetadata::Png(_) => "image/png"@,
                GenericMetadata::Gif(_) => "image/gif"@,
                GenericMetadata::Jpeg(_) => "image/jpeg"@,
            },
    {
        match self {
            GenericMetadata::Png(_) => "image/png",
            GenericMetadata::Gif(_) => "image/gif",
            GenericMetadata::Jpeg(_) => "image/jpeg",
        }
    }

    /// Converts this value to the specific metadata type by value, or
    /// hands it back unchanged.
    pub fn into<T: MetadataMarker>(self) -> (r: Result<T::Metadata, GenericMetadata>)
        ensures
            r is Ok <==> T::spec_matches(&self),
            r matches Ok(m) ==> T::spec_wraps(&m, &self),
            r matches Err(g) ==> g == self,
    {
        T::from_generic(self)
    }

    /// Views this value as the specific metadata type by reference.
    pub fn as_ref<T: MetadataMarker>(&self) -> (r: Option<&T::Metadata>)
        ensures
            r is Some <==> T::spec_matches(self),
            r matches Some(m) ==> T::spec_wraps(m, self),
    {
        T::from_generic_ref(self)
    }
}

/// Determines the format of the buffered image and loads its metadata,
/// trying PNG, then GIF, then JPEG, rewinding before each attempt.
pub fn load(r: &mut ByteReader) -> (res: Result<GenericMetadata, Error>)
    ensures
        final(r).data@ == old(r).data@,
        final(r).wf(),
        match spec_sniff(old(r).data@) {
            Ok(g) => res matches Ok(md) && md@ == g,
            Err(k) => res matches Err(e) && e.kind() == k,
        },
{
    r.rewind();
    proof {
        assert(r.rem() =~= r.data@);
    }
    match png::Metadata::load(r) {
        Ok(md) => {
            return Ok(GenericMetadata::Png(md));
        },
        Err(_) => {},
    }
    r.rewind();
    proof {
        assert(r.rem() =~= r.data@);
    }
    match gif::Metadata::load(r) {
        Ok(md) => {
            return Ok(GenericMetadata::Gif(md));
        },
        Err(_) => {},
    }
    r.rewind();
    proof {
        assert(r.rem() =~= r.data@);
    }
    match jpeg::Metadata::load(r) {
        Ok(md) => {
            return Ok(GenericMetadata::Jpeg(md));
        },
        Err(_) => {},
    }
    Err(Error::InvalidFormat(Some("unknown or unsupported file type")))
}

/// Loads metadata for an image held in a byte buffer, determining its
/// format automatically.
pub fn load_from_buf(b: &[u8]) -> (res: Result<GenericMetadata, Error>)
    ensures
        match spec_sniff(b@) {
            Ok(g) => res matches Ok(md) && md@ == g,
            Err(k) => res matches Err(e) && e.kind() == k,
        },
{
    let mut r = ByteReader::new(vstd::slice::slice_to_vec(b));
    load(&mut r)
}

} // verus!
