//! TIFF directory reader.
//!
//! A TIFF document begins with a 2-byte byte-order mark (`II` or `MM`), a
//! 16-bit magic number that must equal 42, and the 32-bit offset of the
//! first image file directory (IFD).  Each IFD is a 16-bit entry count,
//! that many fixed 12-byte entries, and the 32-bit offset of the next IFD
//! (0 meaning none).  An entry holds a tag, a type code, an item count and
//! a 4-byte value field which *is* the data when the total data size fits
//! in 4 bytes ("embedded") and otherwise is a byte offset to it
//! ("referenced").
//!
//! The reader follows the arena style: [`LazyIfds`] owns the bytes and the
//! byte order, while directories, entries and value cursors are small index
//! records whose methods take the owner by reference.  Every read is
//! independently positioned, so entries may be visited in any order.

use vstd::prelude::*;

use crate::types::{Error, ErrorKind};
use crate::utils::{
    find_byte, lemma_find_byte, spec_u16_at, spec_u32_at, spec_u64_at, u16_at, u32_at, u64_at,
    ByteOrder,
};

verus! {

/// TIFF entry type, as defined by the TIFF specification; codes outside
/// the 12 defined ones are preserved as `Unknown`.
#[derive(Debug, Copy, Clone, PartialEq, Eq, Structural)]
pub enum EntryType {
    Byte,
    Ascii,
    Short,
    Long,
    Rational,
    SignedByte,
    Undefined,
    SignedShort,
    SignedLong,
    SignedRational,
    Float,
    Double,
    Unknown(u16),
}

/// The entry type designated by a raw type code.
pub open spec fn spec_entry_type(n: u16) -> EntryType {
    if n == 1 {
        EntryType::Byte
    } else if n == 2 {
        EntryType::Ascii
    } else if n == 3 {
        EntryType::Short
    } else if n == 4 {
        EntryType::Long
    } else if n == 5 {
        EntryType::Rational
    } else if n == 6 {
        EntryType::SignedByte
    } else if n == 7 {
        EntryType::Undefined
    } else if n == 8 {
        EntryType::SignedShort
    } else if n == 9 {
        EntryType::SignedLong
    } else if n == 10 {
        EntryType::SignedRational
    } else if n == 11 {
        EntryType::Float
    } else if n == 12 {
        EntryType::Double
    } else {
        EntryType::Unknown(n)
    }
}

/// Size in bytes of one item of the given type, or `None` for an unknown
/// type, whose size is undefined.
pub open spec fn spec_type_size(t: EntryType) -> Option<u8> {
    match t {
        EntryType::Byte => Some(1u8),
        EntryType::Ascii => Some(1u8),
        EntryType::Short => Some(2u8),
        EntryType::Long => Some(4u8),
        EntryType::Rational => Some(8u8),
        EntryType::SignedByte => Some(1u8),
        EntryType::Undefined => Some(1u8),
        EntryType::SignedShort => Some(2u8),
        EntryType::SignedLong => Some(4u8),
        EntryType::SignedRational => Some(8u8),
        EntryType::Float => Some(4u8),
        EntryType::Double => Some(8u8),
        EntryType::Unknown(_) => None,
    }
}

impl EntryType {
    /// Maps a raw 16-bit type code to the entry type.
    pub fn from_u16(n: u16) -> (r: EntryType)
        ensures
            r == spec_entry_type(n),
    {
        match n {
            1 => EntryType::Byte,
            2 => EntryType::Ascii,
            3 => EntryType::Short,
            4 => EntryType::Long,
            5 => EntryType::Rational,
            6 => EntryType::SignedByte,
            7 => EntryType::Undefined,
            8 => EntryType::SignedShort,
            9 => EntryType::SignedLong,
            10 => EntryType::SignedRational,
            11 => EntryType::Float,
            12 => EntryType::Double,
            _ => EntryType::Unknown(n),
        }
    }

    /// Size in bytes of one item of this type; `None` for an unknown type.
    pub fn size(self) -> (r: Option<u8>)
        ensures
            r == spec_type_size(self),
    {
        match self {
            EntryType::Byte => Some(1),
            EntryType::Ascii => Some(1),
            EntryType::Short => Some(2),
            EntryType::Long => Some(4),
            EntryType::Rational => Some(8),
            EntryType::SignedByte => Some(1),
            EntryType::Undefined => Some(1),
            EntryType::SignedShort => Some(2),
            EntryType::SignedLong => Some(4),
            EntryType::SignedRational => Some(8),
            EntryType::Float => Some(4),
            EntryType::Double => Some(8),
            EntryType::Unknown(_) => None,
        }
    }
}

/// One decoded item of an entry.  `Float` and `Double` carry the raw IEEE
/// bit patterns of the stored values; `Ascii` carries one NUL-terminated
/// string with each byte taken as one character.
#[derive(Debug, Clone, PartialEq)]
pub enum TiffValue {
    Byte(u8),
    Ascii(String),
    Short(u16),
    Long(u32),
    Rational(u32, u32),
    SignedByte(i8),
    Undefined(u8),
    SignedShort(i16),
    SignedLong(i32),
    SignedRational(i32, i32),
    Float(u32),
    Double(u64),
}

/// Ghost image of a [`TiffValue`]: the string is a character sequence.
pub enum ValRec {
    Byte(u8),
    Ascii(Seq<char>),
    Short(u16),
    Long(u32),
    Rational(u32, u32),
    SignedByte(i8),
    Undefined(u8),
    SignedShort(i16),
    SignedLong(i32),
    SignedRational(i32, i32),
    Float(u32),
    Double(u64),
}

impl View for TiffValue {
    type V = ValRec;

    open spec fn view(&self) -> ValRec {
        match self {
            TiffValue::Byte(v) => ValRec::Byte(*v),
            TiffValue::Ascii(s) => ValRec::Ascii(s@),
            TiffValue::Short(v) => ValRec::Short(*v),
            TiffValue::Long(v) => ValRec::Long(*v),
            TiffValue::Rational(n, d) => ValRec::Rational(*n, *d),
            TiffValue::SignedByte(v) => ValRec::SignedByte(*v),
            TiffValue::Undefined(v) => ValRec::Undefined(*v),
            TiffValue::SignedShort(v) => ValRec::SignedShort(*v),
            TiffValue::SignedLong(v) => ValRec::SignedLong(*v),
            TiffValue::SignedRational(n, d) => ValRec::SignedRational(*n, *d),
            TiffValue::Float(v) => ValRec::Float(*v),
            TiffValue::Double(v) => ValRec::Double(*v),
        }
    }
}

/// The bytes of `s` read as one character each.
pub open spec fn latin1_chars(s: Seq<u8>) -> Seq<char> {
    Seq::new(s.len(), |i: int| s[i] as char)
}

/// A TIFF document reader: wraps a byte buffer holding a whole document.
pub struct TiffReader {
    pub data: Vec<u8>,
}

/// A validated TIFF document: the bytes, the byte order taken from the
/// byte-order mark, and the offset of the first directory.  Directory and
/// entry records borrow it for each read.
pub struct LazyIfds {
    pub data: Vec<u8>,
    pub byte_order: ByteOrder,
    pub first_ifd_offset: u32,
}

/// Cursor over the chain of directories, holding the offset of the next
/// one; 0 is the chain's terminal sentinel.
pub struct Ifds {
    pub next_ifd_offset: u32,
}

/// One directory: its base offset and how far the entry walk has come.
pub struct Ifd {
    pub ifd_offset: u32,
    pub current_entry: u16,
    pub total_entries: u16,
}

/// One directory entry: tag, type, item count, and the raw 4-byte
/// value/offset field both as bytes and decoded as an offset.
pub struct Entry {
    pub tag: u16,
    pub entry_type: EntryType,
    pub count: u32,
    pub raw: [u8; 4],
    pub offset: u32,
}

/// The byte order named by a 2-byte byte-order mark, if it is valid.
pub open spec fn spec_bom(b0: u8, b1: u8) -> Option<ByteOrder> {
    if b0 == 73 && b1 == 73 {
        Some(ByteOrder::Little)
    } else if b0 == 77 && b1 == 77 {
        Some(ByteOrder::Big)
    } else {
        None
    }
}

impl TiffReader {
    pub fn new(data: Vec<u8>) -> (r: TiffReader)
        ensures
            r.data@ == data@,
    {
        TiffReader { data }
    }

    /// Validates the document header: byte-order mark, magic number 42,
    /// first directory offset.  Returns the validated document, from which
    /// directories are read lazily.
    pub fn ifds(self) -> (r: Result<LazyIfds, Error>)
        ensures
            self.data@.len() < 2 ==> (r matches Err(e) && e.kind()
                == ErrorKind::UnexpectedEndOfFile),
            self.data@.len() >= 2 && spec_bom(self.data@[0], self.data@[1]) is None ==> (
            r matches Err(e) && e.kind() == ErrorKind::InvalidFormat),
            self.data@.len() >= 2 && spec_bom(self.data@[0], self.data@[1]) is Some ==> {
                let bo = spec_bom(self.data@[0], self.data@[1])->0;
                if self.data@.len() < 4 {
                    r matches Err(e) && e.kind() == ErrorKind::UnexpectedEndOfFile
                } else if spec_u16_at(self.data@, 2, bo) != 42 {
                    r matches Err(e) && e.kind() == ErrorKind::InvalidFormat
                } else if self.data@.len() < 8 {
                    r matches Err(e) && e.kind() == ErrorKind::UnexpectedEndOfFile
                } else {
                    r matches Ok(l) && l.data@ == self.data@ && l.byte_order == bo
                        && l.first_ifd_offset == spec_u32_at(self.data@, 4, bo)
                }
            },
    {
        if self.data.len() < 2 {
            return Err(Error::UnexpectedEndOfFile(Some("while reading byte order mark")));
        }
        let b0 = self.data[0];
        let b1 = self.data[1];
        let byte_order = if b0 == 73 && b1 == 73 {
            ByteOrder::Little
        } else if b0 == 77 && b1 == 77 {
            ByteOrder::Big
        } else {
            return Err(Error::InvalidFormat(Some("invalid TIFF BOM")));
        };
        let magic = match u16_at(&self.data, 2, byte_order) {
            Some(m) => m,
            None => {
                return Err(Error::UnexpectedEndOfFile(Some("when reading TIFF magic number")));
            },
        };
        if magic != 42 {
            return Err(Error::InvalidFormat(Some("invalid TIFF magic number")));
        }
        let first_ifd_offset = match u32_at(&self.data, 4, byte_order) {
            Some(o) => o,
            None => {
                return Err(Error::UnexpectedEndOfFile(Some("when reading first TIFF IFD offset")));
            },
        };
        Ok(LazyIfds { data: self.data, byte_order, first_ifd_offset })
    }
}

impl LazyIfds {
    /// Starts an iteration over the document's directories.
    pub fn iter(&self) -> (r: Ifds)
        ensures
            r.next_ifd_offset == self.first_ifd_offset,
    {
        Ifds { next_ifd_offset: self.first_ifd_offset }
    }
}

/// What reading a directory header at offset `off` finds: the end of the
/// chain, a failure, or the directory with its entry count and the offset
/// of its successor.
pub enum IfdStep {
    Done,
    Fail(ErrorKind),
    Dir { offset: u32, count: u16, next: u32 },
}

/// One step of the directory chain walk.
pub open spec fn ifd_step(d: Seq<u8>, bo: ByteOrder, off: u32) -> IfdStep {
    if off == 0 {
        IfdStep::Done
    } else if off + 2 > d.len() {
        IfdStep::Fail(ErrorKind::UnexpectedEndOfFile)
    } else {
        let count = spec_u16_at(d, off as int, bo);
        if count == 0 {
            IfdStep::Fail(ErrorKind::InvalidFormat)
        } else if off + 2 + count * 12 + 4 > d.len() {
            IfdStep::Fail(ErrorKind::UnexpectedEndOfFile)
        } else {
            IfdStep::Dir { offset: off, count, next: spec_u32_at(d, off + 2 + count * 12, bo) }
        }
    }
}

impl Ifds {
    /// Yields the next directory, or `None` at the 0 sentinel.
    ///
    /// Reads the 16-bit entry count at the stored offset (a zero count is
    /// `InvalidFormat`: a directory that claims to exist must have at least
    /// one entry), remembers the successor offset found after the entries,
    /// and returns the directory with its entry walk at the start.
    pub fn next(&mut self, doc: &LazyIfds) -> (r: Option<Result<Ifd, Error>>)
        ensures
            match ifd_step(doc.data@, doc.byte_order, old(self).next_ifd_offset) {
                IfdStep::Done => r is None && final(self).next_ifd_offset == old(
                    self,
                ).next_ifd_offset,
                IfdStep::Fail(k) => (r matches Some(res) && res matches Err(e) && e.kind() == k
                    && final(self).next_ifd_offset == old(self).next_ifd_offset),
                IfdStep::Dir { offset, count, next } => (r matches Some(res) && res matches Ok(ifd)
                    && ifd.ifd_offset == offset && ifd.current_entry == 0 && ifd.total_entries
                    == count && final(self).next_ifd_offset == next),
            },
    {
        let off = self.next_ifd_offset;
        if off == 0 {
            return None;
        }
        let count = match u16_at(&doc.data, off as usize, doc.byte_order) {
            Some(c) => c,
            None => {
                return Some(
                    Err(
                        Error::UnexpectedEndOfFile(
                            Some("when reading number of entries in an IFD"),
                        ),
                    ),
                );
            },
        };
        if count == 0 {
            return Some(Err(Error::InvalidFormat(Some("number of entries in an IFD is zero"))));
        }
        let noff64 = off as u64 + 2 + count as u64 * 12;
        if noff64 + 4 > doc.data.len() as u64 {
            return Some(
                Err(Error::UnexpectedEndOfFile(Some("when reading the next IFD offset"))),
            );
        }
        let next = match u32_at(&doc.data, noff64 as usize, doc.byte_order) {
            Some(n) => n,
            None => {
                return Some(
                    Err(Error::UnexpectedEndOfFile(Some("when reading the next IFD offset"))),
                );
            },
        };
        self.next_ifd_offset = next;
        Some(Ok(Ifd { ifd_offset: off, current_entry: 0, total_entries: count }))
    }
}

/// Byte position of entry `i` of the directory based at `base`.
pub open spec fn entry_pos(base: u32, i: u16) -> int {
    base + 2 + i * 12
}

impl Ifd {
    /// The directory's total entry count.
    pub fn len(&self) -> (r: u16)
        ensures
            r == self.total_entries,
    {
        self.total_entries
    }

    /// Reads the next entry, by an absolute read at the entry's own
    /// position, and advances the walk.  `None` once all entries were
    /// yielded; `UnexpectedEndOfFile` when the entry's 12 bytes are not all
    /// present.
    pub fn next(&mut self, doc: &LazyIfds) -> (r: Option<Result<Entry, Error>>)
        ensures
            final(self).ifd_offset == old(self).ifd_offset,
            final(self).total_entries == old(self).total_entries,
            old(self).current_entry >= old(self).total_entries ==> r is None && *final(self)
                == *old(self),
            old(self).current_entry < old(self).total_entries ==> {
                let pos = entry_pos(old(self).ifd_offset, old(self).current_entry);
                if pos + 12 <= doc.data@.len() {
                    &&& r matches Some(res)
                    &&& res matches Ok(e)
                    &&& e.tag == spec_u16_at(doc.data@, pos, doc.byte_order)
                    &&& e.entry_type == spec_entry_type(
                        spec_u16_at(doc.data@, pos + 2, doc.byte_order),
                    )
                    &&& e.count == spec_u32_at(doc.data@, pos + 4, doc.byte_order)
                    &&& e.raw@ == doc.data@.subrange(pos + 8, pos + 12)
                    &&& e.offset == spec_u32_at(doc.data@, pos + 8, doc.byte_order)
                    &&& final(self).current_entry == old(self).current_entry + 1
                } else {
                    &&& r matches Some(res)
                    &&& res matches Err(e)
                    &&& e.kind() == ErrorKind::UnexpectedEndOfFile
                    &&& final(self).current_entry == old(self).current_entry
                }
            },
    {
        if self.current_entry >= self.total_entries {
            return None;
        }
        let pos64 = self.ifd_offset as u64 + 2 + self.current_entry as u64 * 12;
        if pos64 + 12 > doc.data.len() as u64 {
            return Some(Err(Error::UnexpectedEndOfFile(Some("when reading TIFF IFD entry"))));
        }
        let pos = pos64 as usize;
        let tag = match u16_at(&doc.data, pos, doc.byte_order) {
            Some(t) => t,
            None => {
                return Some(
                    Err(Error::UnexpectedEndOfFile(Some("when reading TIFF IFD entry tag"))),
                );
            },
        };
        let etype_code = match u16_at(&doc.data, pos + 2, doc.byte_order) {
            Some(t) => t,
            None => {
                return Some(
                    Err(Error::UnexpectedEndOfFile(Some("when reading TIFF IFD entry type"))),
                );
            },
        };
        let count = match u32_at(&doc.data, pos + 4, doc.byte_order) {
            Some(c) => c,
            None => {
                return Some(
                    Err(
                        Error::UnexpectedEndOfFile(
                            Some("when reading TIFF IFD entry data count"),
                        ),
                    ),
                );
            },
        };
        let raw = [doc.data[pos + 8], doc.data[pos + 9], doc.data[pos + 10], doc.data[pos + 11]];
        let offset = match u32_at(&doc.data, pos + 8, doc.byte_order) {
            Some(o) => o,
            None => {
                return Some(
                    Err(
                        Error::UnexpectedEndOfFile(
                            Some("when reading TIFF IFD entry data offset"),
                        ),
                    ),
                );
            },
        };
        self.current_entry = self.current_entry + 1;
        proof {
            assert(raw@ =~= doc.data@.subrange(
                entry_pos(old(self).ifd_offset, old(self).current_entry) + 8,
                entry_pos(old(self).ifd_offset, old(self).current_entry) + 12,
            ));
        }
        Some(Ok(Entry { tag, entry_type: EntryType::from_u16(etype_code), count, raw, offset }))
    }
}

/// Whether an entry of type `t` with `count` items stores its data inside
/// the 4-byte value field ("embedded") rather than behind an offset
/// ("referenced"): exactly when the total data size fits in 4 bytes.
pub open spec fn spec_is_embedded(t: EntryType, count: u32) -> bool
    recommends
        spec_type_size(t) is Some,
{
    spec_type_size(t)->0 * count <= 4
}

/// The NUL-terminated substring bounds `(start, end)` found in `s` from
/// position `from` on, end exclusive of the NUL; trailing bytes with no
/// terminator form no substring.
pub open spec fn substr_bounds(s: Seq<u8>, from: int) -> Seq<(int, int)>
    decreases s.len() - from,
{
    if from < 0 || from >= s.len() {
        Seq::empty()
    } else {
        let e = from + find_byte(s.skip(from), 0);
        if e < s.len() {
            seq![(from, e)] + substr_bounds(s, e + 1)
        } else {
            Seq::empty()
        }
    }
}

/// The item at index `n` decoded from the 4-byte embedded window, or
/// `None` when the index is out of the window or the type never embeds.
pub open spec fn spec_embedded_value(
    raw: Seq<u8>,
    bo: ByteOrder,
    t: EntryType,
    n: int,
    count: int,
) -> Option<ValRec> {
    if n < 0 {
        None
    } else {
        match t {
            EntryType::Byte => if n >= count || n >= 4 {
                None
            } else {
                Some(ValRec::Byte(raw[n]))
            },
            EntryType::Undefined => if n >= count || n >= 4 {
                None
            } else {
                Some(ValRec::Undefined(raw[n]))
            },
            EntryType::SignedByte => if n >= count || n >= 4 {
                None
            } else {
                Some(ValRec::SignedByte(raw[n] as i8))
            },
            EntryType::Short => if n >= count || n >= 2 {
                None
            } else {
                Some(ValRec::Short(spec_u16_at(raw, 2 * n, bo)))
            },
            EntryType::SignedShort => if n >= count || n >= 2 {
                None
            } else {
                Some(ValRec::SignedShort(spec_u16_at(raw, 2 * n, bo) as i16))
            },
            EntryType::Long => if n >= 1 {
                None
            } else {
                Some(ValRec::Long(spec_u32_at(raw, 0, bo)))
            },
            EntryType::SignedLong => if n >= 1 {
                None
            } else {
                Some(ValRec::SignedLong(spec_u32_at(raw, 0, bo) as i32))
            },
            EntryType::Float => if n >= 1 {
                None
            } else {
                Some(ValRec::Float(spec_u32_at(raw, 0, bo)))
            },
            EntryType::Ascii => if n >= count || n >= 4 {
                None
            } else {
                let cnt = if count <= 4 {
                    count
                } else {
                    4
                };
                let bounds = substr_bounds(raw.take(cnt), 0);
                if n < bounds.len() {
                    Some(ValRec::Ascii(latin1_chars(raw.subrange(bounds[n].0, bounds[n].1))))
                } else {
                    None
                }
            },
            _ => None,
        }
    }
}

/// One item read sequentially from position `off` of the document data:
/// the decoded item and the number of bytes it occupied, or the failure.
/// An `Ascii` item runs to its NUL terminator and consumes it too.
pub open spec fn spec_ref_read(d: Seq<u8>, bo: ByteOrder, t: EntryType, off: int) -> Result<
    (ValRec, int),
    ErrorKind,
> {
    if off < 0 || off > d.len() {
        Err(ErrorKind::UnexpectedEndOfFile)
    } else {
        match t {
            EntryType::Byte => if off + 1 <= d.len() {
                Ok((ValRec::Byte(d[off]), 1))
            } else {
                Err(ErrorKind::UnexpectedEndOfFile)
            },
            EntryType::Undefined => if off + 1 <= d.len() {
                Ok((ValRec::Undefined(d[off]), 1))
            } else {
                Err(ErrorKind::UnexpectedEndOfFile)
            },
            EntryType::SignedByte => if off + 1 <= d.len() {
                Ok((ValRec::SignedByte(d[off] as i8), 1))
            } else {
                Err(ErrorKind::UnexpectedEndOfFile)
            },
            EntryType::Short => if off + 2 <= d.len() {
                Ok((ValRec::Short(spec_u16_at(d, off, bo)), 2))
            } else {
                Err(ErrorKind::UnexpectedEndOfFile)
            },
            EntryType::SignedShort => if off + 2 <= d.len() {
                Ok((ValRec::SignedShort(spec_u16_at(d, off, bo) as i16), 2))
            } else {
                Err(ErrorKind::UnexpectedEndOfFile)
            },
            EntryType::Long => if off + 4 <= d.len() {
                Ok((ValRec::Long(spec_u32_at(d, off, bo)), 4))
            } else {
                Err(ErrorKind::UnexpectedEndOfFile)
            },
            EntryType::SignedLong => if off + 4 <= d.len() {
                Ok((ValRec::SignedLong(spec_u32_at(d, off, bo) as i32), 4))
            } else {
                Err(ErrorKind::UnexpectedEndOfFile)
            },
            EntryType::Float => if off + 4 <= d.len() {
                Ok((ValRec::Float(spec_u32_at(d, off, bo)), 4))
            } else {
                Err(ErrorKind::UnexpectedEndOfFile)
            },
            EntryType::Rational => if off + 8 <= d.len() {
                Ok((ValRec::Rational(spec_u32_at(d, off, bo), spec_u32_at(d, off + 4, bo)), 8))
            } else {
                Err(ErrorKind::UnexpectedEndOfFile)
            },
            EntryType::SignedRational => if off + 8 <= d.len() {
                Ok(
                    (
                        ValRec::SignedRational(
                            spec_u32_at(d, off, bo) as i32,
                            spec_u32_at(d, off + 4, bo) as i32,
                        ),
                        8,
                    ),
                )
            } else {
                Err(ErrorKind::UnexpectedEndOfFile)
            },
            EntryType::Double => if off + 8 <= d.len() {
                Ok((ValRec::Double(spec_u64_at(d, off, bo)), 8))
            } else {
                Err(ErrorKind::UnexpectedEndOfFile)
            },
            EntryType::Ascii => {
                let e = off + find_byte(d.skip(off), 0);
                if e < d.len() {
                    Ok((ValRec::Ascii(latin1_chars(d.subrange(off, e))), e - off + 1))
                } else {
                    Err(ErrorKind::UnexpectedEndOfFile)
                }
            },
            EntryType::Unknown(_) => Err(ErrorKind::InvalidFormat),
        }
    }
}

/// The ghost images of a vector of decoded items.
pub open spec fn views_of(vs: Seq<TiffValue>) -> Seq<ValRec> {
    vs.map_values(|v: TiffValue| v@)
}

/// All items of an embedded entry from index `i` on: the walk stops at the
/// item count, or at the first index the window cannot yield.
pub open spec fn spec_embedded_seq(
    raw: Seq<u8>,
    bo: ByteOrder,
    t: EntryType,
    count: int,
    i: int,
) -> Seq<ValRec>
    decreases count - i,
{
    if i < 0 || i >= count {
        Seq::empty()
    } else {
        match spec_embedded_value(raw, bo, t, i, count) {
            None => Seq::empty(),
            Some(v) => seq![v] + spec_embedded_seq(raw, bo, t, count, i + 1),
        }
    }
}

/// All items of a referenced entry, read sequentially from `off` until at
/// least `max` bytes (item count times item size) have been consumed; item
/// byte-width is not uniform for `Ascii`, so the walk is bounded by bytes
/// consumed, not items.
pub open spec fn spec_all_ref(
    d: Seq<u8>,
    bo: ByteOrder,
    t: EntryType,
    off: int,
    bytes_read: int,
    max: int,
) -> Result<Seq<ValRec>, ErrorKind>
    decreases max - bytes_read,
{
    if bytes_read >= max {
        Ok(Seq::empty())
    } else {
        match spec_ref_read(d, bo, t, off) {
            Err(k) => Err(k),
            Ok((v, c)) => {
                if bytes_read + c >= max {
                    Ok(seq![v])
                } else {
                    match spec_all_ref(d, bo, t, off + c, bytes_read + c, max) {
                        Ok(rest) => Ok(seq![v] + rest),
                        Err(k) => Err(k),
                    }
                }
            },
        }
    }
}

/// Relies on std's `String::push`: appends exactly one character.
#[verifier::external_body]
fn push_char(s: &mut String, c: char)
    ensures
        final(s)@ == old(s)@.push(c),
{
    s.push(c);
}

/// Builds the string whose characters are the bytes `w[a..b]`, one
/// character per byte.
fn latin1_string(w: &Vec<u8>, a: usize, b: usize) -> (s: String)
    requires
        a <= b <= w@.len(),
    ensures
        s@ == latin1_chars(w@.subrange(a as int, b as int)),
{
    let mut s = String::new();
    let mut i: usize = a;
    while i < b
        invariant
            a <= i <= b <= w@.len(),
            s@ == latin1_chars(w@.subrange(a as int, i as int)),
        decreases b - i,
    {
        push_char(&mut s, w[i] as char);
        i = i + 1;
        assert(s@ =~= latin1_chars(w@.subrange(a as int, i as int)));
    }
    s
}

/// Position of the first NUL byte at or after `from`, or the buffer length
/// if there is none.
fn find_nul(w: &Vec<u8>, from: usize) -> (r: usize)
    requires
        from <= w@.len(),
    ensures
        r == from + find_byte(w@.skip(from as int), 0),
        from <= r <= w@.len(),
        r < w@.len() ==> w@[r as int] == 0,
        forall|t: int| from <= t < r ==> w@[t] != 0,
    decreases w@.len() - from,
{
    let ghost tail = w@.skip(from as int);
    proof {
        lemma_find_byte(tail, 0);
    }
    let len = w.len();
    let mut j: usize = from;
    loop
        invariant
            from <= j <= len,
            len == w@.len(),
            tail == w@.skip(from as int),
            forall|t: int| 0 <= t < j - from ==> tail[t] != 0,
            0 <= find_byte(tail, 0) <= tail.len(),
            find_byte(tail, 0) < tail.len() ==> tail[find_byte(tail, 0) as int] == 0,
            forall|t: int| 0 <= t < find_byte(tail, 0) ==> tail[t] != 0,
        decreases len - j,
    {
        if j >= len {
            assert(find_byte(tail, 0) == tail.len()) by {
                if find_byte(tail, 0) < tail.len() {
                    assert(tail[find_byte(tail, 0) as int] != 0);
                }
            }
            assert forall|t: int| from <= t < j implies w@[t] != 0 by {
                assert(tail[t - from] == w@[t]);
            }
            return j;
        }
        let c = w[j];
        if c == 0 {
            assert(tail[j - from] == 0);
            assert(find_byte(tail, 0) == j - from) by {
                if find_byte(tail, 0) < j - from {
                    assert(tail[find_byte(tail, 0) as int] != 0);
                }
            }
            assert forall|t: int| from <= t < j implies w@[t] != 0 by {
                assert(tail[t - from] == w@[t]);
            }
            return j;
        }
        assert(tail[j - from] == w@[j as int]);
        j = j + 1;
    }
}

/// The bounds of the `n`-th NUL-terminated substring of `w`, or `None`
/// when there are not that many.
fn nth_substr(w: &Vec<u8>, n: u32) -> (r: Option<(usize, usize)>)
    ensures
        ({
            let bounds = substr_bounds(w@, 0);
            match r {
                Some(p) => n < bounds.len() && bounds[n as int] == (p.0 as int, p.1 as int) && p.0
                    <= p.1 <= w@.len(),
                None => n >= bounds.len(),
            }
        }),
{
    let ghost bounds = substr_bounds(w@, 0);
    let mut from: usize = 0;
    let mut k: u32 = 0;
    proof {
        assert(substr_bounds(w@, 0 as int) =~= bounds.skip(0));
    }
    loop
        invariant
            k <= n,
            from <= w@.len(),
            bounds == substr_bounds(w@, 0),
            k <= bounds.len(),
            substr_bounds(w@, from as int) == bounds.skip(k as int),
        decreases w@.len() - from,
    {
        let e = find_nul(w, from);
        if e >= w.len() {
            proof {
                assert(substr_bounds(w@, from as int) =~= Seq::<(int, int)>::empty());
                assert(bounds.skip(k as int).len() == 0);
            }
            return None;
        }
        proof {
            assert(substr_bounds(w@, from as int) == seq![(from as int, e as int)]
                + substr_bounds(w@, e as int + 1));
        }
        if k == n {
            proof {
                assert(bounds.skip(k as int)[0] == (from as int, e as int));
                assert(bounds[k as int] == bounds.skip(k as int)[0]);
            }
            return Some((from, e));
        }
        proof {
            assert(bounds.skip(k as int + 1) =~= bounds.skip(k as int).skip(1));
            assert(substr_bounds(w@, e as int + 1) =~= (seq![(from as int, e as int)]
                + substr_bounds(w@, e as int + 1)).skip(1));
        }
        from = e + 1;
        k = k + 1;
    }
}

/// Decodes the item at index `n` of an embedded entry from its 4-byte
/// value window.
fn embedded_read_one(raw: &[u8; 4], bo: ByteOrder, t: EntryType, n: u32, count: u32) -> (r: Option<
    TiffValue,
>)
    ensures
        match spec_embedded_value(raw@, bo, t, n as int, count as int) {
            None => r is None,
            Some(v) => r matches Some(val) && val@ == v,
        },
{
    match t {
        EntryType::Byte => {
            if n >= count || n >= 4 {
                None
            } else {
                Some(TiffValue::Byte(raw[n as usize]))
            }
        },
        EntryType::Undefined => {
            if n >= count || n >= 4 {
                None
            } else {
                Some(TiffValue::Undefined(raw[n as usize]))
            }
        },
        EntryType::SignedByte => {
            if n >= count || n >= 4 {
                None
            } else {
                Some(TiffValue::SignedByte(raw[n as usize] as i8))
            }
        },
        EntryType::Short => {
            if n >= count || n >= 2 {
                None
            } else {
                let p = 2 * n as usize;
                Some(TiffValue::Short(crate::utils::read_u16_of(bo, raw[p], raw[p + 1])))
            }
        },
        EntryType::SignedShort => {
            if n >= count || n >= 2 {
                None
            } else {
                let p = 2 * n as usize;
                Some(
                    TiffValue::SignedShort(crate::utils::read_u16_of(bo, raw[p], raw[p + 1]) as i16),
                )
            }
        },
        EntryType::Long => {
            if n >= 1 {
                None
            } else {
                Some(TiffValue::Long(crate::utils::read_u32_of(bo, raw[0], raw[1], raw[2], raw[3])))
            }
        },
        EntryType::SignedLong => {
            if n >= 1 {
                None
            } else {
                Some(
                    TiffValue::SignedLong(
                        crate::utils::read_u32_of(bo, raw[0], raw[1], raw[2], raw[3]) as i32,
                    ),
                )
            }
        },
        EntryType::Float => {
            if n >= 1 {
                None
            } else {
                Some(
                    TiffValue::Float(crate::utils::read_u32_of(bo, raw[0], raw[1], raw[2], raw[3])),
                )
            }
        },
        EntryType::Ascii => {
            if n >= count || n >= 4 {
                None
            } else {
                let cnt: usize = if count <= 4 {
                    count as usize
                } else {
                    4
                };
                let mut window: Vec<u8> = Vec::new();
                let mut i: usize = 0;
                while i < cnt
                    invariant
                        i <= cnt <= 4,
                        window@ == raw@.take(cnt as int).take(i as int),
                    decreases cnt - i,
                {
                    window.push(raw[i]);
                    i = i + 1;
                    assert(window@ =~= raw@.take(cnt as int).take(i as int));
                }
                assert(window@ =~= raw@.take(cnt as int));
                match nth_substr(&window, n) {
                    None => None,
                    Some(p) => {
                        let s = latin1_string(&window, p.0, p.1);
                        proof {
                            let bounds = substr_bounds(raw@.take(cnt as int), 0);
                            assert(window@.subrange(p.0 as int, p.1 as int)
                                =~= raw@.subrange(bounds[n as int].0, bounds[n as int].1));
                        }
                        Some(TiffValue::Ascii(s))
                    },
                }
            }
        },
        _ => None,
    }
}

/// Reads one item of a referenced entry at document offset `off`.
fn ref_read_one(doc: &LazyIfds, t: EntryType, off: u64) -> (r: Result<(TiffValue, u64), Error>)
    ensures
        match spec_ref_read(doc.data@, doc.byte_order, t, off as int) {
            Ok(vc) => r matches Ok(p) && p.0@ == vc.0 && p.1 == vc.1 && off + vc.1
                <= doc.data@.len() && off + vc.1 <= u64::MAX,
            Err(k) => r matches Err(e) && e.kind() == k,
        },
{
    let bo = doc.byte_order;
    let len = doc.data.len();
    if off > len as u64 {
        return Err(Error::UnexpectedEndOfFile(Some("when reading TIFF entry value")));
    }
    let o = off as usize;
    match t {
        EntryType::Byte => {
            if o < len {
                Ok((TiffValue::Byte(doc.data[o]), 1))
            } else {
                Err(Error::UnexpectedEndOfFile(Some("when reading TIFF entry value")))
            }
        },
        EntryType::Undefined => {
            if o < len {
                Ok((TiffValue::Undefined(doc.data[o]), 1))
            } else {
                Err(Error::UnexpectedEndOfFile(Some("when reading TIFF entry value")))
            }
        },
        EntryType::SignedByte => {
            if o < len {
                Ok((TiffValue::SignedByte(doc.data[o] as i8), 1))
            } else {
                Err(Error::UnexpectedEndOfFile(Some("when reading TIFF entry value")))
            }
        },
        EntryType::Short => {
            match u16_at(&doc.data, o, bo) {
                Some(v) => Ok((TiffValue::Short(v), 2)),
                None => Err(Error::UnexpectedEndOfFile(Some("when reading TIFF entry value"))),
            }
        },
        EntryType::SignedShort => {
            match u16_at(&doc.data, o, bo) {
                Some(v) => Ok((TiffValue::SignedShort(v as i16), 2)),
                None => Err(Error::UnexpectedEndOfFile(Some("when reading TIFF entry value"))),
            }
        },
        EntryType::Long => {
            match u32_at(&doc.data, o, bo) {
                Some(v) => Ok((TiffValue::Long(v), 4)),
                None => Err(Error::UnexpectedEndOfFile(Some("when reading TIFF entry value"))),
            }
        },
        EntryType::SignedLong => {
            match u32_at(&doc.data, o, bo) {
                Some(v) => Ok((TiffValue::SignedLong(v as i32), 4)),
                None => Err(Error::UnexpectedEndOfFile(Some("when reading TIFF entry value"))),
            }
        },
        EntryType::Float => {
            match u32_at(&doc.data, o, bo) {
                Some(v) => Ok((TiffValue::Float(v), 4)),
                None => Err(Error::UnexpectedEndOfFile(Some("when reading TIFF entry value"))),
            }
        },
        EntryType::Rational => {
            if len >= 8 && o <= len - 8 {
                match (u32_at(&doc.data, o, bo), u32_at(&doc.data, o + 4, bo)) {
                    (Some(a), Some(b)) => Ok((TiffValue::Rational(a, b), 8)),
                    _ => Err(Error::UnexpectedEndOfFile(Some("when reading TIFF entry value"))),
                }
            } else {
                Err(Error::UnexpectedEndOfFile(Some("when reading TIFF entry value")))
            }
        },
        EntryType::SignedRational => {
            if len >= 8 && o <= len - 8 {
                match (u32_at(&doc.data, o, bo), u32_at(&doc.data, o + 4, bo)) {
                    (Some(a), Some(b)) => Ok((TiffValue::SignedRational(a as i32, b as i32), 8)),
                    _ => Err(Error::UnexpectedEndOfFile(Some("when reading TIFF entry value"))),
                }
            } else {
                Err(Error::UnexpectedEndOfFile(Some("when reading TIFF entry value")))
            }
        },
        EntryType::Double => {
            match u64_at(&doc.data, o, bo) {
                Some(v) => Ok((TiffValue::Double(v), 8)),
                None => Err(Error::UnexpectedEndOfFile(Some("when reading TIFF entry value"))),
            }
        },
        EntryType::Ascii => {
            let e = find_nul(&doc.data, o);
            if e < len {
                let s = latin1_string(&doc.data, o, e);
                Ok((TiffValue::Ascii(s), (e - o) as u64 + 1))
            } else {
                Err(Error::UnexpectedEndOfFile(Some("when reading TIFF entry value")))
            }
        },
        EntryType::Unknown(_) => Err(
            Error::InvalidFormat(Some("reading values of an unknown TIFF entry type")),
        ),
    }
}

/// Total data size in bytes of `count` items of `size` bytes each.
fn total_data_bytes(size: u8, count: u32) -> (r: u64)
    ensures
        r == size * count,
{
    proof {
        assert(size as int * count as int <= 255 * 0xffff_ffff) by (nonlinear_arith)
            requires
                size <= 255,
                count <= 0xffff_ffffu32,
        ;
    }
    size as u64 * count as u64
}

/// Cursor over the items of an embedded entry: the 4-byte window, the byte
/// order, the item count and the current index.
pub struct EmbeddedValues {
    pub current: u32,
    pub count: u32,
    pub data: [u8; 4],
    pub byte_order: ByteOrder,
    pub entry_type: EntryType,
}

/// Cursor over the items of a referenced entry: reads sequentially from
/// `next_offset`, tallying consumed bytes against the total data size.
pub struct ReferencedValues {
    pub count: u32,
    pub entry_type: EntryType,
    pub byte_order: ByteOrder,
    pub bytes_read: u128,
    pub next_offset: u64,
}

/// Cursor over the items of an entry, embedded or referenced.
pub enum EntryValues {
    Embedded(EmbeddedValues),
    Referenced(ReferencedValues),
}

impl EmbeddedValues {
    /// Yields the item at the current index, advancing the index; `None`
    /// once the count is reached or the window cannot yield the item.
    pub fn read_value(&mut self) -> (r: Option<TiffValue>)
        ensures
            final(self).count == old(self).count,
            final(self).data == old(self).data,
            final(self).byte_order == old(self).byte_order,
            final(self).entry_type == old(self).entry_type,
            old(self).current >= old(self).count ==> r is None && final(self).current == old(
                self,
            ).current,
            old(self).current < old(self).count ==> final(self).current == old(self).current + 1
                && match spec_embedded_value(
                old(self).data@,
                old(self).byte_order,
                old(self).entry_type,
                old(self).current as int,
                old(self).count as int,
            ) {
                None => r is None,
                Some(v) => r matches Some(val) && val@ == v,
            },
    {
        if self.current >= self.count {
            None
        } else {
            let r = embedded_read_one(
                &self.data,
                self.byte_order,
                self.entry_type,
                self.current,
                self.count,
            );
            self.current = self.current + 1;
            r
        }
    }
}

impl EntryValues {
    /// A referenced cursor only ever carries a type whose size is defined.
    pub open spec fn wf(&self) -> bool {
        match self {
            EntryValues::Embedded(_) => true,
            EntryValues::Referenced(rv) => spec_type_size(rv.entry_type) is Some,
        }
    }

    /// Total data size of a referenced cursor, in bytes.
    pub open spec fn spec_max_bytes(rv: ReferencedValues) -> int {
        rv.count * spec_type_size(rv.entry_type)->0
    }

    /// Yields the next item of the entry, or `None` at the end of the
    /// items.  A referenced cursor that hits the end of the document data
    /// yields the error and does not advance.
    pub fn next(&mut self, doc: &LazyIfds) -> (r: Option<Result<TiffValue, Error>>)
        requires
            old(self).wf(),
        ensures
            final(self).wf(),
            (*old(self)) matches EntryValues::Embedded(ev) ==> ((*final(self)) matches
                EntryValues::Embedded(fv) && fv.count == ev.count && fv.data == ev.data
                && fv.byte_order == ev.byte_order && fv.entry_type == ev.entry_type && {
                if ev.current >= ev.count {
                    r is None && fv.current == ev.current
                } else {
                    fv.current == ev.current + 1 && match spec_embedded_value(
                        ev.data@,
                        ev.byte_order,
                        ev.entry_type,
                        ev.current as int,
                        ev.count as int,
                    ) {
                        None => r is None,
                        Some(v) => r matches Some(res) && res matches Ok(val) && val@ == v,
                    }
                }
            }),
            (*old(self)) matches EntryValues::Referenced(rv) ==> ((*final(self)) matches
                EntryValues::Referenced(fv) && fv.count == rv.count && fv.entry_type
                == rv.entry_type && fv.byte_order == rv.byte_order && {
                if rv.bytes_read >= EntryValues::spec_max_bytes(rv) {
                    r is None && fv.bytes_read == rv.bytes_read && fv.next_offset
                        == rv.next_offset
                } else {
                    match spec_ref_read(
                        doc.data@,
                        doc.byte_order,
                        rv.entry_type,
                        rv.next_offset as int,
                    ) {
                        Err(k) => r matches Some(res) && res matches Err(e) && e.kind() == k
                            && fv.bytes_read == rv.bytes_read && fv.next_offset == rv.next_offset,
                        Ok(vc) => r matches Some(res) && res matches Ok(val) && val@ == vc.0
                            && fv.bytes_read == rv.bytes_read + vc.1 && fv.next_offset
                            == rv.next_offset + vc.1,
                    }
                }
            }),
    {
        match self {
            EntryValues::Embedded(ev) => {
                match ev.read_value() {
                    None => None,
                    Some(v) => Some(Ok(v)),
                }
            },
            EntryValues::Referenced(rv) => {
                let size = match rv.entry_type.size() {
                    Some(s) => s,
                    None => {
                        return None;
                    },
                };
                let max = total_data_bytes(size, rv.count);
                if rv.bytes_read >= max as u128 {
                    return None;
                }
                match ref_read_one(doc, rv.entry_type, rv.next_offset) {
                    Err(e) => Some(Err(e)),
                    Ok(p) => {
                        rv.next_offset = rv.next_offset + p.1;
                        rv.bytes_read = rv.bytes_read + p.1 as u128;
                        Some(Ok(p.0))
                    },
                }
            },
        }
    }
}

impl Entry {
    /// The entry's tag.
    pub fn tag(&self) -> (r: u16)
        ensures
            r == self.tag,
    {
        self.tag
    }

    /// The entry's type.
    pub fn entry_type(&self) -> (r: EntryType)
        ensures
            r == self.entry_type,
    {
        self.entry_type
    }

    /// The number of items this entry holds (items, not bytes).
    pub fn count(&self) -> (r: u32)
        ensures
            r == self.count,
    {
        self.count
    }

    /// A cursor over the entry's items, decoded as the requested type.
    ///
    /// `None` when the requested type is not the entry's stored type, or
    /// when that type's size is undefined (an unknown type is never
    /// decodable).  Otherwise the cursor takes the embedded path exactly
    /// when `type size * count <= 4`, and the referenced path otherwise.
    pub fn values(&self, doc: &LazyIfds, requested: EntryType) -> (r: Option<EntryValues>)
        ensures
            requested != self.entry_type ==> r is None,
            requested == self.entry_type && spec_type_size(requested) is None ==> r is None,
            requested == self.entry_type && spec_type_size(requested) is Some ==> (r matches Some(
                ev,
            ) && ev.wf() && (if spec_is_embedded(requested, self.count) {
                ev matches EntryValues::Embedded(e) && e.current == 0 && e.count == self.count
                    && e.data == self.raw && e.byte_order == doc.byte_order && e.entry_type
                    == requested
            } else {
                ev matches EntryValues::Referenced(v) && v.count == self.count && v.entry_type
                    == requested && v.byte_order == doc.byte_order && v.bytes_read == 0
                    && v.next_offset == self.offset
            })),
    {
        if requested != self.entry_type {
            return None;
        }
        let size = match requested.size() {
            Some(s) => s,
            None => {
                return None;
            },
        };
        if total_data_bytes(size, self.count) <= 4 {
            Some(
                EntryValues::Embedded(
                    EmbeddedValues {
                        current: 0,
                        count: self.count,
                        data: self.raw,
                        byte_order: doc.byte_order,
                        entry_type: requested,
                    },
                ),
            )
        } else {
            Some(
                EntryValues::Referenced(
                    ReferencedValues {
                        count: self.count,
                        entry_type: requested,
                        byte_order: doc.byte_order,
                        bytes_read: 0,
                        next_offset: self.offset as u64,
                    },
                ),
            )
        }
    }

    /// All items of the entry, decoded as the requested type, in one pass.
    ///
    /// `None` under the same conditions as [`Entry::values`]; otherwise the
    /// flat item list, or the error met while reading referenced data.
    #[verifier::rlimit(50)]
    #[verifier::spinoff_prover]
    pub fn all_values(&self, doc: &LazyIfds, requested: EntryType) -> (r: Option<
        Result<Vec<TiffValue>, Error>,
    >)
        ensures
            match spec_all_values(*self, doc.data@, doc.byte_order, requested) {
                None => r is None,
                Some(res) => match res {
                    Ok(model) => r matches Some(inner) && inner matches Ok(vs) && views_of(vs@)
                        == model,
                    Err(k) => r matches Some(inner) && inner matches Err(e) && e.kind() == k,
                },
            },
    {
        if requested != self.entry_type {
            return None;
        }
        let size = match requested.size() {
            Some(s) => s,
            None => {
                return None;
            },
        };
        let mut out: Vec<TiffValue> = Vec::new();
        if total_data_bytes(size, self.count) <= 4 {
            read_all_embedded(&self.raw, doc.byte_order, requested, self.count, 0, &mut out);
            proof {
                let model = spec_embedded_seq(
                    self.raw@,
                    doc.byte_order,
                    requested,
                    self.count as int,
                    0,
                );
                assert(views_of(Seq::empty()) =~= Seq::<ValRec>::empty());
                assert(views_of(Seq::empty()) + model =~= model);
            }
            Some(Ok(out))
        } else {
            let max = total_data_bytes(size, self.count);
            match read_all_ref(doc, requested, self.offset as u64, 0, max, &mut out) {
                Ok(_) => {
                    proof {
                        match spec_all_ref(
                            doc.data@,
                            doc.byte_order,
                            requested,
                            self.offset as int,
                            0,
                            self.count * spec_type_size(requested)->0,
                        ) {
                            Ok(model) => {
                                assert(views_of(Seq::empty()) =~= Seq::<ValRec>::empty());
                                assert(views_of(Seq::empty()) + model =~= model);
                            },
                            Err(_) => {},
                        }
                    }
                    Some(Ok(out))
                },
                Err(e) => Some(Err(e)),
            }
        }
    }
}

/// The model of [`Entry::all_values`]: `None` when the requested type is
/// not the stored one or has no defined size; otherwise the whole item
/// list, embedded or referenced by the 4-byte rule, or the failure met
/// while reading referenced data.
pub open spec fn spec_all_values(
    e: Entry,
    d: Seq<u8>,
    bo: ByteOrder,
    requested: EntryType,
) -> Option<Result<Seq<ValRec>, ErrorKind>> {
    if requested != e.entry_type {
        None
    } else if spec_type_size(requested) is None {
        None
    } else if spec_is_embedded(requested, e.count) {
        Some(Ok(spec_embedded_seq(e.raw@, bo, requested, e.count as int, 0)))
    } else {
        match spec_all_ref(d, bo, requested, e.offset as int, 0, e.count * spec_type_size(
            requested,
        )->0) {
            Ok(m) => Some(Ok(m)),
            Err(k) => Some(Err(k)),
        }
    }
}

/// Collects the items of an embedded entry from index `i` on.
fn read_all_embedded(
    raw: &[u8; 4],
    bo: ByteOrder,
    t: EntryType,
    count: u32,
    i: u32,
    out: &mut Vec<TiffValue>,
)
    ensures
        views_of(final(out)@) == views_of(old(out)@) + spec_embedded_seq(
            raw@,
            bo,
            t,
            count as int,
            i as int,
        ),
    decreases count - i,
{
    if i >= count {
        proof {
            assert(views_of(final(out)@) =~= views_of(old(out)@) + Seq::<ValRec>::empty());
        }
        return ;
    }
    match embedded_read_one(raw, bo, t, i, count) {
        None => {
            proof {
                assert(views_of(final(out)@) =~= views_of(old(out)@) + Seq::<ValRec>::empty());
            }
        },
        Some(v) => {
            let ghost v_rec = v@;
            out.push(v);
            proof {
                assert(views_of(out@) =~= views_of(old(out)@) + seq![v_rec]);
            }
            read_all_embedded(raw, bo, t, count, i + 1, out);
            proof {
                assert(views_of(final(out)@) =~= views_of(old(out)@) + spec_embedded_seq(
                    raw@,
                    bo,
                    t,
                    count as int,
                    i as int,
                ));
            }
        },
    }
}

/// Collects the items of a referenced entry from offset `off` on, having
/// already consumed `bytes_read` of the `max` total bytes.
fn read_all_ref(
    doc: &LazyIfds,
    t: EntryType,
    off: u64,
    bytes_read: u64,
    max: u64,
    out: &mut Vec<TiffValue>,
) -> (r: Result<(), Error>)
    ensures
        match spec_all_ref(
            doc.data@,
            doc.byte_order,
            t,
            off as int,
            bytes_read as int,
            max as int,
        ) {
            Ok(model) => r is Ok && views_of(final(out)@) == views_of(old(out)@) + model,
            Err(k) => r matches Err(e) && e.kind() == k,
        },
    decreases max - bytes_read,
{
    if bytes_read >= max {
        proof {
            assert(views_of(final(out)@) =~= views_of(old(out)@) + Seq::<ValRec>::empty());
        }
        return Ok(());
    }
    match ref_read_one(doc, t, off) {
        Err(e) => Err(e),
        Ok(p) => {
            let ghost v_rec = p.0@;
            let c = p.1;
            out.push(p.0);
            proof {
                assert(views_of(out@) =~= views_of(old(out)@) + seq![v_rec]);
            }
            let nb128 = bytes_read as u128 + c as u128;
            if nb128 >= max as u128 {
                proof {
                    assert(views_of(out@) =~= views_of(old(out)@) + seq![v_rec]);
                }
                Ok(())
            } else {
                let nb = nb128 as u64;
                let r = read_all_ref(doc, t, off + c, nb, max, out);
                proof {
                    match spec_all_ref(
                        doc.data@,
                        doc.byte_order,
                        t,
                        off as int,
                        bytes_read as int,
                        max as int,
                    ) {
                        Ok(model) => {
                            if r is Ok {
                                assert(views_of(final(out)@) =~= views_of(old(out)@) + model);
                            }
                        },
                        Err(_) => {},
                    }
                }
                r
            }
        },
    }
}

/// Embedded/referenced boundary law: a total data size of exactly 4 bytes
/// decodes via the embedded path; one byte more takes the referenced path.
pub proof fn lemma_embedded_boundary(t: EntryType, count: u32)
    requires
        spec_type_size(t) is Some,
    ensures
        spec_type_size(t)->0 * count == 4 ==> spec_is_embedded(t, count),
        spec_type_size(t)->0 * count == 5 ==> !spec_is_embedded(t, count),
{
}

} // verus!
