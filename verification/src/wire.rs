//! Layout of a cortical-mapped neuron payload and the checks that a buffer
//! must pass before its areas are read.
//!
//! A payload starts with four bytes: the structure type, the format version
//! and the number of areas as a little-endian `u16`. One 14-byte area header
//! per area follows: a 6-byte id, then the offset and the length of the
//! area's data, both little-endian `u32` and both counted from the start of
//! the buffer. The data of an area of `n` neurons is four runs of `n`
//! little-endian 32-bit words: every x, every y, every z, every potential.

use vstd::prelude::*;
use crate::le::{le_u16, le_u32, u16_at, u32_at};

verus! {

/// The structure type of a cortical-mapped neuron payload.
pub const STRUCTURE_TYPE: u8 = 11;

/// The only format version that is understood.
pub const FORMAT_VERSION: u8 = 1;

/// Bytes before the first area header.
pub const PREAMBLE_LEN: usize = 4;

/// Bytes of one area header.
pub const AREA_HEADER_LEN: usize = 14;

/// Bytes of an area id.
pub const AREA_ID_LEN: usize = 6;

/// Bytes that one neuron takes in an area's data.
pub const NEURON_LEN: usize = 16;

/// Why a buffer is not a well-formed payload.
#[derive(Clone, Copy, Debug, PartialEq, Eq, Structural)]
pub enum DecodeError {
    /// Fewer than four bytes.
    TooShort,
    /// The first byte is not the structure type.
    BadType { found: u8 },
    /// The second byte is not the format version.
    BadVersion { found: u8 },
    /// The header declares no area.
    NoAreas,
    /// The buffer ends before the last declared area header.
    TooShortForHeaders,
    /// The data of area `area` ends beyond the buffer.
    RangeExceeded { area: u16 },
    /// The data length of area `area` is no multiple of the neuron size.
    Misaligned { area: u16, length: u32 },
}

/// The classes that callers tell apart.
#[derive(Clone, Copy, Debug, PartialEq, Eq, Structural)]
pub enum ErrorKind {
    /// Wrong structure type or version, or a header without areas.
    Format,
    /// The buffer is shorter than its headers require.
    Truncated,
    /// An area's data length is no multiple of the neuron size.
    Alignment,
    /// An area's data lies outside the buffer.
    Range,
}

impl DecodeError {
    /// The class of this error.
    pub open spec fn kind_of(self) -> ErrorKind {
        match self {
            DecodeError::TooShort => ErrorKind::Truncated,
            DecodeError::BadType { .. } => ErrorKind::Format,
            DecodeError::BadVersion { .. } => ErrorKind::Format,
            DecodeError::NoAreas => ErrorKind::Format,
            DecodeError::TooShortForHeaders => ErrorKind::Truncated,
            DecodeError::RangeExceeded { .. } => ErrorKind::Range,
            DecodeError::Misaligned { .. } => ErrorKind::Alignment,
        }
    }

    /// The class of this error.
    pub fn kind(&self) -> (k: ErrorKind)
        ensures
            k == self.kind_of(),
    {
        match self {
            DecodeError::TooShort => ErrorKind::Truncated,
            DecodeError::BadType { .. } => ErrorKind::Format,
            DecodeError::BadVersion { .. } => ErrorKind::Format,
            DecodeError::NoAreas => ErrorKind::Format,
            DecodeError::TooShortForHeaders => ErrorKind::Truncated,
            DecodeError::RangeExceeded { .. } => ErrorKind::Range,
            DecodeError::Misaligned { .. } => ErrorKind::Alignment,
        }
    }
}

/// The number of areas that the header declares.
pub open spec fn declared_areas(b: Seq<u8>) -> int {
    le_u16(b, 2)
}

/// Where the header of area `i` starts.
pub open spec fn header_start(i: int) -> int {
    4 + 14 * i
}

/// The six id bytes of area `i`.
pub open spec fn area_id_bytes(b: Seq<u8>, i: int) -> Seq<u8> {
    b.subrange(header_start(i), header_start(i) + 6)
}

/// Where the data of area `i` starts.
pub open spec fn area_offset(b: Seq<u8>, i: int) -> int {
    le_u32(b, header_start(i) + 6)
}

/// How many bytes the data of area `i` takes.
pub open spec fn area_length(b: Seq<u8>, i: int) -> int {
    le_u32(b, header_start(i) + 10)
}

/// How many neurons area `i` holds.
pub open spec fn area_neurons(b: Seq<u8>, i: int) -> int {
    area_length(b, i) / 16
}

/// The data of area `i` lies inside the buffer.
pub open spec fn area_in_range(b: Seq<u8>, i: int) -> bool {
    area_offset(b, i) + area_length(b, i) <= b.len()
}

/// The data of area `i` is a whole number of neurons.
pub open spec fn area_aligned(b: Seq<u8>, i: int) -> bool {
    area_length(b, i) % 16 == 0
}

/// What is wrong with the first four bytes or with the room for the area
/// headers, if anything. The checks are made in this order.
pub open spec fn preamble_error(b: Seq<u8>) -> Option<DecodeError> {
    if b.len() < 4 {
        Some(DecodeError::TooShort)
    } else if b[0] != 11 {
        Some(DecodeError::BadType { found: b[0] })
    } else if b[1] != 1 {
        Some(DecodeError::BadVersion { found: b[1] })
    } else if declared_areas(b) == 0 {
        Some(DecodeError::NoAreas)
    } else if header_start(declared_areas(b)) > b.len() {
        Some(DecodeError::TooShortForHeaders)
    } else {
        None
    }
}

/// What is wrong with area `i`, if anything: its range is checked before
/// its alignment.
pub open spec fn area_error(b: Seq<u8>, i: int) -> Option<DecodeError> {
    if !area_in_range(b, i) {
        Some(DecodeError::RangeExceeded { area: i as u16 })
    } else if !area_aligned(b, i) {
        Some(DecodeError::Misaligned { area: i as u16, length: area_length(b, i) as u32 })
    } else {
        None
    }
}

/// The error of the first faulty area among `from..to`.
pub open spec fn first_area_error(b: Seq<u8>, from: int, to: int) -> Option<DecodeError>
    decreases to - from,
{
    if from >= to {
        None
    } else if area_error(b, from) is Some {
        area_error(b, from)
    } else {
        first_area_error(b, from + 1, to)
    }
}

/// Why `b` is not a well-formed payload, or `None` when it is one.
pub open spec fn layout_error(b: Seq<u8>) -> Option<DecodeError> {
    if preamble_error(b) is Some {
        preamble_error(b)
    } else {
        first_area_error(b, 0, declared_areas(b))
    }
}

/// `b` is a well-formed payload.
pub open spec fn well_formed(b: Seq<u8>) -> bool {
    layout_error(b) is None
}

/// Areas `from..to` are all sound exactly when none of them has an error.
pub proof fn lemma_first_area_error_none(b: Seq<u8>, from: int, to: int)
    ensures
        first_area_error(b, from, to) is None <==> forall|i: int|
            from <= i < to ==> area_error(b, i) is None,
    decreases to - from,
{
    if from < to {
        lemma_first_area_error_none(b, from + 1, to);
        if first_area_error(b, from, to) is None {
            assert forall|i: int| from <= i < to implies area_error(b, i) is None by {
                if i > from {
                    assert(area_error(b, i) is None);
                }
            }
        }
    }
}

/// Sound areas in front of `from` do not change which error is first.
pub proof fn lemma_first_area_error_skip(b: Seq<u8>, from: int, mid: int, to: int)
    requires
        from <= mid <= to,
        forall|i: int| from <= i < mid ==> area_error(b, i) is None,
    ensures
        first_area_error(b, from, to) == first_area_error(b, mid, to),
    decreases mid - from,
{
    if from < mid {
        lemma_first_area_error_skip(b, from + 1, mid, to);
    }
}

/// An error among `from..to` is the error of an area there that has only
/// sound areas in front of it.
pub proof fn lemma_first_area_error_some(b: Seq<u8>, from: int, to: int) -> (i: int)
    requires
        first_area_error(b, from, to) is Some,
    ensures
        from <= i < to,
        first_area_error(b, from, to) == area_error(b, i),
        forall|j: int| from <= j < i ==> area_error(b, j) is None,
    decreases to - from,
{
    if area_error(b, from) is Some {
        from
    } else {
        lemma_first_area_error_some(b, from + 1, to)
    }
}

/// Checks the first four bytes and the room for the area headers, and
/// returns the number of areas.
pub fn check_preamble(buf: &[u8]) -> (r: Result<u16, DecodeError>)
    ensures
        match r {
            Ok(count) => preamble_error(buf@) is None && count == declared_areas(buf@),
            Err(e) => preamble_error(buf@) == Some(e),
        },
{
    if buf.len() < PREAMBLE_LEN {
        return Err(DecodeError::TooShort);
    }
    let structure_type: u8 = buf[0];
    let version: u8 = buf[1];
    let count: u16 = u16_at(buf, 2);
    if structure_type != STRUCTURE_TYPE {
        return Err(DecodeError::BadType { found: structure_type });
    }
    if version != FORMAT_VERSION {
        return Err(DecodeError::BadVersion { found: version });
    }
    if count == 0 {
        return Err(DecodeError::NoAreas);
    }
    let headers_end: usize = PREAMBLE_LEN + (count as usize) * AREA_HEADER_LEN;
    if headers_end > buf.len() {
        return Err(DecodeError::TooShortForHeaders);
    }
    Ok(count)
}

/// Where the header of area `i` starts.
pub fn header_position(i: u16) -> (at: usize)
    ensures
        at == header_start(i as int),
{
    PREAMBLE_LEN + (i as usize) * AREA_HEADER_LEN
}

/// Reads where the data of area `i` starts.
pub fn read_area_offset(buf: &[u8], i: u16) -> (offset: u32)
    requires
        header_start(i + 1) <= buf@.len(),
    ensures
        offset == area_offset(buf@, i as int),
{
    u32_at(buf, header_position(i) + AREA_ID_LEN)
}

/// Reads how many bytes the data of area `i` takes.
pub fn read_area_length(buf: &[u8], i: u16) -> (length: u32)
    requires
        header_start(i + 1) <= buf@.len(),
    ensures
        length == area_length(buf@, i as int),
{
    u32_at(buf, header_position(i) + AREA_ID_LEN + 4)
}

/// Checks the range and then the alignment of area `i`.
pub fn check_area(buf: &[u8], i: u16) -> (r: Result<(), DecodeError>)
    requires
        header_start(i + 1) <= buf@.len(),
    ensures
        match r {
            Ok(_) => area_error(buf@, i as int) is None,
            Err(e) => area_error(buf@, i as int) == Some(e),
        },
{
    let offset: u32 = read_area_offset(buf, i);
    let length: u32 = read_area_length(buf, i);
    if offset as u64 + length as u64 > buf.len() as u64 {
        return Err(DecodeError::RangeExceeded { area: i });
    }
    if length as usize % NEURON_LEN != 0 {
        return Err(DecodeError::Misaligned { area: i, length });
    }
    Ok(())
}

/// Checks the whole layout of a payload and returns the number of areas.
pub fn check_layout(buf: &[u8]) -> (r: Result<u16, DecodeError>)
    ensures
        match r {
            Ok(count) => well_formed(buf@) && count == declared_areas(buf@),
            Err(e) => layout_error(buf@) == Some(e),
        },
{
    let count: u16 = match check_preamble(buf) {
        Ok(count) => count,
        Err(e) => {
            return Err(e);
        },
    };
    let mut i: u16 = 0;
    while i < count
        invariant
            i <= count,
            preamble_error(buf@) is None,
            count == declared_areas(buf@),
            forall|j: int| 0 <= j < i ==> area_error(buf@, j) is None,
        decreases count - i,
    {
        match check_area(buf, i) {
            Ok(_) => {},
            Err(e) => {
                proof {
                    lemma_first_area_error_skip(buf@, 0, i as int, count as int);
                }
                return Err(e);
            },
        }
        i = i + 1;
    }
    proof {
        lemma_first_area_error_none(buf@, 0, count as int);
    }
    Ok(count)
}

} // verus!
