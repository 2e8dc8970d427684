//! The header of a shared video file and the place of its latest frame.
//!
//! The file starts with a header of 256 bytes: the magic `FEAGIVID`, then
//! little-endian fields at fixed places. Behind the header lie `num_slots`
//! frame slots of `frame_stride` bytes each. The writer fills the slots in
//! turn and records in the header which one it wrote last.

use vstd::prelude::*;
use crate::le::{le_u32, le_u64, read_u32_le, read_u64_le};

verus! {

/// Bytes of the header.
pub const HEADER_SIZE: usize = 256;

/// The bytes that a shared video file starts with.
pub open spec fn magic() -> Seq<u8> {
    seq![0x46u8, 0x45u8, 0x41u8, 0x47u8, 0x49u8, 0x56u8, 0x49u8, 0x44u8]
}

/// `b` holds a whole header that starts with the magic.
pub open spec fn has_header(b: Seq<u8>) -> bool {
    b.len() >= 256 && b.subrange(0, 8) == magic()
}

/// The fields of a header, and the length of the file it was read from.
#[derive(Clone, Copy, Debug, PartialEq, Eq, Structural)]
pub struct HeaderInfo {
    pub width: u32,
    pub height: u32,
    pub channels: u32,
    pub num_slots: u32,
    pub frame_stride: u64,
    pub write_index: u32,
    pub frame_seq: u64,
    pub file_len: usize,
}

/// The fields of the header of `b`.
pub open spec fn header_of(b: Seq<u8>) -> HeaderInfo {
    HeaderInfo {
        width: le_u32(b, 12) as u32,
        height: le_u32(b, 16) as u32,
        channels: le_u32(b, 20) as u32,
        num_slots: le_u32(b, 28) as u32,
        frame_stride: le_u64(b, 32) as u64,
        write_index: le_u32(b, 40) as u32,
        frame_seq: le_u64(b, 44) as u64,
        file_len: b.len() as usize,
    }
}

/// Where a frame lies in the file, and what the header said when it was
/// located.
#[derive(Clone, Copy, Debug, PartialEq, Eq, Structural)]
pub struct FrameSlot {
    /// Where the frame starts.
    pub offset: usize,
    /// How many bytes the frame takes.
    pub length: usize,
    pub width: u32,
    pub height: u32,
    /// How many slots the file holds.
    pub num_slots: u32,
    /// The slot counter of the header.
    pub write_index: u32,
    /// The frame counter of the header.
    pub frame_seq: u64,
}

/// A frame can be taken from a file with header `h`: three channels, a
/// width and a height, at least one slot, and room for every slot.
pub open spec fn frame_available(h: HeaderInfo) -> bool {
    &&& h.channels == 3
    &&& h.width > 0
    &&& h.height > 0
    &&& h.num_slots > 0
    &&& 256 + h.frame_stride * h.num_slots <= h.file_len
}

/// Where the slot lies that `write_index` points at.
pub open spec fn slot_offset(h: HeaderInfo, write_index: u32) -> int {
    256 + (write_index as int % h.num_slots as int) * h.frame_stride
}

/// The latest frame of a file with header `h`.
pub open spec fn latest_slot(h: HeaderInfo) -> FrameSlot {
    FrameSlot {
        offset: slot_offset(h, h.write_index) as usize,
        length: h.frame_stride as usize,
        width: h.width,
        height: h.height,
        num_slots: h.num_slots,
        write_index: h.write_index,
        frame_seq: h.frame_seq,
    }
}

/// Whether `b` holds a whole header that starts with the magic.
pub fn check_header(b: &[u8]) -> (ok: bool)
    ensures
        ok == has_header(b@),
{
    if b.len() < HEADER_SIZE {
        return false;
    }
    let ok = b[0] == 0x46 && b[1] == 0x45 && b[2] == 0x41 && b[3] == 0x47 && b[4] == 0x49 && b[5]
        == 0x56 && b[6] == 0x49 && b[7] == 0x44;
    proof {
        let head = b@.subrange(0, 8);
        if ok {
            assert(head =~= magic());
        } else {
            assert(head[0] == b@[0] && head[1] == b@[1] && head[2] == b@[2] && head[3] == b@[3]
                && head[4] == b@[4] && head[5] == b@[5] && head[6] == b@[6] && head[7] == b@[7]);
        }
    }
    ok
}

/// Reads the fields of the header of `b`.
pub fn read_header(b: &[u8]) -> (r: Option<HeaderInfo>)
    ensures
        r == if has_header(b@) {
            Some(header_of(b@))
        } else {
            None
        },
{
    if !check_header(b) {
        return None;
    }
    let width = read_u32_le(b, 12);
    let height = read_u32_le(b, 16);
    let channels = read_u32_le(b, 20);
    let num_slots = read_u32_le(b, 28);
    let frame_stride = read_u64_le(b, 32);
    let write_index = read_u32_le(b, 40);
    let frame_seq = read_u64_le(b, 44);
    match (width, height, channels, num_slots, frame_stride, write_index, frame_seq) {
        (
            Some(width),
            Some(height),
            Some(channels),
            Some(num_slots),
            Some(frame_stride),
            Some(write_index),
            Some(frame_seq),
        ) => Some(
            HeaderInfo {
                width,
                height,
                channels,
                num_slots,
                frame_stride,
                write_index,
                frame_seq,
                file_len: b.len(),
            },
        ),
        _ => None,
    }
}

/// The slots of `slots` frames of `stride` bytes end within `len` bytes
/// after the header.
fn slots_fit(stride: u64, slots: u32, len: usize) -> (fit: bool)
    ensures
        fit == (256 + stride * slots <= len),
{
    assert(stride * slots <= 0xffff_ffff_ffff_ffff * 0xffff_ffff) by (nonlinear_arith)
        requires
            stride <= 0xffff_ffff_ffff_ffff,
            slots <= 0xffff_ffff,
    ;
    let area: u128 = (stride as u128) * (slots as u128);
    area + 256 <= len as u128
}

/// Where the slot lies that `write_index` points at.
fn locate_slot(h: &HeaderInfo, write_index: u32) -> (offset: usize)
    requires
        h.num_slots > 0,
        256 + h.frame_stride * h.num_slots <= h.file_len,
    ensures
        offset == slot_offset(*h, write_index),
        offset + h.frame_stride <= h.file_len,
{
    let slot: u32 = write_index % h.num_slots;
    assert(slot * h.frame_stride + h.frame_stride <= h.num_slots * h.frame_stride)
        by (nonlinear_arith)
        requires
            slot < h.num_slots,
    ;
    assert(0 <= slot * h.frame_stride) by (nonlinear_arith);
    assert(h.frame_stride * h.num_slots == h.num_slots * h.frame_stride) by (nonlinear_arith);
    let stride: usize = h.frame_stride as usize;
    assert((slot as usize) * stride == slot * h.frame_stride);
    HEADER_SIZE + (slot as usize) * stride
}

/// What to do with a frame that was copied while the writer may have
/// written on.
#[derive(Clone, Copy, Debug, PartialEq, Eq, Structural)]
pub enum FrameCheck {
    /// The header's counters can no longer be read: there is no frame.
    Lost,
    /// The copy stands.
    Keep,
    /// The writer has moved on: the frame is to be copied again from
    /// `offset`.
    CopyAgain { offset: usize },
}

/// What to do with the copy of `first` when the file reads `b`
/// afterwards. The copy stands if the header's counters are those of
/// `first`. If they have moved on, the frame is copied again from the slot
/// that the slot counter now points at, with the slot count and the frame
/// length of `first`, unless that slot ends beyond the file.
pub open spec fn frame_check(b: Seq<u8>, first: FrameSlot) -> FrameCheck {
    let write_index = le_u32(b, 40);
    let offset = 256 + (write_index % first.num_slots as int) * first.length;
    if b.len() < 52 || first.num_slots == 0 {
        FrameCheck::Lost
    } else if le_u64(b, 44) == first.frame_seq && write_index == first.write_index {
        FrameCheck::Keep
    } else if offset + first.length <= b.len() {
        FrameCheck::CopyAgain { offset: offset as usize }
    } else {
        FrameCheck::Keep
    }
}

/// Decides, after a frame was copied, whether the copy stands or the
/// writer has moved on in the meantime and the frame is to be copied again.
pub fn recheck_frame(b: &[u8], first: &FrameSlot) -> (r: FrameCheck)
    ensures
        r == frame_check(b@, *first),
        r matches FrameCheck::CopyAgain { offset } ==> offset + first.length <= b@.len(),
{
    let write_index = match read_u32_le(b, 40) {
        Some(v) => v,
        None => {
            return FrameCheck::Lost;
        },
    };
    let frame_seq = match read_u64_le(b, 44) {
        Some(v) => v,
        None => {
            return FrameCheck::Lost;
        },
    };
    if first.num_slots == 0 {
        return FrameCheck::Lost;
    }
    if frame_seq == first.frame_seq && write_index == first.write_index {
        return FrameCheck::Keep;
    }
    let slot: u32 = write_index % first.num_slots;
    assert((slot as int) * (first.length as int) <= 0xffff_ffff * 0xffff_ffff_ffff_ffff)
        by (nonlinear_arith)
        requires
            0 <= slot <= 0xffff_ffff,
            0 <= first.length <= 0xffff_ffff_ffff_ffff,
    ;
    let end: u128 = 256 + (slot as u128) * (first.length as u128) + (first.length as u128);
    if end <= b.len() as u128 {
        FrameCheck::CopyAgain { offset: (end - first.length as u128) as usize }
    } else {
        FrameCheck::Keep
    }
}

/// Copies the bytes of a frame out of a file.
pub fn copy_frame(b: &[u8], offset: usize, length: usize) -> (frame: Vec<u8>)
    requires
        offset + length <= b@.len(),
    ensures
        frame@ == b@.subrange(offset as int, offset + length),
{
    let len: usize = b.len();
    let mut frame: Vec<u8> = Vec::with_capacity(length);
    let mut k: usize = 0;
    while k < length
        invariant
            k <= length,
            offset + length <= len == b@.len(),
            frame@ == b@.subrange(offset as int, offset + k),
        decreases length - k,
    {
        frame.push(b[offset + k]);
        k = k + 1;
        assert(frame@ =~= b@.subrange(offset as int, offset + k));
    }
    frame
}

/// Reader of a shared video file. It remembers the path of the file that
/// was opened; the mapped bytes stay with the caller and are handed to each
/// call.
#[derive(Clone, Debug, PartialEq, Eq)]
pub struct SharedMemVideo {
    path: Option<String>,
}

impl SharedMemVideo {
    /// The path of the file that is open, if one is.
    pub closed spec fn opened(&self) -> Option<String> {
        self.path
    }

    /// A reader with no file open.
    pub fn new() -> (v: SharedMemVideo)
        ensures
            v.opened() is None,
    {
        SharedMemVideo { path: None }
    }

    /// Takes the mapped bytes of the file at `path` if they hold a whole
    /// header that starts with the magic, and remembers the path then.
    pub fn open(&mut self, path: String, mapped: &[u8]) -> (ok: bool)
        ensures
            ok == has_header(mapped@),
            ok ==> final(self).opened() == Some(path),
            !ok ==> final(self).opened() == old(self).opened(),
    {
        if !check_header(mapped) {
            return false;
        }
        self.path = Some(path);
        true
    }

    /// Finds the latest frame in the mapped bytes of the open file.
    pub fn get_texture(&self, mapped: &[u8]) -> (r: Option<FrameSlot>)
        ensures
            r == if self.opened() is Some && has_header(mapped@) && frame_available(
                header_of(mapped@),
            ) {
                Some(latest_slot(header_of(mapped@)))
            } else {
                None
            },
            r matches Some(slot) ==> slot.offset + slot.length <= mapped@.len(),
    {
        if self.path.is_none() {
            return None;
        }
        let h = match read_header(mapped) {
            Some(h) => h,
            None => {
                return None;
            },
        };
        if h.channels != 3 || h.width == 0 || h.height == 0 {
            return None;
        }
        if h.num_slots == 0 {
            return None;
        }
        if !slots_fit(h.frame_stride, h.num_slots, h.file_len) {
            return None;
        }
        assert(h.frame_stride <= h.file_len) by (nonlinear_arith)
            requires
                h.num_slots > 0,
                256 + h.frame_stride * h.num_slots <= h.file_len,
        ;
        let offset = locate_slot(&h, h.write_index);
        Some(
            FrameSlot {
                offset,
                length: h.frame_stride as usize,
                width: h.width,
                height: h.height,
                num_slots: h.num_slots,
                write_index: h.write_index,
                frame_seq: h.frame_seq,
            },
        )
    }

    /// Reads the header fields from the mapped bytes of the open file.
    pub fn get_header_info(&self, mapped: &[u8]) -> (r: Option<HeaderInfo>)
        ensures
            r == if self.opened() is Some && has_header(mapped@) {
                Some(header_of(mapped@))
            } else {
                None
            },
    {
        if self.path.is_none() {
            return None;
        }
        read_header(mapped)
    }

    /// The path of the file that is open, or the empty text.
    pub fn get_path(&self) -> (path: String)
        ensures
            match self.opened() {
                Some(p) => path@ == p@,
                None => path@.len() == 0,
            },
    {
        match &self.path {
            Some(p) => p.clone(),
            None => String::new(),
        }
    }
}

} // verus!
