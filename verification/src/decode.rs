//! Decoding of a cortical-mapped neuron payload into arrays per area.

use vstd::prelude::*;
use vstd::string::*;
use crate::areas::{AreaMap, AreaOutput, AreaView};
use crate::le::{i32_at, le_i32, le_u32, lemma_wrapping_sum, u32_at};
use crate::text::{
    ascii_text, decimal, decimal_text, is_ascii_bytes, lemma_ascii_is_utf8, strip_trailing_nul,
    trim_trailing_nul, utf8_lossy, utf8_lossy_text,
};
use crate::wire::{
    area_error, area_id_bytes, area_neurons, area_offset, check_area, check_layout, check_preamble,
    declared_areas, header_position, header_start, layout_error, lemma_first_area_error_none,
    lemma_first_area_error_skip, lemma_first_area_error_some, preamble_error, read_area_length,
    read_area_offset, well_formed, DecodeError, AREA_ID_LEN,
};

verus! {

/// The `n` signed words stored little-endian from `start` on.
pub open spec fn i32_run(b: Seq<u8>, start: int, n: int) -> Seq<i32> {
    Seq::new(n as nat, |k: int| le_i32(b, start + 4 * k) as i32)
}

/// The `n` unsigned words stored little-endian from `start` on.
pub open spec fn u32_run(b: Seq<u8>, start: int, n: int) -> Seq<u32> {
    Seq::new(n as nat, |k: int| le_u32(b, start + 4 * k) as u32)
}

/// The arrays of area `i`: its data holds every x, then every y, every z
/// and every potential.
pub open spec fn area_arrays(b: Seq<u8>, i: int) -> AreaView {
    let n = area_neurons(b, i);
    let start = area_offset(b, i);
    AreaView {
        x: i32_run(b, start, n),
        y: i32_run(b, start + 4 * n, n),
        z: i32_run(b, start + 8 * n, n),
        p: u32_run(b, start + 12 * n, n),
    }
}

/// The id of area `i` as text: its six bytes decoded as lossy UTF-8,
/// without the NUL characters at the end.
pub open spec fn area_id(b: Seq<u8>, i: int) -> Seq<char> {
    strip_trailing_nul(utf8_lossy_text(area_id_bytes(b, i)))
}

/// The id of area `i` read byte by byte: each byte as the character with
/// that code, without the NUL characters at the end.
pub open spec fn plain_area_id(b: Seq<u8>, i: int) -> Seq<char> {
    strip_trailing_nul(ascii_text(area_id_bytes(b, i)))
}

/// Among the first `n` areas, an id whose bytes are all below 0x80 reads
/// byte by byte.
pub open spec fn ascii_ids_read_plainly(b: Seq<u8>, n: int) -> bool {
    forall|i: int|
        0 <= i < n && is_ascii_bytes(#[trigger] area_id_bytes(b, i)) ==> area_id(b, i)
            == plain_area_id(b, i)
}

/// The first `n` areas filed by id, one after the other: of two areas with
/// one id the later one stays.
pub open spec fn areas_upto(b: Seq<u8>, n: int) -> Map<Seq<char>, AreaView>
    decreases n,
{
    if n <= 0 {
        Map::empty()
    } else {
        areas_upto(b, n - 1).insert(area_id(b, n - 1), area_arrays(b, n - 1))
    }
}

/// The neurons of the first `n` areas, added up.
pub open spec fn neurons_upto(b: Seq<u8>, n: int) -> int
    decreases n,
{
    if n <= 0 {
        0
    } else {
        neurons_upto(b, n - 1) + area_neurons(b, n - 1)
    }
}

/// All areas of the payload, filed by id.
pub open spec fn decoded_areas(b: Seq<u8>) -> Map<Seq<char>, AreaView> {
    areas_upto(b, declared_areas(b))
}

/// The neurons of all areas of the payload, added up. An area counts also
/// when a later area with the same id replaces it.
pub open spec fn total_neurons(b: Seq<u8>) -> int {
    neurons_upto(b, declared_areas(b))
}

/// What decoding answers.
#[derive(Debug, PartialEq, Eq)]
pub struct DecodeOutput {
    /// Whether the buffer was a well-formed payload.
    pub success: bool,
    /// The neurons of all areas, added up modulo 2^32.
    pub total_neurons: u32,
    /// The arrays of each area, by id.
    pub areas: AreaMap,
    /// Why decoding failed, in words.
    pub error: Option<String>,
}

impl DecodeOutput {
    /// This is the answer to the well-formed payload `b`.
    pub open spec fn holds(&self, b: Seq<u8>) -> bool {
        &&& self.success
        &&& self.error is None
        &&& self.areas@ == decoded_areas(b)
        &&& self.total_neurons == total_neurons(b) % 0x1_0000_0000
        &&& ascii_ids_read_plainly(b, declared_areas(b))
    }

    /// This is the answer to a buffer that failed with `text`.
    pub open spec fn fails_with(&self, text: Seq<char>) -> bool {
        &&& !self.success
        &&& self.total_neurons == 0
        &&& self.areas@ == Map::<Seq<char>, AreaView>::empty()
        &&& self.error matches Some(message) && message@ == text
    }
}

/// Word `k` of a slice of `b` is word `k` of `b`, counted from where the
/// slice starts.
pub proof fn lemma_le_u32_subrange(b: Seq<u8>, from: int, to: int, at: int)
    requires
        0 <= from <= to <= b.len(),
        0 <= at,
        at + 4 <= to - from,
    ensures
        le_u32(b.subrange(from, to), at) == le_u32(b, from + at),
{
}

/// The signed words of a slice of `b` are those of `b` from where the slice
/// starts.
pub proof fn lemma_i32_run_subrange(b: Seq<u8>, from: int, to: int, n: int)
    requires
        0 <= from,
        0 <= n,
        from + 4 * n <= to <= b.len(),
    ensures
        i32_run(b.subrange(from, to), 0, n) == i32_run(b, from, n),
{
    let part = i32_run(b.subrange(from, to), 0, n);
    let whole = i32_run(b, from, n);
    assert forall|k: int| 0 <= k < n implies part[k] == whole[k] by {
        lemma_le_u32_subrange(b, from, to, 4 * k);
    }
    assert(part =~= whole);
}

/// The unsigned words of a slice of `b` are those of `b` from where the
/// slice starts.
pub proof fn lemma_u32_run_subrange(b: Seq<u8>, from: int, to: int, n: int)
    requires
        0 <= from,
        0 <= n,
        from + 4 * n <= to <= b.len(),
    ensures
        u32_run(b.subrange(from, to), 0, n) == u32_run(b, from, n),
{
    let part = u32_run(b.subrange(from, to), 0, n);
    let whole = u32_run(b, from, n);
    assert forall|k: int| 0 <= k < n implies part[k] == whole[k] by {
        lemma_le_u32_subrange(b, from, to, 4 * k);
    }
    assert(part =~= whole);
}

/// Converts little-endian bytes to signed words, four bytes each; bytes
/// after the last whole word are left out.
pub fn bytes_to_i32(bytes: &[u8]) -> (out: Vec<i32>)
    ensures
        out@ == i32_run(bytes@, 0, bytes@.len() as int / 4),
{
    let len: usize = bytes.len();
    let n: usize = len / 4;
    let mut out: Vec<i32> = Vec::with_capacity(n);
    let mut k: usize = 0;
    while k < n
        invariant
            k <= n,
            4 * n <= len == bytes@.len(),
            n == bytes@.len() / 4,
            out@ == i32_run(bytes@, 0, k as int),
        decreases n - k,
    {
        out.push(i32_at(bytes, 4 * k));
        k = k + 1;
        assert(out@ =~= i32_run(bytes@, 0, k as int));
    }
    out
}

/// Converts little-endian bytes to unsigned words, four bytes each; bytes
/// after the last whole word are left out. A potential is read this way:
/// the word is the bit pattern of its single-precision value.
pub fn bytes_to_u32(bytes: &[u8]) -> (out: Vec<u32>)
    ensures
        out@ == u32_run(bytes@, 0, bytes@.len() as int / 4),
{
    let len: usize = bytes.len();
    let n: usize = len / 4;
    let mut out: Vec<u32> = Vec::with_capacity(n);
    let mut k: usize = 0;
    while k < n
        invariant
            k <= n,
            4 * n <= len == bytes@.len(),
            n == bytes@.len() / 4,
            out@ == u32_run(bytes@, 0, k as int),
        decreases n - k,
    {
        out.push(u32_at(bytes, 4 * k));
        k = k + 1;
        assert(out@ =~= u32_run(bytes@, 0, k as int));
    }
    out
}

/// Reads the id of area `i` as text.
pub fn read_area_id(buf: &[u8], i: u16) -> (id: String)
    requires
        header_start(i + 1) <= buf@.len(),
    ensures
        id@ == area_id(buf@, i as int),
        is_ascii_bytes(area_id_bytes(buf@, i as int)) ==> id@ == plain_area_id(buf@, i as int),
{
    let at: usize = header_position(i);
    let raw = utf8_lossy(&buf[at..at + AREA_ID_LEN]);
    proof {
        if is_ascii_bytes(area_id_bytes(buf@, i as int)) {
            lemma_ascii_is_utf8(area_id_bytes(buf@, i as int));
        }
    }
    trim_trailing_nul(raw.as_str())
}

/// Reads the arrays of area `i`.
pub fn read_area_arrays(buf: &[u8], i: u16) -> (area: AreaOutput)
    requires
        header_start(i + 1) <= buf@.len(),
        area_error(buf@, i as int) is None,
    ensures
        area@ == area_arrays(buf@, i as int),
{
    let start: usize = read_area_offset(buf, i) as usize;
    let length: usize = read_area_length(buf, i) as usize;
    let n: usize = length / 16;
    let run: usize = n * 4;
    let len: usize = buf.len();
    proof {
        vstd::arithmetic::div_mod::lemma_fundamental_div_mod(length as int, 16);
    }
    assert(length == 16 * n);
    assert(start + 4 * run <= len);
    let x_array = bytes_to_i32(&buf[start..start + run]);
    let y_array = bytes_to_i32(&buf[start + run..start + 2 * run]);
    let z_array = bytes_to_i32(&buf[start + 2 * run..start + 3 * run]);
    let p_array = bytes_to_u32(&buf[start + 3 * run..start + 4 * run]);
    proof {
        let b = buf@;
        let s = start as int;
        let r = run as int;
        lemma_i32_run_subrange(b, s, s + r, n as int);
        lemma_i32_run_subrange(b, s + r, s + 2 * r, n as int);
        lemma_i32_run_subrange(b, s + 2 * r, s + 3 * r, n as int);
        lemma_u32_run_subrange(b, s + 3 * r, s + 4 * r, n as int);
    }
    AreaOutput { x_array, y_array, z_array, p_array }
}

/// Decodes a payload. A malformed buffer gives the first error that the
/// layout checks find; a well-formed one always decodes.
pub fn decode_type_11_inner(buffer: &[u8]) -> (r: Result<DecodeOutput, DecodeError>)
    ensures
        match r {
            Ok(out) => well_formed(buffer@) && out.holds(buffer@),
            Err(e) => layout_error(buffer@) == Some(e),
        },
{
    let count: u16 = match check_preamble(buffer) {
        Ok(count) => count,
        Err(e) => {
            return Err(e);
        },
    };
    let mut areas = AreaMap::new();
    let mut total: u32 = 0;
    let mut i: u16 = 0;
    while i < count
        invariant
            i <= count,
            preamble_error(buffer@) is None,
            count == declared_areas(buffer@),
            forall|j: int| 0 <= j < i ==> area_error(buffer@, j) is None,
            areas@ == areas_upto(buffer@, i as int),
            total == neurons_upto(buffer@, i as int) % 0x1_0000_0000,
            ascii_ids_read_plainly(buffer@, i as int),
        decreases count - i,
    {
        match check_area(buffer, i) {
            Ok(_) => {},
            Err(e) => {
                proof {
                    lemma_first_area_error_skip(buffer@, 0, i as int, count as int);
                }
                return Err(e);
            },
        }
        let id = read_area_id(buffer, i);
        let area = read_area_arrays(buffer, i);
        let neurons: u32 = read_area_length(buffer, i) / 16;
        areas.insert(id, area);
        proof {
            lemma_wrapping_sum(total, neurons, neurons_upto(buffer@, i as int), neurons as int);
        }
        total = total.wrapping_add(neurons);
        i = i + 1;
    }
    proof {
        lemma_first_area_error_none(buffer@, 0, count as int);
    }
    Ok(DecodeOutput { success: true, total_neurons: total, areas, error: None })
}

/// The words in which failure `e` of buffer `b` is reported.
pub open spec fn failure_text(b: Seq<u8>, e: DecodeError) -> Seq<char> {
    match e {
        DecodeError::TooShort => "Buffer too small for global header"@,
        DecodeError::BadType { found } => "Invalid structure type: "@ + decimal_text(found as nat)
            + " (expected 11)"@,
        DecodeError::BadVersion { found } => "Unsupported version: "@ + decimal_text(found as nat)
            + " (expected 1)"@,
        DecodeError::NoAreas => "No cortical areas in data"@,
        DecodeError::TooShortForHeaders => "Buffer too small for area headers"@,
        DecodeError::RangeExceeded { area } => "Area "@ + area_id(b, area as int)
            + " data range exceeds buffer"@,
        DecodeError::Misaligned { area, length } => "Area "@ + area_id(b, area as int)
            + " data length "@ + decimal_text(length as nat) + " not divisible by 16"@,
    }
}

/// An area error of a buffer names an area whose header the buffer holds.
pub proof fn lemma_area_error_names_area(b: Seq<u8>, e: DecodeError) -> (i: int)
    requires
        layout_error(b) == Some(e),
        e is RangeExceeded || e is Misaligned,
    ensures
        0 <= i < declared_areas(b),
        header_start(i + 1) <= b.len(),
        area_error(b, i) == Some(e),
        e matches DecodeError::RangeExceeded { area } ==> area == i,
        e matches DecodeError::Misaligned { area, .. } ==> area == i,
{
    lemma_first_area_error_some(b, 0, declared_areas(b))
}

/// Says in words why `buffer` failed with `e`.
pub fn describe_failure(buffer: &[u8], e: DecodeError) -> (text: String)
    requires
        layout_error(buffer@) == Some(e),
    ensures
        text@ == failure_text(buffer@, e),
        text@.len() > 0,
{
    match e {
        DecodeError::TooShort => {
            proof {
                reveal_strlit("Buffer too small for global header");
            }
            String::from_str("Buffer too small for global header")
        },
        DecodeError::BadType { found } => {
            proof {
                reveal_strlit("Invalid structure type: ");
            }
            let mut text = String::from_str("Invalid structure type: ");
            text.append(decimal(found as u64).as_str());
            text.append(" (expected 11)");
            text
        },
        DecodeError::BadVersion { found } => {
            proof {
                reveal_strlit("Unsupported version: ");
            }
            let mut text = String::from_str("Unsupported version: ");
            text.append(decimal(found as u64).as_str());
            text.append(" (expected 1)");
            text
        },
        DecodeError::NoAreas => {
            proof {
                reveal_strlit("No cortical areas in data");
            }
            String::from_str("No cortical areas in data")
        },
        DecodeError::TooShortForHeaders => {
            proof {
                reveal_strlit("Buffer too small for area headers");
            }
            String::from_str("Buffer too small for area headers")
        },
        DecodeError::RangeExceeded { area } => {
            proof {
                reveal_strlit("Area ");
                lemma_area_error_names_area(buffer@, e);
            }
            let mut text = String::from_str("Area ");
            text.append(read_area_id(buffer, area).as_str());
            text.append(" data range exceeds buffer");
            text
        },
        DecodeError::Misaligned { area, length } => {
            proof {
                reveal_strlit("Area ");
                lemma_area_error_names_area(buffer@, e);
            }
            let mut text = String::from_str("Area ");
            text.append(read_area_id(buffer, area).as_str());
            text.append(" data length ");
            text.append(decimal(length as u64).as_str());
            text.append(" not divisible by 16");
            text
        },
    }
}

/// Says in words why `buffer` is not a well-formed payload, and nothing
/// when it is one.
pub fn failure_message(buffer: &[u8]) -> (r: Option<String>)
    ensures
        match layout_error(buffer@) {
            None => r is None,
            Some(e) => r matches Some(text) && text@ == failure_text(buffer@, e) && text@.len() > 0,
        },
{
    match check_layout(buffer) {
        Ok(_) => None,
        Err(e) => Some(describe_failure(buffer, e)),
    }
}

/// Decodes a payload and reports the outcome in one record: the areas and
/// their neuron count on success; on failure no area, a count of zero and
/// the reason in words.
pub fn decode_type_11(buffer: &[u8]) -> (out: DecodeOutput)
    ensures
        match layout_error(buffer@) {
            None => out.holds(buffer@),
            Some(e) => out.fails_with(failure_text(buffer@, e)),
        },
        out.success <==> well_formed(buffer@),
{
    match decode_type_11_inner(buffer) {
        Ok(out) => out,
        Err(e) => DecodeOutput {
            success: false,
            total_neurons: 0,
            areas: AreaMap::new(),
            error: Some(describe_failure(buffer, e)),
        },
    }
}

} // verus!
