//! What holds of decoding for every buffer.

use vstd::prelude::*;
use crate::areas::AreaView;
use crate::decode::{
    area_arrays, area_id, areas_upto, decoded_areas, i32_run, neurons_upto, total_neurons, u32_run,
};
use crate::le::{le_i32, le_u32, lemma_digits_spell, lemma_spelled_by_digits, signed32};
use crate::listing::signed_area;
use crate::voxels::area_voxels;
use crate::text::{strip_trailing_nul, utf8_lossy_text};
use crate::wire::{
    area_aligned, area_error, area_id_bytes, area_in_range, area_length, area_neurons, area_offset,
    declared_areas, first_area_error, header_start, layout_error, lemma_first_area_error_none,
    preamble_error, well_formed, DecodeError, ErrorKind,
};

verus! {

/// A buffer with a sound preamble whose areas all lie inside it, each with
/// a length that is a multiple of 16, is a well-formed payload: decoding it
/// succeeds. The neuron count that decoding reports is then the sum of the
/// areas' lengths divided by 16, as long as that sum fits in 32 bits.
pub proof fn law_sound_areas_decode(b: Seq<u8>)
    requires
        preamble_error(b) is None,
        forall|i: int| 0 <= i < declared_areas(b) ==> area_in_range(b, i) && area_aligned(b, i),
    ensures
        well_formed(b),
        0 <= total_neurons(b),
        total_neurons(b) <= 0xffff_ffff ==> total_neurons(b) % 0x1_0000_0000 == total_neurons(b),
{
    lemma_first_area_error_none(b, 0, declared_areas(b));
    lemma_neurons_upto_bounds(b, declared_areas(b));
}

/// The first `n` areas hold at most `n` times 2^28 neurons.
pub proof fn lemma_neurons_upto_bounds(b: Seq<u8>, n: int)
    requires
        0 <= n,
        header_start(n) <= b.len(),
    ensures
        0 <= neurons_upto(b, n) <= n * 0x1000_0000,
    decreases n,
{
    if n > 0 {
        lemma_neurons_upto_bounds(b, n - 1);
        assert(0 <= area_length(b, n - 1) <= 0xffff_ffff);
    }
}

/// A buffer of four bytes or more whose first byte is not 11 fails with a
/// format error, whatever else it holds.
pub proof fn law_wrong_type_is_format_error(b: Seq<u8>)
    requires
        b.len() >= 4,
        b[0] != 11,
    ensures
        layout_error(b) == Some(DecodeError::BadType { found: b[0] }),
        layout_error(b)->0.kind_of() == ErrorKind::Format,
{
}

/// A buffer of fewer than four bytes fails as truncated.
pub proof fn law_short_buffer_is_truncated(b: Seq<u8>)
    requires
        b.len() < 4,
    ensures
        layout_error(b) == Some(DecodeError::TooShort),
        layout_error(b)->0.kind_of() == ErrorKind::Truncated,
{
}

/// Byte `k` of the little-endian form of the 32-bit pattern `v`.
pub open spec fn word_byte(v: int, k: int) -> u8 {
    if k == 0 {
        (v % 0x100) as u8
    } else if k == 1 {
        (v / 0x100 % 0x100) as u8
    } else if k == 2 {
        (v / 0x1_0000 % 0x100) as u8
    } else {
        (v / 0x100_0000 % 0x100) as u8
    }
}

/// The four bytes of the little-endian form of the 32-bit pattern `v`.
pub open spec fn word_bytes(v: int) -> Seq<u8> {
    seq![word_byte(v, 0), word_byte(v, 1), word_byte(v, 2), word_byte(v, 3)]
}

/// The 32-bit pattern of a signed number in two's complement.
pub open spec fn pattern32(v: int) -> int {
    if v < 0 {
        v + 0x1_0000_0000
    } else {
        v
    }
}

/// The little-endian bytes of a row of signed words.
pub open spec fn i32_bytes(row: Seq<i32>) -> Seq<u8> {
    Seq::new(4 * row.len(), |j: int| word_byte(pattern32(row[j / 4] as int), j % 4))
}

/// The little-endian bytes of a row of unsigned words.
pub open spec fn u32_bytes(row: Seq<u32>) -> Seq<u8> {
    Seq::new(4 * row.len(), |j: int| word_byte(row[j / 4] as int, j % 4))
}

/// The preamble and the header of a payload of one area with `n` neurons
/// whose data lies directly behind the header.
pub open spec fn encode_header(id: Seq<u8>, n: int) -> Seq<u8> {
    seq![11u8, 1u8, 1u8, 0u8] + id + word_bytes(18) + word_bytes(16 * n)
}

/// The data of an area: its four rows in little-endian form.
pub open spec fn encode_rows(area: AreaView) -> Seq<u8> {
    i32_bytes(area.x) + i32_bytes(area.y) + i32_bytes(area.z) + u32_bytes(area.p)
}

/// A payload of one area: the preamble, the area header, and the four rows
/// directly behind it.
pub open spec fn encode_area(id: Seq<u8>, area: AreaView) -> Seq<u8> {
    encode_header(id, area.x.len() as int) + encode_rows(area)
}

/// Reading the little-endian form of a 32-bit pattern gives the pattern.
pub proof fn lemma_word_read(b: Seq<u8>, at: int, v: int)
    requires
        0 <= v <= 0xffff_ffff,
        0 <= at,
        at + 4 <= b.len(),
        b[at] == word_byte(v, 0),
        b[at + 1] == word_byte(v, 1),
        b[at + 2] == word_byte(v, 2),
        b[at + 3] == word_byte(v, 3),
    ensures
        le_u32(b, at) == v,
        le_i32(b, at) == signed32(v),
{
    lemma_spelled_by_digits(v);
}

/// Signed words that lie in a buffer in little-endian form are read back
/// from there.
pub proof fn lemma_i32_row_read(b: Seq<u8>, start: int, row: Seq<i32>)
    requires
        0 <= start,
        start + 4 * row.len() <= b.len(),
        b.subrange(start, start + 4 * row.len()) == i32_bytes(row),
    ensures
        i32_run(b, start, row.len() as int) == row,
{
    let n = row.len() as int;
    let part = b.subrange(start, start + 4 * n);
    let got = i32_run(b, start, n);
    assert forall|k: int| 0 <= k < n implies got[k] == row[k] by {
        let at = start + 4 * k;
        assert(b[at] == part[4 * k] && b[at + 1] == part[4 * k + 1] && b[at + 2] == part[4 * k
            + 2] && b[at + 3] == part[4 * k + 3]);
        lemma_word_read(b, at, pattern32(row[k] as int));
    }
    assert(got =~= row);
}

/// Unsigned words that lie in a buffer in little-endian form are read back
/// from there.
pub proof fn lemma_u32_row_read(b: Seq<u8>, start: int, row: Seq<u32>)
    requires
        0 <= start,
        start + 4 * row.len() <= b.len(),
        b.subrange(start, start + 4 * row.len()) == u32_bytes(row),
    ensures
        u32_run(b, start, row.len() as int) == row,
{
    let n = row.len() as int;
    let part = b.subrange(start, start + 4 * n);
    let got = u32_run(b, start, n);
    assert forall|k: int| 0 <= k < n implies got[k] == row[k] by {
        let at = start + 4 * k;
        assert(b[at] == part[4 * k] && b[at + 1] == part[4 * k + 1] && b[at + 2] == part[4 * k
            + 2] && b[at + 3] == part[4 * k + 3]);
        lemma_word_read(b, at, row[k] as int);
    }
    assert(got =~= row);
}

/// The header of an encoded area says where the rows lie.
pub proof fn lemma_encoded_header(id: Seq<u8>, n: int, rows: Seq<u8>)
    requires
        id.len() == 6,
        0 <= n,
        18 + 16 * n <= 0xffff_ffff,
        rows.len() == 16 * n,
    ensures
        ({
            let b = encode_header(id, n) + rows;
            &&& b.len() == 18 + 16 * n
            &&& preamble_error(b) is None
            &&& declared_areas(b) == 1
            &&& area_id_bytes(b, 0) == id
            &&& area_offset(b, 0) == 18
            &&& area_length(b, 0) == 16 * n
            &&& b.subrange(18, 18 + 16 * n) == rows
        }),
{
    let h = encode_header(id, n);
    let b = h + rows;
    assert(h.len() == 18);
    assert(b[0] == 11 && b[1] == 1 && b[2] == 1 && b[3] == 0);
    assert(area_id_bytes(b, 0) =~= id);
    assert(b[10] == word_byte(18, 0) && b[11] == word_byte(18, 1) && b[12] == word_byte(18, 2)
        && b[13] == word_byte(18, 3));
    lemma_word_read(b, 10, 18);
    assert(b[14] == word_byte(16 * n, 0) && b[15] == word_byte(16 * n, 1) && b[16] == word_byte(
        16 * n,
        2,
    ) && b[17] == word_byte(16 * n, 3));
    lemma_word_read(b, 14, 16 * n);
    assert(b.subrange(18, 18 + 16 * n) =~= rows);
}

/// Round trip: the payload that holds one area's rows in little-endian
/// form decodes to exactly this area, filed under the text of its id, and
/// to the number of its neurons.
pub proof fn law_round_trip(id: Seq<u8>, area: AreaView)
    requires
        id.len() == 6,
        area.x.len() == area.y.len() == area.z.len() == area.p.len(),
        18 + 16 * area.x.len() <= 0xffff_ffff,
    ensures
        well_formed(encode_area(id, area)),
        decoded_areas(encode_area(id, area)) == Map::<Seq<char>, AreaView>::empty().insert(
            strip_trailing_nul(utf8_lossy_text(id)),
            area,
        ),
        total_neurons(encode_area(id, area)) == area.x.len(),
{
    let b = encode_area(id, area);
    let n = area.x.len() as int;
    let rows = encode_rows(area);
    lemma_encoded_header(id, n, rows);
    assert(area_neurons(b, 0) == n);
    assert(area_error(b, 0) is None);
    assert(first_area_error(b, 1, 1) is None);
    assert(first_area_error(b, 0, 1) is None);
    assert(b.subrange(18, 18 + 4 * n) =~= i32_bytes(area.x)) by {
        assert(rows.subrange(0, 4 * n) =~= i32_bytes(area.x));
        assert(b.subrange(18, 18 + 4 * n) =~= b.subrange(18, 18 + 16 * n).subrange(0, 4 * n));
    }
    assert(b.subrange(18 + 4 * n, 18 + 8 * n) =~= i32_bytes(area.y)) by {
        assert(rows.subrange(4 * n, 8 * n) =~= i32_bytes(area.y));
        assert(b.subrange(18 + 4 * n, 18 + 8 * n) =~= b.subrange(18, 18 + 16 * n).subrange(
            4 * n,
            8 * n,
        ));
    }
    assert(b.subrange(18 + 8 * n, 18 + 12 * n) =~= i32_bytes(area.z)) by {
        assert(rows.subrange(8 * n, 12 * n) =~= i32_bytes(area.z));
        assert(b.subrange(18 + 8 * n, 18 + 12 * n) =~= b.subrange(18, 18 + 16 * n).subrange(
            8 * n,
            12 * n,
        ));
    }
    assert(b.subrange(18 + 12 * n, 18 + 16 * n) =~= u32_bytes(area.p)) by {
        assert(rows.subrange(12 * n, 16 * n) =~= u32_bytes(area.p));
        assert(b.subrange(18 + 12 * n, 18 + 16 * n) =~= b.subrange(18, 18 + 16 * n).subrange(
            12 * n,
            16 * n,
        ));
    }
    lemma_i32_row_read(b, 18, area.x);
    lemma_i32_row_read(b, 18 + 4 * n, area.y);
    lemma_i32_row_read(b, 18 + 8 * n, area.z);
    lemma_u32_row_read(b, 18 + 12 * n, area.p);
    assert(area_arrays(b, 0) == area);
    assert(areas_upto(b, 0) == Map::<Seq<char>, AreaView>::empty());
    assert(areas_upto(b, 1) == areas_upto(b, 0).insert(area_id(b, 0), area_arrays(b, 0)));
    assert(neurons_upto(b, 0) == 0);
    assert(neurons_upto(b, 1) == neurons_upto(b, 0) + area_neurons(b, 0));
}

/// Bit for bit: in a well-formed payload the rows that decoding gives for
/// an area are the area's data. Written back in little-endian form, the
/// four rows are the four quarters of the data.
pub proof fn law_rows_are_the_data(b: Seq<u8>, i: int)
    requires
        well_formed(b),
        0 <= i < declared_areas(b),
    ensures
        ({
            let n = area_neurons(b, i);
            let start = area_offset(b, i);
            let rows = area_arrays(b, i);
            &&& start + 16 * n <= b.len()
            &&& i32_bytes(rows.x) == b.subrange(start, start + 4 * n)
            &&& i32_bytes(rows.y) == b.subrange(start + 4 * n, start + 8 * n)
            &&& i32_bytes(rows.z) == b.subrange(start + 8 * n, start + 12 * n)
            &&& u32_bytes(rows.p) == b.subrange(start + 12 * n, start + 16 * n)
        }),
{
    lemma_first_area_error_none(b, 0, declared_areas(b));
    assert(area_error(b, i) is None);
    let n = area_neurons(b, i);
    let start = area_offset(b, i);
    let rows = area_arrays(b, i);
    assert(area_length(b, i) == 16 * n);
    lemma_i32_bytes_of_run(b, start, n);
    lemma_i32_bytes_of_run(b, start + 4 * n, n);
    lemma_i32_bytes_of_run(b, start + 8 * n, n);
    lemma_u32_bytes_of_run(b, start + 12 * n, n);
}

/// The four bytes at `at` are the little-endian form of the word that is
/// read there.
pub proof fn lemma_word_written(b: Seq<u8>, at: int)
    requires
        0 <= at,
        at + 4 <= b.len(),
    ensures
        word_byte(le_u32(b, at), 0) == b[at],
        word_byte(le_u32(b, at), 1) == b[at + 1],
        word_byte(le_u32(b, at), 2) == b[at + 2],
        word_byte(le_u32(b, at), 3) == b[at + 3],
        pattern32(le_i32(b, at)) == le_u32(b, at),
{
    lemma_digits_spell(
        le_u32(b, at),
        b[at] as int,
        b[at + 1] as int,
        b[at + 2] as int,
        b[at + 3] as int,
    );
}

/// A run of signed words, written back, is the bytes it was read from.
pub proof fn lemma_i32_bytes_of_run(b: Seq<u8>, start: int, n: int)
    requires
        0 <= start,
        0 <= n,
        start + 4 * n <= b.len(),
    ensures
        i32_bytes(i32_run(b, start, n)) == b.subrange(start, start + 4 * n),
{
    let written = i32_bytes(i32_run(b, start, n));
    let data = b.subrange(start, start + 4 * n);
    assert forall|j: int| 0 <= j < 4 * n implies written[j] == data[j] by {
        let k = j / 4;
        lemma_word_written(b, start + 4 * k);
        assert(i32_run(b, start, n)[k] == le_i32(b, start + 4 * k));
    }
    assert(written =~= data);
}

/// A run of unsigned words, written back, is the bytes it was read from.
pub proof fn lemma_u32_bytes_of_run(b: Seq<u8>, start: int, n: int)
    requires
        0 <= start,
        0 <= n,
        start + 4 * n <= b.len(),
    ensures
        u32_bytes(u32_run(b, start, n)) == b.subrange(start, start + 4 * n),
{
    let written = u32_bytes(u32_run(b, start, n));
    let data = b.subrange(start, start + 4 * n);
    assert forall|j: int| 0 <= j < 4 * n implies written[j] == data[j] by {
        let k = j / 4;
        lemma_word_written(b, start + 4 * k);
        assert(u32_run(b, start, n)[k] == le_u32(b, start + 4 * k));
    }
    assert(written =~= data);
}

/// Last write wins: an area is found under its id with its own rows
/// unless a later area has the same id, and every area's id is a key.
pub proof fn law_last_area_wins(b: Seq<u8>, i: int)
    requires
        0 <= i < declared_areas(b),
    ensures
        decoded_areas(b).contains_key(area_id(b, i)),
        (forall|j: int| i < j < declared_areas(b) ==> area_id(b, j) != area_id(b, i))
            ==> decoded_areas(b)[area_id(b, i)] == area_arrays(b, i),
{
    lemma_areas_upto_keeps(b, i, declared_areas(b));
}

/// Among the first `n` areas, area `i` is found under its id, with its own
/// rows unless one of the areas after it has the same id.
pub proof fn lemma_areas_upto_keeps(b: Seq<u8>, i: int, n: int)
    requires
        0 <= i < n,
    ensures
        areas_upto(b, n).contains_key(area_id(b, i)),
        (forall|j: int| i < j < n ==> area_id(b, j) != area_id(b, i)) ==> areas_upto(b, n)[area_id(
            b,
            i,
        )] == area_arrays(b, i),
    decreases n,
{
    if i < n - 1 {
        lemma_areas_upto_keeps(b, i, n - 1);
    }
}

/// The keys of a decoded payload are the ids of its areas.
pub proof fn law_keys_are_area_ids(b: Seq<u8>, id: Seq<char>)
    ensures
        decoded_areas(b).contains_key(id) <==> exists|i: int|
            0 <= i < declared_areas(b) && #[trigger] area_id(b, i) == id,
{
    lemma_areas_upto_keys(b, declared_areas(b), id);
}

/// The keys among the first `n` areas are the ids of these areas.
pub proof fn lemma_areas_upto_keys(b: Seq<u8>, n: int, id: Seq<char>)
    ensures
        areas_upto(b, n).contains_key(id) <==> exists|i: int|
            0 <= i < n && #[trigger] area_id(b, i) == id,
    decreases n,
{
    if n > 0 {
        lemma_areas_upto_keys(b, n - 1, id);
        if areas_upto(b, n).contains_key(id) {
            if area_id(b, n - 1) == id {
            } else {
                let i = choose|i: int| 0 <= i < n - 1 && #[trigger] area_id(b, i) == id;
                assert(0 <= i < n && area_id(b, i) == id);
            }
        }
        if exists|i: int| 0 <= i < n && #[trigger] area_id(b, i) == id {
            let i = choose|i: int| 0 <= i < n && #[trigger] area_id(b, i) == id;
            if i < n - 1 {
                assert(0 <= i < n - 1 && area_id(b, i) == id);
            }
        }
    }
}

/// Both ways of decoding read the same rows: the voxels that the voxel
/// collection holds for an area, split into signed arrays, are the arrays
/// that plain decoding gives for that area.
pub proof fn law_voxels_are_the_rows(b: Seq<u8>, i: int)
    ensures
        signed_area(area_voxels(b, i)) == area_arrays(b, i),
{
    let voxels = signed_area(area_voxels(b, i));
    let rows = area_arrays(b, i);
    assert(voxels.x =~= rows.x);
    assert(voxels.y =~= rows.y);
    assert(voxels.z =~= rows.z);
    assert(voxels.p =~= rows.p);
}

} // verus!
