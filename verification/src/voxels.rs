//! The voxel collection of `feagi_data_structures` and the deserializer of
//! `feagi_data_serialization`: what a payload holds as voxels, and what this
//! library believes of the two crates without proof.

use vstd::prelude::*;
use feagi_data_serialization::FeagiSerializable;
use feagi_data_structures::neuron_voxels::xyzp::CorticalMappedXYZPNeuronVoxels;
use feagi_data_structures::FeagiDataError;
use crate::le::le_u32;
use crate::listing::{lists, six_byte_ids, views};
use crate::wire::{area_id_bytes, area_neurons, area_offset, declared_areas, well_formed};

verus! {

/// One neuron: x, y, z and the bit pattern of its potential.
pub type Voxel = (u32, u32, u32, u32);

/// Trusted: the collection that maps a cortical id to the voxels of its
/// area. Nothing inside it is visible here.
#[verifier::external_type_specification]
#[verifier::external_body]
pub struct ExCorticalMappedXYZPNeuronVoxels(
    feagi_data_structures::neuron_voxels::xyzp::CorticalMappedXYZPNeuronVoxels,
);

/// Trusted: the error of the outside crates. Nothing inside it is visible
/// here.
#[verifier::external_type_specification]
#[verifier::external_body]
pub struct ExFeagiDataError(feagi_data_structures::FeagiDataError);

/// What a voxel collection holds: for each cortical id, as its six bytes,
/// the voxels of that area in their order.
pub uninterp spec fn voxel_contents(voxels: CorticalMappedXYZPNeuronVoxels) -> Map<Seq<u8>, Seq<Voxel>>;

/// A collection's contents when it holds nothing.
pub open spec fn no_voxels() -> Map<Seq<u8>, Seq<Voxel>> {
    Map::empty()
}

/// Whether `CorticalID::from_bytes` takes these six bytes for a cortical
/// id.
pub uninterp spec fn cortical_id_accepted(id: Seq<u8>) -> bool;

/// An ASCII letter, digit or underscore.
pub open spec fn is_word_byte(byte: u8) -> bool {
    (0x30 <= byte <= 0x39) || (0x41 <= byte <= 0x5a) || (0x61 <= byte <= 0x7a) || byte == 0x5f
}

/// Six bytes that spell the id of a custom or of a memory area: `c` or `m`
/// first, and letters, digits and underscores throughout.
pub open spec fn is_custom_id(id: Seq<u8>) -> bool {
    &&& id.len() == 6
    &&& (id[0] == 0x63 || id[0] == 0x6d)
    &&& forall|k: int| 0 <= k < 6 ==> is_word_byte(#[trigger] id[k])
}

/// Every area id of payload `b` spells the id of a custom or of a memory
/// area.
pub open spec fn custom_ids(b: Seq<u8>) -> bool {
    forall|i: int| 0 <= i < declared_areas(b) ==> is_custom_id(#[trigger] area_id_bytes(b, i))
}

/// The voxels of area `i` of payload `b`.
pub open spec fn area_voxels(b: Seq<u8>, i: int) -> Seq<Voxel> {
    let n = area_neurons(b, i);
    let start = area_offset(b, i);
    Seq::new(
        n as nat,
        |k: int|
            (
                le_u32(b, start + 4 * k) as u32,
                le_u32(b, start + 4 * n + 4 * k) as u32,
                le_u32(b, start + 8 * n + 4 * k) as u32,
                le_u32(b, start + 12 * n + 4 * k) as u32,
            ),
    )
}

/// The first `n` areas of payload `b` filed by their id bytes, one after
/// the other: of two areas with one id the later one stays.
pub open spec fn voxels_upto(b: Seq<u8>, n: int) -> Map<Seq<u8>, Seq<Voxel>>
    decreases n,
{
    if n <= 0 {
        Map::empty()
    } else {
        voxels_upto(b, n - 1).insert(area_id_bytes(b, n - 1), area_voxels(b, n - 1))
    }
}

/// All areas of payload `b`, filed by their id bytes.
pub open spec fn payload_voxels(b: Seq<u8>) -> Map<Seq<u8>, Seq<Voxel>> {
    voxels_upto(b, declared_areas(b))
}

/// Every area id of payload `b` is taken for a cortical id.
pub open spec fn ids_accepted(b: Seq<u8>) -> bool {
    forall|i: int| 0 <= i < declared_areas(b) ==> cortical_id_accepted(#[trigger] area_id_bytes(b, i))
}

/// Trusted: `CorticalMappedXYZPNeuronVoxels::new` makes a collection that
/// holds nothing.
pub assume_specification[ CorticalMappedXYZPNeuronVoxels::new ]() -> (voxels: CorticalMappedXYZPNeuronVoxels)
    ensures
        voxel_contents(voxels) == no_voxels(),
;

/// Trusted: `try_deserialize_and_update_self_from_byte_slice` of
/// `FeagiSerializable`, on a collection that holds nothing. It slices the
/// buffer without checking for the headers, so only a well-formed payload is
/// handed to it. On such a payload it fails exactly when it does not take
/// some area id for a cortical id, and it takes every id of a custom or of a
/// memory area; when it succeeds, the collection holds each area's voxels
/// under the area's id, the later of two areas with one id. A potential is
/// kept as the bits that were read.
#[verifier::external_body]
pub(crate) fn deserialize_voxels(
    voxels: &mut CorticalMappedXYZPNeuronVoxels,
    bytes: &[u8],
) -> (r: Result<(), FeagiDataError>)
    requires
        well_formed(bytes@),
        voxel_contents(*old(voxels)) == no_voxels(),
    ensures
        r is Ok <==> forall|i: int|
            0 <= i < declared_areas(bytes@) ==> cortical_id_accepted(
                #[trigger] area_id_bytes(bytes@, i),
            ),
        r is Ok ==> voxel_contents(*final(voxels)) == payload_voxels(bytes@),
        custom_ids(bytes@) ==> r is Ok,
{
    voxels.try_deserialize_and_update_self_from_byte_slice(bytes)
}

/// Trusted: the `Debug` form of `FeagiDataError`, as text. Nothing is
/// claimed of the words.
#[verifier::external_body]
pub(crate) fn error_words(e: &FeagiDataError) -> (words: String) {
    format!("{:?}", e)
}

/// One area as the collection holds it.
#[derive(Debug, PartialEq, Eq)]
pub struct VoxelArea {
    /// The six bytes of the cortical id.
    pub id: Vec<u8>,
    /// The voxels in their order.
    pub neurons: Vec<Voxel>,
}

/// Trusted: walks the collection's public field `mappings` and copies each
/// area out, the id by `CorticalID::as_bytes`, the voxels by
/// `NeuronVoxelXYZPArrays::iter`. The hash map fixes no order, so the
/// contract fixes none: every id comes once, with its voxels, and an id has
/// six bytes.
#[verifier::external_body]
pub(crate) fn voxel_areas(voxels: &CorticalMappedXYZPNeuronVoxels) -> (areas: Vec<VoxelArea>)
    ensures
        lists(views(areas@), voxel_contents(*voxels)),
        six_byte_ids(views(areas@)),
{
    voxels.mappings.iter().map(|(id, arrays)| VoxelArea {
        id: id.as_bytes().to_vec(),
        neurons: arrays.iter().map(|n| {
            let at = &n.cortical_coordinate;
            (at.x, at.y, at.z, n.potential.to_bits())
        }).collect(),
    }).collect()
}

} // verus!
