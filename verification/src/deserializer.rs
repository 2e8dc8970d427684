//! The entry points: probing and decompressing a buffer, decoding a payload
//! through the voxel collection, and choosing the neurons to draw.

use vstd::prelude::*;
use vstd::string::*;
use feagi_data_structures::neuron_voxels::xyzp::CorticalMappedXYZPNeuronVoxels;
use crate::compression::{block_or_empty, decompressed, lz4_block_decompress};
use crate::listing::{
    capped, collect_neurons, convert_neuron_data, flattened, lemma_is_the_sorted_listing,
    lemma_sorted_members_list, positions, positions_of, sort_by_id, sorted_listing, views,
    DecodedAreas,
};
use crate::decode::{describe_failure, failure_text};
use crate::visualization::{
    array_error, array_failure, dispatch, draw_each, drawn_by, flatten_rows, is_drawing,
    is_failure, lemma_lengths, process_count, visualization_failure, visualization_success,
    zip_coordinates, zipped, ArrayError, Lattice, MeshUpdate, VisualizationResult,
};
use crate::voxels::{
    custom_ids, deserialize_voxels, error_words, ids_accepted, payload_voxels, voxel_areas, Voxel,
    VoxelArea,
};
use crate::wire::{check_layout, layout_error, well_formed, DecodeError};

verus! {

/// Why a payload could not be decoded through the voxel collection.
#[derive(Clone, Debug, PartialEq, Eq)]
pub enum DeserializeError {
    /// The buffer is not a well-formed payload.
    Layout(DecodeError),
    /// The payload is well formed, but one of its area ids is no cortical
    /// id. The words are those of the outside error.
    Rejected(String),
}

/// The areas of payload `b` in the order of their ids.
pub open spec fn payload_listing(b: Seq<u8>) -> Seq<(Seq<u8>, Seq<Voxel>)> {
    sorted_listing(payload_voxels(b))
}

/// The neurons of payload `b` that are drawn under the cap `max_neurons`:
/// all neurons, area after area in the order of the area ids, cut after
/// `max_neurons` where that is positive.
pub open spec fn chosen_voxels(b: Seq<u8>, max_neurons: int) -> Seq<Voxel> {
    capped(flattened(payload_listing(b)), max_neurons)
}

/// The words in which it is reported that payload `b` could not be read.
pub open spec fn error_text(b: Seq<u8>, error: DeserializeError) -> Seq<char> {
    match error {
        DeserializeError::Layout(e) => "Deserialization error: "@ + failure_text(b, e),
        DeserializeError::Rejected(reason) => "Deserialization error: "@ + reason@,
    }
}

/// What is wrong with three coordinate arrays of these lengths when they
/// are to be drawn, if anything.
pub open spec fn drawing_error(x_len: int, y_len: int, z_len: int) -> Option<ArrayError> {
    if x_len != y_len || x_len != z_len {
        Some(ArrayError::SizeMismatch)
    } else if x_len == 0 {
        Some(ArrayError::Empty)
    } else {
        None
    }
}

/// Decoder of neuron payloads. It keeps no state between calls.
#[derive(Clone, Copy, Debug)]
pub struct FeagiDataDeserializer {}

impl FeagiDataDeserializer {
    /// A decoder.
    pub fn new() -> (d: FeagiDataDeserializer) {
        FeagiDataDeserializer {  }
    }

    /// The structure type of a buffer, which is its first byte, or -1 for
    /// an empty buffer.
    pub fn get_structure_type(&self, buffer: &[u8]) -> (t: i32)
        ensures
            buffer@.len() == 0 ==> t == -1,
            buffer@.len() > 0 ==> t == buffer@[0],
    {
        if buffer.len() == 0 {
            return -1;
        }
        buffer[0] as i32
    }

    /// Decompresses a block. An empty block and a block that does not
    /// decompress give no bytes.
    pub fn decompress_lz4(&self, compressed_buffer: &[u8]) -> (bytes: Vec<u8>)
        ensures
            bytes@ == decompressed(compressed_buffer@),
    {
        if compressed_buffer.len() == 0 {
            return Vec::new();
        }
        block_or_empty(lz4_block_decompress(compressed_buffer))
    }

    /// Reads the areas of a payload through the voxel collection and puts
    /// them in the order of their ids.
    pub fn read_areas(&self, buffer: &[u8]) -> (r: Result<Vec<VoxelArea>, DeserializeError>)
        ensures
            match r {
                Ok(areas) => well_formed(buffer@) && ids_accepted(buffer@) && views(areas@)
                    == payload_listing(buffer@),
                Err(DeserializeError::Layout(e)) => layout_error(buffer@) == Some(e),
                Err(DeserializeError::Rejected(_)) => well_formed(buffer@) && !ids_accepted(
                    buffer@,
                ),
            },
            well_formed(buffer@) && custom_ids(buffer@) ==> r is Ok,
    {
        match check_layout(buffer) {
            Ok(_) => {},
            Err(e) => {
                return Err(DeserializeError::Layout(e));
            },
        }
        let mut voxels = CorticalMappedXYZPNeuronVoxels::new();
        match deserialize_voxels(&mut voxels, buffer) {
            Ok(_) => {},
            Err(e) => {
                return Err(DeserializeError::Rejected(error_words(&e)));
            },
        }
        let listing = voxel_areas(&voxels);
        let ghost listed = views(listing@);
        let sorted = sort_by_id(listing);
        proof {
            lemma_sorted_members_list(listed, views(sorted@), payload_voxels(buffer@));
            lemma_is_the_sorted_listing(views(sorted@), payload_voxels(buffer@));
        }
        Ok(sorted)
    }

    /// Decodes a payload into signed arrays per area. Areas come in the
    /// order of their ids; areas without neurons are left out.
    pub fn decode_type_11_data(&self, buffer: &[u8]) -> (r: Result<DecodedAreas, DeserializeError>)
        ensures
            match r {
                Ok(out) => well_formed(buffer@) && ids_accepted(buffer@) && out.holds(
                    payload_listing(buffer@),
                ),
                Err(DeserializeError::Layout(e)) => layout_error(buffer@) == Some(e),
                Err(DeserializeError::Rejected(_)) => well_formed(buffer@) && !ids_accepted(
                    buffer@,
                ),
            },
            well_formed(buffer@) && custom_ids(buffer@) ==> r is Ok,
    {
        match self.read_areas(buffer) {
            Ok(areas) => Ok(convert_neuron_data(&areas)),
            Err(e) => Err(e),
        }
    }

    /// Chooses the neurons of a payload that are to be drawn: all neurons,
    /// area after area in the order of the area ids, cut after
    /// `max_neurons` where that is positive.
    pub fn select_neurons(&self, buffer: &[u8], max_neurons: i32) -> (r: Result<
        Vec<Voxel>,
        DeserializeError,
    >)
        ensures
            match r {
                Ok(row) => well_formed(buffer@) && ids_accepted(buffer@) && row@ == chosen_voxels(
                    buffer@,
                    max_neurons as int,
                ),
                Err(DeserializeError::Layout(e)) => layout_error(buffer@) == Some(e),
                Err(DeserializeError::Rejected(_)) => well_formed(buffer@) && !ids_accepted(
                    buffer@,
                ),
            },
            well_formed(buffer@) && custom_ids(buffer@) ==> r is Ok,
    {
        match self.read_areas(buffer) {
            Ok(areas) => Ok(collect_neurons(&areas, max_neurons)),
            Err(e) => Err(e),
        }
    }

    /// Chooses the neurons to draw from three parallel coordinate arrays:
    /// the first `max_neurons` of them where that is positive, else all, in
    /// the order of the arrays. Arrays of different lengths and empty
    /// arrays are errors.
    pub fn select_from_arrays(
        &self,
        x_array: &[i32],
        y_array: &[i32],
        z_array: &[i32],
        max_neurons: i32,
    ) -> (r: Result<Vec<Lattice>, ArrayError>)
        ensures
            match r {
                Ok(row) => x_array@.len() == y_array@.len() == z_array@.len() && x_array@.len() > 0
                    && row@ == capped(zipped(x_array@, y_array@, z_array@), max_neurons as int),
                Err(ArrayError::SizeMismatch) => x_array@.len() != y_array@.len() || x_array@.len()
                    != z_array@.len(),
                Err(ArrayError::Empty) => x_array@.len() == y_array@.len() == z_array@.len()
                    && x_array@.len() == 0,
            },
    {
        let len: usize = x_array.len();
        if len != y_array.len() || len != z_array.len() {
            return Err(ArrayError::SizeMismatch);
        }
        if len == 0 {
            return Err(ArrayError::Empty);
        }
        let count: usize = process_count(len, max_neurons);
        let row = zip_coordinates(x_array, y_array, z_array, count);
        assert(zipped(x_array@, y_array@, z_array@).take(len as int) =~= zipped(
            x_array@,
            y_array@,
            z_array@,
        ));
        Ok(row)
    }

    /// Says in words why a payload could not be read.
    pub fn describe(&self, buffer: &[u8], error: &DeserializeError) -> (words: String)
        requires
            *error matches DeserializeError::Layout(e) ==> layout_error(buffer@) == Some(e),
        ensures
            words@ == error_text(buffer@, *error),
            words@.len() > 0,
    {
        proof {
            reveal_strlit("Deserialization error: ");
        }
        let mut words = String::from_str("Deserialization error: ");
        match error {
            DeserializeError::Layout(e) => {
                words.append(describe_failure(buffer, *e).as_str());
            },
            DeserializeError::Rejected(reason) => {
                words.append(reason.as_str());
            },
        }
        words
    }

    /// Decodes a payload, draws its neurons with `draw` and reports the
    /// drawing: the neurons of all areas, area after area in the order of
    /// the area ids, cut after `max_neurons` where that is positive, with
    /// twelve transform values and four colour values each. The neurons are
    /// drawn in parallel if `parallel` is set. The time in the report is
    /// what `clock` says when everything is drawn. A payload that cannot be
    /// read gives a report of failure with nothing drawn.
    pub fn process_neuron_visualization<
        T: Copy + Send,
        F: Fn(u32, u32, u32) -> ([T; 12], [T; 4]) + Sync + Send,
        C: Fn() -> i64,
    >(&self, buffer: &[u8], draw: F, max_neurons: i32, parallel: bool, clock: C) -> (out:
        VisualizationResult<T>)
        requires
            forall|x: u32, y: u32, z: u32| call_requires(draw, (x, y, z)),
            call_requires(clock, ()),
        ensures
            call_ensures(clock, (), out.processing_time_us),
            match layout_error(buffer@) {
                Some(e) => is_failure(out, error_text(buffer@, DeserializeError::Layout(e))),
                None => if ids_accepted(buffer@) {
                    is_drawing(out, draw, positions_of(chosen_voxels(buffer@, max_neurons as int)))
                } else {
                    exists|reason: String| #[trigger]
                        is_failure(out, error_text(buffer@, DeserializeError::Rejected(reason)))
                },
            },
            well_formed(buffer@) && custom_ids(buffer@) ==> out.success,
    {
        let neurons = match self.select_neurons(buffer, max_neurons) {
            Ok(neurons) => neurons,
            Err(e) => {
                let words = self.describe(buffer, &e);
                let out = visualization_failure(words, clock());
                proof {
                    if let DeserializeError::Rejected(reason) = e {
                        assert(is_failure(
                            out,
                            error_text(buffer@, DeserializeError::Rejected(reason)),
                        ));
                    }
                }
                return out;
            },
        };
        let coords = positions(&neurons);
        let drawn = dispatch(coords.as_slice(), draw, parallel);
        let (transforms, colors) = flatten_rows(drawn.as_slice());
        let out = visualization_success(transforms, colors, clock());
        proof {
            lemma_lengths(drawn@, drawn@.len() as int);
            assert(drawn_by(draw, coords@, drawn@));
        }
        out
    }

    /// Draws the neurons of three parallel coordinate arrays with `draw`
    /// and reports the drawing: the first `max_neurons` neurons where that
    /// is positive, else all, in the order of the arrays, with twelve
    /// transform values and four colour values each. The neurons are drawn
    /// in parallel if `parallel` is set. The time in the report is what
    /// `clock` says when everything is drawn. Arrays of different lengths
    /// and empty arrays give a report of failure with nothing drawn.
    pub fn process_arrays_for_visualization<
        T: Copy + Send,
        F: Fn(u32, u32, u32) -> ([T; 12], [T; 4]) + Sync + Send,
        C: Fn() -> i64,
    >(
        &self,
        x_array: &[i32],
        y_array: &[i32],
        z_array: &[i32],
        draw: F,
        max_neurons: i32,
        parallel: bool,
        clock: C,
    ) -> (out: VisualizationResult<T>)
        requires
            forall|x: u32, y: u32, z: u32| call_requires(draw, (x, y, z)),
            call_requires(clock, ()),
        ensures
            call_ensures(clock, (), out.processing_time_us),
            match drawing_error(x_array@.len() as int, y_array@.len() as int, z_array@.len() as int) {
                Some(e) => is_failure(out, e.text()),
                None => is_drawing(
                    out,
                    draw,
                    capped(zipped(x_array@, y_array@, z_array@), max_neurons as int),
                ),
            },
    {
        let coords = match self.select_from_arrays(x_array, y_array, z_array, max_neurons) {
            Ok(coords) => coords,
            Err(e) => {
                return array_failure(e, clock());
            },
        };
        let drawn = dispatch(coords.as_slice(), draw, parallel);
        let (transforms, colors) = flatten_rows(drawn.as_slice());
        let out = visualization_success(transforms, colors, clock());
        proof {
            lemma_lengths(drawn@, drawn@.len() as int);
            assert(drawn_by(draw, coords@, drawn@));
        }
        out
    }

    /// Plans the update of an instanced mesh from three parallel coordinate
    /// arrays: one instance per neuron, in the order of the arrays, each
    /// with the transform and the colour that `draw` gives for it. Arrays
    /// of different lengths are an error and leave the mesh without
    /// instances; empty arrays leave it without instances too, and are no
    /// error.
    pub fn apply_arrays_to_multimesh<T, F: Fn(u32, u32, u32) -> ([T; 12], [T; 4])>(
        &self,
        x_array: &[i32],
        y_array: &[i32],
        z_array: &[i32],
        draw: F,
    ) -> (plan: MeshUpdate<T>)
        requires
            forall|x: u32, y: u32, z: u32| call_requires(draw, (x, y, z)),
        ensures
            plan.instance_count == plan.instances@.len(),
            match array_error(
                x_array@.len() as int,
                y_array@.len() as int,
                z_array@.len() as int,
            ) {
                Some(e) => !plan.success && plan.error == Some(e) && plan.instance_count == 0,
                None => plan.success && plan.error is None && drawn_by(
                    draw,
                    zipped(x_array@, y_array@, z_array@),
                    plan.instances@,
                ),
            },
    {
        let len: usize = x_array.len();
        if len != y_array.len() || len != z_array.len() {
            return MeshUpdate {
                success: false,
                instance_count: 0,
                instances: Vec::new(),
                error: Some(ArrayError::SizeMismatch),
            };
        }
        let coords = zip_coordinates(x_array, y_array, z_array, len);
        assert(zipped(x_array@, y_array@, z_array@).take(len as int) =~= zipped(
            x_array@,
            y_array@,
            z_array@,
        ));
        let instances = draw_each(coords.as_slice(), draw);
        MeshUpdate { success: true, instance_count: len, instances, error: None }
    }
}

} // verus!
