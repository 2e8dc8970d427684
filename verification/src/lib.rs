//! Decoding of cortical-mapped neuron activity payloads, choice of the
//! neurons to draw, and reading of shared video frame headers. Every
//! function is verified against its contract.
//!
//! - [`wire`]: the layout of a payload and the checks a buffer must pass.
//! - [`decode`]: decoding a payload into arrays per area, keyed by the text
//!   of the area id.
//! - [`laws`]: what holds of decoding for every buffer.
//! - [`deserializer`]: the entry points, among them decoding through the
//!   voxel collection of `feagi_data_structures`.
//! - [`voxels`]: what is believed of the outside crates without proof.
//! - [`listing`]: ordering, converting and flattening the areas of a voxel
//!   collection.
//! - [`visualization`]: choosing neurons from coordinate arrays, drawing
//!   each neuron with a function of the caller, one after the other or in
//!   parallel through `rayon`, and the record of a drawing.
//! - [`compression`]: block decompression by the `lz4` crate.
//! - [`shared_video`]: the header of a shared video file and the place of
//!   its latest frame.
//! - [`areas`], [`le`], [`text`]: area arrays, little-endian integers and
//!   text helpers.
//!
//! No floating-point number is computed here. A potential is carried as the
//! bit pattern of its IEEE 754 single-precision form; transforms and colours
//! are values of a type that the caller chooses, made by a function that the
//! caller hands in.

pub mod areas;
pub mod compression;
pub mod decode;
pub mod deserializer;
pub mod laws;
pub mod le;
pub mod listing;
pub mod shared_video;
pub mod text;
pub mod visualization;
pub mod voxels;
pub mod wire;
