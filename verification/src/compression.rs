//! Block decompression, done by the `lz4` crate.

use vstd::prelude::*;

verus! {

/// Trusted: the error type of std's input and output, in which the `lz4`
/// crate reports a failure. Nothing inside it is visible here.
#[verifier::external_type_specification]
#[verifier::external_body]
pub struct ExIoError(std::io::Error);

/// What `lz4::block::decompress` makes of a block that carries its
/// decompressed size in its first four bytes; `None` where it reports an
/// error.
pub uninterp spec fn lz4_block(src: Seq<u8>) -> Option<Seq<u8>>;

/// The bytes of a decompressed block, if there is one.
pub open spec fn block_view(block: Result<Vec<u8>, std::io::Error>) -> Option<Seq<u8>> {
    match block {
        Ok(bytes) => Some(bytes@),
        Err(_) => None,
    }
}

/// Trusted: `lz4::block::decompress` with the size read from the block's
/// first four bytes. Whether it succeeds and what bytes it gives is a
/// function of the block alone and is known here only by its name,
/// [`lz4_block`]. As its documentation says, a block too short for the size
/// prefix is an error.
#[verifier::external_body]
pub(crate) fn lz4_block_decompress(src: &[u8]) -> (block: Result<Vec<u8>, std::io::Error>)
    ensures
        block_view(block) == lz4_block(src@),
        src@.len() < 4 ==> block is Err,
{
    lz4::block::decompress(src, None)
}

/// What is handed on for a block: its decompressed bytes, and nothing for
/// an empty block or one that does not decompress.
pub open spec fn decompressed(src: Seq<u8>) -> Seq<u8> {
    if src.len() == 0 {
        Seq::empty()
    } else {
        match lz4_block(src) {
            Some(bytes) => bytes,
            None => Seq::empty(),
        }
    }
}

/// The decompressed bytes, or no bytes where decompression failed.
pub fn block_or_empty(block: Result<Vec<u8>, std::io::Error>) -> (bytes: Vec<u8>)
    ensures
        bytes@ == match block_view(block) {
            Some(inner) => inner,
            None => Seq::empty(),
        },
{
    match block {
        Ok(bytes) => bytes,
        Err(_) => Vec::new(),
    }
}

} // verus!
