//! Decompression of message bodies, bounded against decompression bombs.

use crate::error::Error;
use crate::primitives::{lz4_block_of, lz4_decompress_bounded, Lz4Failure};
use vstd::prelude::*;

verus! {

/// Default bound on the size of a decompressed body.
pub const MAX_BODY_SIZE: usize = 64 * 1024 * 1024;

/// What decompressing `input` under the bound `max_output` may return: the
/// decoded block where it fits, `DecompressionFailed` only for a malformed
/// block, and `OutputTooLarge` only where no decoding within the bound exists.
pub open spec fn decompress_outcome(input: Seq<u8>, max_output: usize, r: Result<Seq<u8>, Error>) -> bool {
    match r {
        Ok(v) => lz4_block_of(input) == Some(v) && v.len() <= max_output,
        Err(Error::DecompressionFailed) => lz4_block_of(input) is None,
        Err(Error::OutputTooLarge) => !(lz4_block_of(input) matches Some(v) && v.len()
            <= max_output),
        Err(_) => false,
    }
}

/// Decompresses an LZ4 block, growing the output buffer from six times
/// the input length until the block fits or the bound is reached.
pub fn decompress(compressed: &[u8], max_output: usize) -> (r: Result<Vec<u8>, Error>)
    ensures
        decompress_outcome(compressed@, max_output, crate::error::bytes_result(r)),
        (lz4_block_of(compressed@) matches Some(v) && v.len() <= max_output) ==> r is Ok,
{
    let len = compressed.len();
    let mut capacity: usize = if len <= max_output / 6 {
        len * 6
    } else {
        max_output
    };
    loop
        invariant
            capacity <= max_output,
        decreases max_output - capacity,
    {
        match lz4_decompress_bounded(compressed, capacity) {
            Ok(v) => return Ok(v),
            Err(Lz4Failure::Malformed) => return Err(Error::DecompressionFailed),
            Err(Lz4Failure::OutputTooSmall) => {
                if capacity >= max_output {
                    return Err(Error::OutputTooLarge);
                }
                capacity = if capacity >= max_output - capacity {
                    max_output
                } else {
                    2 * capacity + 1
                };
            },
        }
    }
}

} // verus!
