//! Text-safe encoding: standard padded base64 over the UTF-8 bytes of a text,
//! with the contracts of both directions stated over one mathematical model.
//!
//! - `alphabet`: the 64 symbols and the values they stand for.
//! - `encoding`: the base64 text of a byte sequence, and what is proved of it.
//! - `codec`: `encode` and `decode`, with `try_encode` and `try_decode` for
//!   callers that want to see a failure.
//! - `laws`: what holds between encoding and decoding.
//! - `paths`: where the compiled JNI library is found and where it goes.

use vstd::prelude::*;

pub mod alphabet;
pub mod encoding;
mod engine;
pub mod codec;
pub mod laws;
pub mod paths;

pub use crate::codec::{decode, encode, try_decode, try_encode, DecodeFailure};

verus! {

/// The sum of two sizes, which must fit into a `usize`.
pub fn add(left: usize, right: usize) -> (sum: usize)
    requires
        left + right <= usize::MAX,
    ensures
        sum == left + right,
{
    left + right
}

} // verus!
