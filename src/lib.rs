//! Lane algebra on a 128-bit word: the word is read as equal lanes of 1 to
//! 128 bits, and each operation acts on all lanes at once with plain
//! bitwise and arithmetic operators.
use vstd::prelude::*;

pub mod masks;
pub mod model;
mod facts;
pub mod lanes;
pub mod totals;
pub mod laws;
pub mod ops;
pub mod widened;

verus! {

/// A word read as 128 lanes of one bit.
#[derive(Copy, Clone, Debug, PartialEq, Eq)]
pub struct Bits1<N>(pub N);

/// A word read as lanes of 2 bits.
#[derive(Copy, Clone, Debug, PartialEq, Eq)]
pub struct Bits2<N>(pub N);

/// A word read as lanes of 4 bits.
#[derive(Copy, Clone, Debug, PartialEq, Eq)]
pub struct Bits4<N>(pub N);

/// A word read as lanes of 8 bits.
#[derive(Copy, Clone, Debug, PartialEq, Eq)]
pub struct Bits8<N>(pub N);

/// A word read as lanes of 16 bits.
#[derive(Copy, Clone, Debug, PartialEq, Eq)]
pub struct Bits16<N>(pub N);

/// A word read as lanes of 32 bits.
#[derive(Copy, Clone, Debug, PartialEq, Eq)]
pub struct Bits32<N>(pub N);

/// A word read as lanes of 64 bits.
#[derive(Copy, Clone, Debug, PartialEq, Eq)]
pub struct Bits64<N>(pub N);

/// A word read as a single lane of 128 bits.
#[derive(Copy, Clone, Debug, PartialEq, Eq)]
pub struct Bits128<N>(pub N);

} // verus!
