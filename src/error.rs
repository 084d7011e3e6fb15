use vstd::prelude::*;

verus! {

/// The ways in which decoding a buffer can fail. Each one ends the decode.
#[derive(Clone, Copy, Debug, PartialEq, Eq, Structural)]
pub enum DecodeError {
    /// A read or skip would go past the end of the buffer.
    OutOfBounds,
    /// The buffer does not start with the signature `BM`.
    InvalidMagic,
    /// The info header length is not one of the known sizes.
    UnsupportedHeaderVariant,
    /// The bit depth is neither 24 nor 32.
    UnsupportedBitDepth,
}

} // verus!
