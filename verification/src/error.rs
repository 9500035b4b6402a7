//! The engine's error taxonomy.  Every failure is a programmer or
//! configuration error that is reported to the caller at once; nothing is
//! retried or coerced.

use vstd::prelude::*;

verus! {

/// Why a matrix or network operation was refused.
#[derive(Clone, Copy, Debug, PartialEq, Eq, Structural)]
pub enum Error {
    /// A matrix was built from an empty row sequence, from rows of unequal
    /// length, or from rows of length zero.
    ShapeError,
    /// Two operands have incompatible shapes: in a product, a sum, a
    /// difference, a forward pass or a backward pass.
    DimensionMismatch,
    /// A reduction was asked for along an axis other than 0 or 1.
    InvalidAxis,
    /// A network was described by fewer than two layers, or by a layer of
    /// width zero.
    InvalidArchitecture,
    /// A weight file could not be opened, read or written.  Raised only by
    /// the persistence code around the engine; no verified operation
    /// performs file input or output.
    IoError,
    /// Persisted weight data does not parse, or its shapes do not match the
    /// live network's architecture.
    FormatError,
}

} // verus!
