//! The errors the builders and the decoder return, and their model.

use vstd::prelude::*;

use crate::ewkb::GeometryType;
use crate::types::PointConstructorError;

verus! {

/// An error raised while building a geometry or reading one from its
/// serialised form.
#[derive(Debug, PartialEq)]
pub enum Error {
    /// An appended member's SRID disagrees with the owning structure's SRID.
    IncompatibleSpatialReferenceSystemIdentifier {
        /// The owning structure's SRID.
        expected: Option<u32>,
        /// The appended member's SRID.
        actual: Option<u32>,
    },
    /// A decoded kind does not match the statically expected kind.
    UnexpectedGeometryType {
        /// The kind the caller expected.
        expected: GeometryType,
        /// The kind the bytes describe.
        actual: GeometryType,
    },
    /// Decoded ordinates do not fit the target point variant's shape.
    PointConstruction(PointConstructorError),
    /// The buffer ended inside a header or a body.
    UnexpectedEndOfBuffer,
}

/// The model of an [`Error`]: the same cases over plain values, with the
/// constructor reason as a character sequence.
pub enum ErrorModel {
    IncompatibleSpatialReferenceSystemIdentifier {
        expected: Option<u32>,
        actual: Option<u32>,
    },
    UnexpectedGeometryType { expected: GeometryType, actual: GeometryType },
    PointConstruction { reason: Seq<char> },
    UnexpectedEndOfBuffer,
}

impl View for Error {
    type V = ErrorModel;

    open spec fn view(&self) -> ErrorModel {
        match self {
            Error::IncompatibleSpatialReferenceSystemIdentifier { expected, actual } =>
                ErrorModel::IncompatibleSpatialReferenceSystemIdentifier {
                expected: *expected,
                actual: *actual,
            },
            Error::UnexpectedGeometryType { expected, actual } =>
                ErrorModel::UnexpectedGeometryType { expected: *expected, actual: *actual },
            Error::PointConstruction(e) => ErrorModel::PointConstruction { reason: e.reason@ },
            Error::UnexpectedEndOfBuffer => ErrorModel::UnexpectedEndOfBuffer,
        }
    }
}

} // verus!
