//! The errors that a writer reports.
use crate::plot::{Aesthetic, Geom, ScaleKind};
use vstd::prelude::*;

verus! {

/// A grammar element that a backend cannot express.
#[derive(Clone, Copy, Debug, PartialEq, Eq, Structural)]
pub enum Unsupported {
    /// The layer at this index draws a geometry the backend has no mark for.
    Geom(usize, Geom),
    /// The layer at this index maps two columns to one channel.
    DuplicateChannel(usize, Aesthetic),
    /// The plot asks for a scale type the backend has no counterpart for.
    Scale(Aesthetic, ScaleKind),
    /// The plot asks for a facet the backend cannot lay out.
    Facet,
}

/// Why a writer produced no output.
#[derive(Clone, Debug, PartialEq, Eq)]
pub enum WriterError {
    /// The plot uses a grammar element the backend cannot express.
    UnsupportedFeature(Unsupported),
    /// The layer at index `layer` draws from a table that the data map lacks.
    MissingSource { layer: usize, source: String },
    /// A mapping of the layer at index `layer` names a column its table lacks.
    MissingColumn { layer: usize, aesthetic: Aesthetic, column: String },
    /// A mapping of the layer at index `layer` names a column whose type the
    /// target encoding cannot show on that channel.
    TypeMismatch { layer: usize, aesthetic: Aesthetic, column: String },
    /// The table of the layer at index `layer` holds a column whose values the
    /// backend cannot serialize.
    EncodingFailure { layer: usize, column: String },
}

} // verus!
