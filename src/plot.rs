//! The resolved grammar-of-graphics description that writers consume.
use vstd::prelude::*;

verus! {

/// The geometry drawn by a layer.
#[derive(Clone, Copy, Debug, PartialEq, Eq, Structural)]
pub enum Geom {
    Point,
    Line,
    Bar,
    Area,
    Text,
    Rule,
    Rect,
    Tick,
    Violin,
    Density2d,
}

/// A visual channel that a column can be mapped to.
#[derive(Clone, Copy, Debug, PartialEq, Eq, Structural)]
pub enum Aesthetic {
    X,
    Y,
    Color,
    Fill,
    Size,
    Shape,
    Opacity,
    Label,
}

/// The type of a position or appearance scale.
#[derive(Clone, Copy, Debug, PartialEq, Eq, Structural)]
pub enum ScaleKind {
    Linear,
    Log,
    Sqrt,
    Symlog,
    Time,
    Ordinal,
    Probit,
    Reciprocal,
}

/// One aesthetic mapping: the channel `aesthetic` shows the column `column`.
#[derive(Clone, Debug)]
pub struct Mapping {
    pub aesthetic: Aesthetic,
    pub column: String,
}

/// One layer: a geometry drawn from the table named `source`.
#[derive(Clone, Debug)]
pub struct Layer {
    pub geom: Geom,
    pub source: String,
    pub mappings: Vec<Mapping>,
}

/// A plot-wide scale for one aesthetic.
#[derive(Clone, Copy, Debug, PartialEq, Eq, Structural)]
pub struct Scale {
    pub aesthetic: Aesthetic,
    pub kind: ScaleKind,
}

/// How the plot is split into panels.
#[derive(Clone, Debug)]
pub enum Facet {
    /// Panels for each value of one column, wrapped into rows.
    Wrap { column: String },
    /// A grid with one row per value of `row` and one column per value of `column`.
    Grid { row: String, column: String },
}

/// A fully resolved plot: its layers, its scales and its facet.
#[derive(Clone, Debug)]
pub struct Plot {
    pub layers: Vec<Layer>,
    pub scales: Vec<Scale>,
    pub facet: Option<Facet>,
}

impl Mapping {
    /// Maps `aesthetic` to the column `column`.
    pub fn new(aesthetic: Aesthetic, column: String) -> (r: Mapping)
        ensures
            r.aesthetic == aesthetic,
            r.column == column,
    {
        Mapping { aesthetic, column }
    }
}

impl Layer {
    /// A layer drawing `geom` from the table `source`.
    pub fn new(geom: Geom, source: String, mappings: Vec<Mapping>) -> (r: Layer)
        ensures
            r.geom == geom,
            r.source == source,
            r.mappings == mappings,
    {
        Layer { geom, source, mappings }
    }
}

impl Plot {
    /// A plot from its parts.
    pub fn new(layers: Vec<Layer>, scales: Vec<Scale>, facet: Option<Facet>) -> (r: Plot)
        ensures
            r.layers == layers,
            r.scales == scales,
            r.facet == facet,
    {
        Plot { layers, scales, facet }
    }
}

} // verus!
