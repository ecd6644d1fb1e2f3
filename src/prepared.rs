//! A plot bundled with the tables it draws from.
use crate::data::{DataFrame, DataMap};
use crate::plot::Plot;
use vstd::prelude::*;

verus! {

/// A plot and its data map, fixed once built.
#[derive(Debug)]
pub struct Prepared {
    plot: Plot,
    data: DataMap,
}

impl Prepared {
    /// The bundled plot.
    pub closed spec fn spec_plot(&self) -> Plot {
        self.plot
    }

    /// The bundled tables, by source name.
    pub closed spec fn spec_data(&self) -> Map<Seq<char>, DataFrame> {
        self.data@
    }

    /// Bundles `plot` with its tables.
    pub fn new(plot: Plot, data: DataMap) -> (r: Prepared)
        ensures
            r.spec_plot() == plot,
            r.spec_data() == data@,
    {
        Prepared { plot, data }
    }

    /// The bundled plot.
    pub fn plot(&self) -> (r: &Plot)
        ensures
            *r == self.spec_plot(),
    {
        &self.plot
    }

    /// The bundled tables, by source name.
    pub fn data_map(&self) -> (r: &DataMap)
        ensures
            r@ == self.spec_data(),
    {
        &self.data
    }
}

} // verus!
