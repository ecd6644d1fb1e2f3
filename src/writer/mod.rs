//! The contract every output backend meets.
//!
//! A backend states what it returns as two spec functions, `write_spec` and
//! `validate_spec`; its `write` and `validate` return exactly those, so output
//! is a function of the inputs alone. `render` is built from `write`.
use crate::data::{column_index, DataFrame, DataMap, Series};
use crate::error::WriterError;
use crate::plot::{Aesthetic, Layer, Mapping, Plot};
use crate::prepared::Prepared;
use vstd::prelude::*;

pub mod vegalite;

pub use vegalite::VegaLiteWriter;

verus! {

/// The text of a writer's result, as characters.
pub open spec fn text_of(r: Result<String, WriterError>) -> Result<Seq<char>, WriterError> {
    match r {
        Ok(s) => Ok(s@),
        Err(e) => Err(e),
    }
}

/// The column that `m` maps is in `frame`, and its values can be shown on
/// `m`'s channel, as `encodable` tells.
pub open spec fn mapping_ready(
    m: Mapping,
    frame: DataFrame,
    encodable: spec_fn(Aesthetic, Series) -> bool,
) -> bool {
    match column_index(frame@, m.column@) {
        Some(c) => encodable(m.aesthetic, frame@[c].values),
        None => false,
    }
}

/// The table of `layer` is in `data`, every column it maps is there and can
/// be encoded, and the table's values can be serialized, as `serializable`
/// tells.
pub open spec fn layer_ready(
    layer: Layer,
    data: Map<Seq<char>, DataFrame>,
    encodable: spec_fn(Aesthetic, Series) -> bool,
    serializable: spec_fn(DataFrame) -> bool,
) -> bool {
    &&& data.contains_key(layer.source@)
    &&& forall|q: int|
        0 <= q < layer.mappings@.len() ==> #[trigger] mapping_ready(
            layer.mappings@[q],
            data[layer.source@],
            encodable,
        )
    &&& serializable(data[layer.source@])
}

/// Every layer of `spec` is ready to be written from `data`.
pub open spec fn plot_ready(
    spec: Plot,
    data: Map<Seq<char>, DataFrame>,
    encodable: spec_fn(Aesthetic, Series) -> bool,
    serializable: spec_fn(DataFrame) -> bool,
) -> bool {
    forall|i: int|
        0 <= i < spec.layers@.len() ==> #[trigger] layer_ready(
            spec.layers@[i],
            data,
            encodable,
            serializable,
        )
}

/// A backend that turns a plot and its tables into text in one output format.
///
/// Besides `write` and `validate`, a backend states which column types it
/// can show on each channel (`column_encodable`) and which tables it can
/// serialize (`table_encodable`); its obligations say when `write` fails and
/// with which error.
pub trait Writer {
    /// What `write` returns for `spec` drawn from `data`.
    spec fn write_spec(&self, spec: Plot, data: Map<Seq<char>, DataFrame>) -> Result<
        Seq<char>,
        WriterError,
    >;

    /// What `validate` returns for `spec`.
    spec fn validate_spec(&self, spec: Plot) -> Result<(), WriterError>;

    /// Values of this kind can be shown on the channel `aesthetic`.
    spec fn column_encodable(&self, aesthetic: Aesthetic, values: Series) -> bool;

    /// Every value of the table can be serialized.
    spec fn table_encodable(&self, frame: DataFrame) -> bool;

    /// `column_encodable` as a spec closure.
    open spec fn encodable(&self) -> spec_fn(Aesthetic, Series) -> bool {
        |a: Aesthetic, v: Series| self.column_encodable(a, v)
    }

    /// `table_encodable` as a spec closure.
    open spec fn serializable(&self) -> spec_fn(DataFrame) -> bool {
        |f: DataFrame| self.table_encodable(f)
    }

    /// `write` refuses a plot that does not validate, with the error of `validate`.
    proof fn lemma_unsupported_carried(&self, spec: Plot, data: Map<Seq<char>, DataFrame>)
        requires
            self.validate_spec(spec) is Err,
        ensures
            self.write_spec(spec, data) == Err::<Seq<char>, WriterError>(
                self.validate_spec(spec)->Err_0,
            ),
    ;

    /// `write` fails exactly when the plot does not validate, or some layer's
    /// table is missing, or a mapped column is missing or cannot be encoded,
    /// or a table's values cannot be serialized.
    proof fn lemma_failure_exact(&self, spec: Plot, data: Map<Seq<char>, DataFrame>)
        ensures
            self.write_spec(spec, data) is Err <==> (self.validate_spec(spec) is Err || !plot_ready(
                spec,
                data,
                self.encodable(),
                self.serializable(),
            )),
    ;

    /// A plot that validates, whose only fault is that the table of its layer
    /// at `i` is missing, is refused with a missing source naming that layer.
    proof fn lemma_missing_source(&self, spec: Plot, data: Map<Seq<char>, DataFrame>, i: int)
        requires
            self.validate_spec(spec) is Ok,
            0 <= i < spec.layers@.len(),
            !data.contains_key(spec.layers@[i].source@),
            forall|j: int|
                0 <= j < spec.layers@.len() && j != i ==> #[trigger] layer_ready(
                    spec.layers@[j],
                    data,
                    self.encodable(),
                    self.serializable(),
                ),
        ensures
            self.write_spec(spec, data) == Err::<Seq<char>, WriterError>(
                WriterError::MissingSource { layer: i as usize, source: spec.layers@[i].source },
            ),
    ;

    /// A plot that validates, whose only fault is that the mapping at `k` of
    /// its layer at `i` names a column missing from that layer's table, is
    /// refused with a missing column naming that layer, channel and column.
    proof fn lemma_missing_column(
        &self,
        spec: Plot,
        data: Map<Seq<char>, DataFrame>,
        i: int,
        k: int,
    )
        requires
            self.validate_spec(spec) is Ok,
            0 <= i < spec.layers@.len(),
            forall|j: int|
                0 <= j < spec.layers@.len() && j != i ==> #[trigger] layer_ready(
                    spec.layers@[j],
                    data,
                    self.encodable(),
                    self.serializable(),
                ),
            data.contains_key(spec.layers@[i].source@),
            self.table_encodable(data[spec.layers@[i].source@]),
            0 <= k < spec.layers@[i].mappings@.len(),
            column_index(data[spec.layers@[i].source@]@, spec.layers@[i].mappings@[k].column@) is None,
            forall|q: int|
                0 <= q < spec.layers@[i].mappings@.len() && q != k ==> #[trigger] mapping_ready(
                    spec.layers@[i].mappings@[q],
                    data[spec.layers@[i].source@],
                    self.encodable(),
                ),
        ensures
            self.write_spec(spec, data) == Err::<Seq<char>, WriterError>(
                WriterError::MissingColumn {
                    layer: i as usize,
                    aesthetic: spec.layers@[i].mappings@[k].aesthetic,
                    column: spec.layers@[i].mappings@[k].column,
                },
            ),
    ;

    /// Validation is stable with respect to data: a plot that validates is
    /// never refused by `write` as unsupported, whatever tables come with it.
    proof fn lemma_validation_stable(&self, spec: Plot, data: Map<Seq<char>, DataFrame>)
        requires
            self.validate_spec(spec) is Ok,
        ensures
            !(self.write_spec(spec, data) matches Err(WriterError::UnsupportedFeature(_))),
    ;

    /// Renders a bundled plot: the same result as `write` on the bundle's
    /// plot and tables.
    fn render(&self, prepared: &Prepared) -> (r: Result<String, WriterError>)
        ensures
            text_of(r) == self.write_spec(prepared.spec_plot(), prepared.spec_data()),
    {
        self.write(prepared.plot(), prepared.data_map())
    }

    /// Generates the output for `spec`, drawing on the tables in `data`.
    fn write(&self, spec: &Plot, data: &DataMap) -> (r: Result<String, WriterError>)
        ensures
            text_of(r) == self.write_spec(*spec, data@),
    ;

    /// Checks, without data, that this backend can express `spec`. The only
    /// error it reports is an unsupported feature.
    fn validate(&self, spec: &Plot) -> (r: Result<(), WriterError>)
        ensures
            r == self.validate_spec(*spec),
            r is Err ==> r matches Err(WriterError::UnsupportedFeature(_)),
    ;
}

/// Writing is deterministic: equal plots and equal tables give equal results.
pub proof fn lemma_write_deterministic<W: Writer>(
    writer: &W,
    spec1: Plot,
    spec2: Plot,
    data1: Map<Seq<char>, DataFrame>,
    data2: Map<Seq<char>, DataFrame>,
)
    requires
        spec1 == spec2,
        data1 == data2,
    ensures
        writer.write_spec(spec1, data1) == writer.write_spec(spec2, data2),
{
}

} // verus!
