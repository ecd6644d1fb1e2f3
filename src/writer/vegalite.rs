//! A backend that writes Vega-Lite chart descriptions as JSON text.
//!
//! The output is one object with two keys, `$schema` and `layer`. Each layer
//! object has the keys `data`, `encoding` and `mark`, in that order. The
//! channels of `encoding` come in the order of the layer's mappings; each
//! channel object holds `field`, then `scale` where the plot gives one, then
//! `type`. A table of at most [`INLINE_ROW_LIMIT`] rows is written inline as
//! `{"values":[...]}`, one object per row with the columns in table order;
//! a larger one is referred to by its source name as `{"name":...}`.
use crate::data::{column_index, columns_well_formed, Column, DataFrame, DataMap, Series};
use crate::error::{Unsupported, WriterError};
use crate::json::{bool_text, int_text, push_bool, push_int, push_quoted, quoted};
use crate::plot::{Aesthetic, Geom, Layer, Mapping, Plot, Scale, ScaleKind};
use crate::writer::{layer_ready, mapping_ready, text_of, Writer};
use vstd::prelude::*;

verus! {

/// Tables with at most this many rows are written inline.
pub const INLINE_ROW_LIMIT: usize = 5000;

/// The Vega-Lite mark for a geometry, if there is one.
pub open spec fn mark_name(g: Geom) -> Option<Seq<char>> {
    match g {
        Geom::Point => Some("point"@),
        Geom::Line => Some("line"@),
        Geom::Bar => Some("bar"@),
        Geom::Area => Some("area"@),
        Geom::Text => Some("text"@),
        Geom::Rule => Some("rule"@),
        Geom::Rect => Some("rect"@),
        Geom::Tick => Some("tick"@),
        Geom::Violin => None,
        Geom::Density2d => None,
    }
}

/// The Vega-Lite encoding channel for an aesthetic.
pub open spec fn channel_name(a: Aesthetic) -> Seq<char> {
    match a {
        Aesthetic::X => "x"@,
        Aesthetic::Y => "y"@,
        Aesthetic::Color => "color"@,
        Aesthetic::Fill => "fill"@,
        Aesthetic::Size => "size"@,
        Aesthetic::Shape => "shape"@,
        Aesthetic::Opacity => "opacity"@,
        Aesthetic::Label => "text"@,
    }
}

/// The Vega-Lite scale type for a scale kind, if there is one.
pub open spec fn scale_type_name(k: ScaleKind) -> Option<Seq<char>> {
    match k {
        ScaleKind::Linear => Some("linear"@),
        ScaleKind::Log => Some("log"@),
        ScaleKind::Sqrt => Some("sqrt"@),
        ScaleKind::Symlog => Some("symlog"@),
        ScaleKind::Time => Some("time"@),
        ScaleKind::Ordinal => Some("ordinal"@),
        ScaleKind::Probit => None,
        ScaleKind::Reciprocal => None,
    }
}

/// The Vega-Lite field type for a column's values, if they can be encoded.
pub open spec fn field_type_name(s: Series) -> Option<Seq<char>> {
    match s {
        Series::Int(_) => Some("quantitative"@),
        Series::Bool(_) => Some("nominal"@),
        Series::Text(_) => Some("nominal"@),
        Series::Binary(_) => None,
    }
}

/// The mapping at `k` uses a channel that an earlier mapping already uses.
pub open spec fn repeats_earlier(ms: Seq<Mapping>, k: int) -> bool {
    exists|j: int| 0 <= j < k && ms[j].aesthetic == ms[k].aesthetic
}

/// The channel of the first of `ms[..n]` that repeats an earlier channel.
pub open spec fn duplicate_channel(ms: Seq<Mapping>, n: nat) -> Option<Aesthetic>
    decreases n,
{
    if n == 0 {
        None
    } else {
        match duplicate_channel(ms, (n - 1) as nat) {
            Some(a) => Some(a),
            None => if repeats_earlier(ms, n - 1) {
                Some(ms[n - 1].aesthetic)
            } else {
                None
            },
        }
    }
}

/// Why the layer at index `i` cannot be expressed, if it cannot.
pub open spec fn layer_problem(layer: Layer, i: nat) -> Option<Unsupported> {
    if mark_name(layer.geom) is None {
        Some(Unsupported::Geom(i as usize, layer.geom))
    } else {
        match duplicate_channel(layer.mappings@, layer.mappings@.len()) {
            Some(a) => Some(Unsupported::DuplicateChannel(i as usize, a)),
            None => None,
        }
    }
}

/// The first problem among `layers[..n]`.
pub open spec fn layers_problem(layers: Seq<Layer>, n: nat) -> Option<Unsupported>
    decreases n,
{
    if n == 0 {
        None
    } else {
        match layers_problem(layers, (n - 1) as nat) {
            Some(u) => Some(u),
            None => layer_problem(layers[n - 1], (n - 1) as nat),
        }
    }
}

/// The first of `scales[..n]` whose kind has no Vega-Lite scale type.
pub open spec fn scales_problem(scales: Seq<Scale>, n: nat) -> Option<Unsupported>
    decreases n,
{
    if n == 0 {
        None
    } else {
        match scales_problem(scales, (n - 1) as nat) {
            Some(u) => Some(u),
            None => if scale_type_name(scales[n - 1].kind) is None {
                Some(Unsupported::Scale(scales[n - 1].aesthetic, scales[n - 1].kind))
            } else {
                None
            },
        }
    }
}

/// The first problem of a plot: layers in order, then scales in order, then
/// the facet, which this backend cannot lay out with layers that each carry
/// their own data.
pub open spec fn plot_problem(p: Plot) -> Option<Unsupported> {
    match layers_problem(p.layers@, p.layers@.len()) {
        Some(u) => Some(u),
        None => match scales_problem(p.scales@, p.scales@.len()) {
            Some(u) => Some(u),
            None => if p.facet is Some {
                Some(Unsupported::Facet)
            } else {
                None
            },
        },
    }
}

/// What validation of a plot returns.
pub open spec fn validate_plot(p: Plot) -> Result<(), WriterError> {
    match plot_problem(p) {
        Some(u) => Err(WriterError::UnsupportedFeature(u)),
        None => Ok(()),
    }
}

/// A comma before every item but the first of a list.
pub open spec fn sep(k: nat) -> Seq<char> {
    if k == 0 {
        Seq::empty()
    } else {
        ","@
    }
}

/// The kind of the first of `scales[from..]` that is given for `a`.
pub open spec fn scale_for(scales: Seq<Scale>, a: Aesthetic, from: int) -> Option<ScaleKind>
    decreases scales.len() - from,
{
    if from < 0 || from >= scales.len() {
        None
    } else if scales[from].aesthetic == a {
        Some(scales[from].kind)
    } else {
        scale_for(scales, a, from + 1)
    }
}

/// The `"scale"` member of a channel, where the plot gives a scale for it.
pub open spec fn scale_json(scale: Option<ScaleKind>) -> Seq<char> {
    match scale {
        Some(k) => ",\"scale\":{\"type\":"@ + quoted(scale_type_name(k).unwrap()) + "}"@,
        None => Seq::empty(),
    }
}

/// One channel of an encoding: `"x":{"field":"a","type":"quantitative"}`.
pub open spec fn channel_json(m: Mapping, field_type: Seq<char>, scales: Seq<Scale>) -> Seq<char> {
    quoted(channel_name(m.aesthetic)) + ":{\"field\":"@ + quoted(m.column@) + scale_json(
        scale_for(scales, m.aesthetic, 0),
    ) + ",\"type\":"@ + quoted(field_type) + "}"@
}

/// The channel for one mapping of the layer at `li`, or why it cannot be
/// written: its column is missing from the table, or cannot be encoded.
pub open spec fn mapping_json(li: nat, m: Mapping, frame: DataFrame, scales: Seq<Scale>) -> Result<
    Seq<char>,
    WriterError,
> {
    match column_index(frame@, m.column@) {
        None => Err(
            WriterError::MissingColumn { layer: li as usize, aesthetic: m.aesthetic, column: m.column },
        ),
        Some(c) => match field_type_name(frame@[c].values) {
            None => Err(
                WriterError::TypeMismatch {
                    layer: li as usize,
                    aesthetic: m.aesthetic,
                    column: m.column,
                },
            ),
            Some(t) => Ok(channel_json(m, t, scales)),
        },
    }
}

/// The members of the encoding of the layer at `li` for its first `n`
/// mappings, or the error of the first mapping whose column is missing or
/// cannot be encoded.
pub open spec fn encoding_json(
    li: nat,
    ms: Seq<Mapping>,
    frame: DataFrame,
    scales: Seq<Scale>,
    n: nat,
) -> Result<Seq<char>, WriterError>
    decreases n,
{
    if n == 0 {
        Ok(Seq::empty())
    } else {
        match encoding_json(li, ms, frame, scales, (n - 1) as nat) {
            Err(e) => Err(e),
            Ok(prev) => match mapping_json(li, ms[n - 1], frame, scales) {
                Err(e) => Err(e),
                Ok(ch) => Ok(prev + sep((n - 1) as nat) + ch),
            },
        }
    }
}

/// The JSON value at row `r` of a column.
pub open spec fn cell_json(s: Series, r: int) -> Seq<char> {
    match s {
        Series::Int(v) => match v@[r] {
            Some(x) => int_text(x as int),
            None => "null"@,
        },
        Series::Bool(v) => match v@[r] {
            Some(b) => bool_text(b),
            None => "null"@,
        },
        Series::Text(v) => match v@[r] {
            Some(t) => quoted(t@),
            None => "null"@,
        },
        Series::Binary(_) => "null"@,
    }
}

/// The members of the object for row `r`, from the first `n` columns.
pub open spec fn row_json(cols: Seq<Column>, r: int, n: nat) -> Seq<char>
    decreases n,
{
    if n == 0 {
        Seq::empty()
    } else {
        row_json(cols, r, (n - 1) as nat) + sep((n - 1) as nat) + quoted(cols[n - 1].name@) + ":"@
            + cell_json(cols[n - 1].values, r)
    }
}

/// The row objects of the first `n` rows.
pub open spec fn rows_json(cols: Seq<Column>, n: nat) -> Seq<char>
    decreases n,
{
    if n == 0 {
        Seq::empty()
    } else {
        rows_json(cols, (n - 1) as nat) + sep((n - 1) as nat) + "{"@ + row_json(
            cols,
            n - 1,
            cols.len(),
        ) + "}"@
    }
}

/// The index of the first of `cols[from..]` that holds binary values.
pub open spec fn binary_column_from(cols: Seq<Column>, from: int) -> Option<int>
    decreases cols.len() - from,
{
    if from < 0 || from >= cols.len() {
        None
    } else if cols[from].values is Binary {
        Some(from)
    } else {
        binary_column_from(cols, from + 1)
    }
}

/// The `data` member of the layer at `li`: the rows inline where the table
/// is small, else a reference to the table by its source name.
pub open spec fn data_json(li: nat, source: Seq<char>, frame: DataFrame) -> Result<
    Seq<char>,
    WriterError,
> {
    if frame.spec_height() <= INLINE_ROW_LIMIT {
        match binary_column_from(frame@, 0) {
            Some(c) => Err(WriterError::EncodingFailure { layer: li as usize, column: frame@[c].name }),
            None => Ok("{\"values\":["@ + rows_json(frame@, frame.spec_height()) + "]}"@),
        }
    } else {
        Ok("{\"name\":"@ + quoted(source) + "}"@)
    }
}

/// The object for the layer at `li`.
#[verifier::opaque]
pub open spec fn layer_json(
    li: nat,
    layer: Layer,
    data: Map<Seq<char>, DataFrame>,
    scales: Seq<Scale>,
) -> Result<Seq<char>, WriterError> {
    if !data.contains_key(layer.source@) {
        Err(WriterError::MissingSource { layer: li as usize, source: layer.source })
    } else {
        let frame = data[layer.source@];
        match encoding_json(li, layer.mappings@, frame, scales, layer.mappings@.len()) {
            Err(e) => Err(e),
            Ok(enc) => match data_json(li, layer.source@, frame) {
                Err(e) => Err(e),
                Ok(d) => Ok(
                    "{\"data\":"@ + d + ",\"encoding\":{"@ + enc + "},\"mark\":"@ + quoted(
                        mark_name(layer.geom).unwrap(),
                    ) + "}"@,
                ),
            },
        }
    }
}

/// The layer objects of the first `n` layers, or the error of the first
/// layer that cannot be written.
pub open spec fn layers_json(
    layers: Seq<Layer>,
    data: Map<Seq<char>, DataFrame>,
    scales: Seq<Scale>,
    n: nat,
) -> Result<Seq<char>, WriterError>
    decreases n,
{
    if n == 0 {
        Ok(Seq::empty())
    } else {
        match layers_json(layers, data, scales, (n - 1) as nat) {
            Err(e) => Err(e),
            Ok(prev) => match layer_json((n - 1) as nat, layers[n - 1], data, scales) {
                Err(e) => Err(e),
                Ok(l) => Ok(prev + sep((n - 1) as nat) + l),
            },
        }
    }
}

/// The text before the layers.
pub open spec fn header() -> Seq<char> {
    "{\"$schema\":\"https://vega.github.io/schema/vega-lite/v5.json\",\"layer\":["@
}

/// What writing a plot returns: the validation error, or the first data
/// error in layer order, or the chart.
pub open spec fn write_plot(p: Plot, data: Map<Seq<char>, DataFrame>) -> Result<
    Seq<char>,
    WriterError,
> {
    match plot_problem(p) {
        Some(u) => Err(WriterError::UnsupportedFeature(u)),
        None => match layers_json(p.layers@, data, p.scales@, p.layers@.len()) {
            Err(e) => Err(e),
            Ok(ls) => Ok(header() + ls + "]}"@),
        },
    }
}

/// `r` and the text appended to an output buffer agree with `expected`: on
/// success the buffer grew by the expected text, on failure `r` is the
/// expected error.
pub open spec fn appended(
    r: Result<(), WriterError>,
    before: Seq<char>,
    after: Seq<char>,
    expected: Result<Seq<char>, WriterError>,
) -> bool {
    match expected {
        Ok(t) => r is Ok && after == before + t,
        Err(e) => r == Err::<(), WriterError>(e),
    }
}

/// Every scale of the list has a Vega-Lite scale type.
pub open spec fn scales_expressible(scales: Seq<Scale>) -> bool {
    forall|i: int| 0 <= i < scales.len() ==> (#[trigger] scale_type_name(scales[i].kind)) is Some
}

proof fn lemma_scales_expressible(scales: Seq<Scale>, n: nat)
    requires
        n <= scales.len(),
        scales_problem(scales, n) is None,
    ensures
        forall|i: int| 0 <= i < n ==> (#[trigger] scale_type_name(scales[i].kind)) is Some,
    decreases n,
{
    if n > 0 {
        lemma_scales_expressible(scales, (n - 1) as nat);
    }
}

proof fn lemma_layers_expressible(layers: Seq<Layer>, n: nat)
    requires
        n <= layers.len(),
        layers_problem(layers, n) is None,
    ensures
        forall|i: int| 0 <= i < n ==> (#[trigger] mark_name(layers[i].geom)) is Some,
    decreases n,
{
    if n > 0 {
        lemma_layers_expressible(layers, (n - 1) as nat);
    }
}

proof fn lemma_scale_for_expressible(scales: Seq<Scale>, a: Aesthetic, from: int)
    requires
        scales_expressible(scales),
    ensures
        scale_for(scales, a, from) matches Some(k) ==> scale_type_name(k) is Some,
    decreases scales.len() - from,
{
    if 0 <= from < scales.len() {
        assert(scale_type_name(scales[from].kind) is Some);
        lemma_scale_for_expressible(scales, a, from + 1);
    }
}

/// The kind of the first scale given for `a`.
fn find_scale(scales: &Vec<Scale>, a: Aesthetic) -> (r: Option<ScaleKind>)
    ensures
        r == scale_for(scales@, a, 0),
{
    let n = scales.len();
    let mut i: usize = 0;
    while i < n
        invariant
            n == scales@.len(),
            i <= n,
            scale_for(scales@, a, 0) == scale_for(scales@, a, i as int),
        decreases n - i,
    {
        if scales[i].aesthetic == a {
            return Some(scales[i].kind);
        }
        i = i + 1;
    }
    None
}

fn push_channel(out: &mut String, m: &Mapping, field_type: &str, scales: &Vec<Scale>)
    requires
        scales_expressible(scales@),
    ensures
        final(out)@ == old(out)@ + channel_json(*m, field_type@, scales@),
{
    push_quoted(out, channel_of(m.aesthetic));
    out.append(":{\"field\":");
    push_quoted(out, m.column.as_str());
    let ghost mid = out@;
    let scale = find_scale(scales, m.aesthetic);
    proof {
        lemma_scale_for_expressible(scales@, m.aesthetic, 0);
    }
    if let Some(k) = scale {
        if let Some(name) = scale_type_of(k) {
            out.append(",\"scale\":{\"type\":");
            push_quoted(out, name);
            out.append("}");
        }
    }
    assert(out@ =~= mid + scale_json(scale_for(scales@, m.aesthetic, 0)));
    out.append(",\"type\":");
    push_quoted(out, field_type);
    out.append("}");
    assert(final(out)@ =~= old(out)@ + channel_json(*m, field_type@, scales@));
}

proof fn lemma_encoding_error_stays(
    li: nat,
    ms: Seq<Mapping>,
    frame: DataFrame,
    scales: Seq<Scale>,
    m: nat,
    n: nat,
)
    requires
        m <= n,
        encoding_json(li, ms, frame, scales, m) is Err,
    ensures
        encoding_json(li, ms, frame, scales, n) == encoding_json(li, ms, frame, scales, m),
    decreases n - m,
{
    if m < n {
        lemma_encoding_error_stays(li, ms, frame, scales, m, (n - 1) as nat);
    }
}

/// Appends the channel for one mapping of the layer at `li`.
fn push_mapping(out: &mut String, li: usize, m: &Mapping, frame: &DataFrame, scales: &Vec<Scale>) -> (r:
    Result<(), WriterError>)
    requires
        scales_expressible(scales@),
    ensures
        appended(r, old(out)@, final(out)@, mapping_json(li as nat, *m, *frame, scales@)),
{
    let cols = frame.columns();
    match frame.column_index(&m.column) {
        None => Err(
            WriterError::MissingColumn { layer: li, aesthetic: m.aesthetic, column: m.column.clone() },
        ),
        Some(c) => match field_type_of(&cols[c].values) {
            None => Err(
                WriterError::TypeMismatch {
                    layer: li,
                    aesthetic: m.aesthetic,
                    column: m.column.clone(),
                },
            ),
            Some(t) => {
                push_channel(out, m, t, scales);
                Ok(())
            },
        },
    }
}

/// Appends the members of the encoding of the layer at `li`.
fn push_encoding(
    out: &mut String,
    li: usize,
    ms: &Vec<Mapping>,
    frame: &DataFrame,
    scales: &Vec<Scale>,
) -> (r: Result<(), WriterError>)
    requires
        scales_expressible(scales@),
    ensures
        appended(r, old(out)@, final(out)@, encoding_json(li as nat, ms@, *frame, scales@, ms@.len())),
{
    let ghost start = out@;
    let n = ms.len();
    let mut k: usize = 0;
    while k < n
        invariant
            n == ms@.len(),
            k <= n,
            scales_expressible(scales@),
            encoding_json(li as nat, ms@, *frame, scales@, k as nat) is Ok,
            out@ == start + encoding_json(li as nat, ms@, *frame, scales@, k as nat)->Ok_0,
        decreases n - k,
    {
        let ghost next = encoding_json(li as nat, ms@, *frame, scales@, (k + 1) as nat);
        if k > 0 {
            out.append(",");
        }
        match push_mapping(out, li, &ms[k], frame, scales) {
            Err(e) => {
                proof {
                    lemma_encoding_error_stays(li as nat, ms@, *frame, scales@, (k + 1) as nat, n as nat);
                }
                return Err(e);
            },
            Ok(()) => {},
        }
        assert(out@ =~= start + next->Ok_0);
        k = k + 1;
    }
    Ok(())
}

fn push_cell(out: &mut String, s: &Series, r: usize)
    requires
        r < s.spec_len(),
        !(s is Binary),
    ensures
        final(out)@ == old(out)@ + cell_json(*s, r as int),
{
    match s {
        Series::Int(v) => match &v[r] {
            Some(x) => push_int(out, *x),
            None => out.append("null"),
        },
        Series::Bool(v) => match &v[r] {
            Some(b) => push_bool(out, *b),
            None => out.append("null"),
        },
        Series::Text(v) => match &v[r] {
            Some(t) => push_quoted(out, t.as_str()),
            None => out.append("null"),
        },
        Series::Binary(_) => {},
    }
}

/// The index of the first column that holds binary values.
fn find_binary_column(cols: &Vec<Column>) -> (r: Option<usize>)
    ensures
        r matches Some(i) ==> binary_column_from(cols@, 0) == Some(i as int) && i < cols@.len(),
        r is None ==> binary_column_from(cols@, 0) is None,
{
    let n = cols.len();
    let mut i: usize = 0;
    while i < n
        invariant
            n == cols@.len(),
            i <= n,
            binary_column_from(cols@, 0) == binary_column_from(cols@, i as int),
        decreases n - i,
    {
        if let Series::Binary(_) = &cols[i].values {
            return Some(i);
        }
        i = i + 1;
    }
    None
}

proof fn lemma_no_binary_column(cols: Seq<Column>, from: int)
    requires
        0 <= from,
        binary_column_from(cols, from) is None,
    ensures
        forall|i: int| from <= i < cols.len() ==> !((#[trigger] cols[i]).values is Binary),
    decreases cols.len() - from,
{
    if from < cols.len() {
        lemma_no_binary_column(cols, from + 1);
    }
}

/// Appends the members of the object for row `r`.
fn push_row(out: &mut String, frame: &DataFrame, r: usize)
    requires
        binary_column_from(frame@, 0) is None,
        r < frame.spec_height(),
    ensures
        final(out)@ == old(out)@ + row_json(frame@, r as int, frame@.len()),
{
    let ghost row_start = out@;
    let cols = frame.columns();
    let width = cols.len();
    proof {
        lemma_no_binary_column(frame@, 0);
    }
    let mut c: usize = 0;
    while c < width
        invariant
            cols@ == frame@,
            width == cols@.len(),
            r < frame.spec_height(),
            c <= width,
            columns_well_formed(frame@, frame.spec_height()),
            forall|i: int| 0 <= i < cols@.len() ==> !((#[trigger] cols@[i]).values is Binary),
            out@ == row_start + row_json(frame@, r as int, c as nat),
        decreases width - c,
    {
        if c > 0 {
            out.append(",");
        }
        push_quoted(out, cols[c].name.as_str());
        out.append(":");
        assert(cols@[c as int].values.spec_len() == frame.spec_height());
        push_cell(out, &cols[c].values, r);
        assert(out@ =~= row_start + row_json(frame@, r as int, (c + 1) as nat));
        c = c + 1;
    }
}

/// Appends the row objects of a table that holds no binary column.
fn push_rows(out: &mut String, frame: &DataFrame)
    requires
        binary_column_from(frame@, 0) is None,
    ensures
        final(out)@ == old(out)@ + rows_json(frame@, frame.spec_height()),
{
    let ghost start = out@;
    let cols = frame.columns();
    let height = frame.height();
    let width = cols.len();
    let mut r: usize = 0;
    while r < height
        invariant
            cols@ == frame@,
            height == frame.spec_height(),
            width == cols@.len(),
            r <= height,
            binary_column_from(frame@, 0) is None,
            out@ == start + rows_json(frame@, r as nat),
        decreases height - r,
    {
        if r > 0 {
            out.append(",");
        }
        out.append("{");
        push_row(out, frame, r);
        out.append("}");
        assert(out@ =~= start + rows_json(frame@, (r + 1) as nat));
        r = r + 1;
    }
}

/// Appends the `data` member of the layer at `li`.
fn push_data(out: &mut String, li: usize, source: &String, frame: &DataFrame) -> (r: Result<
    (),
    WriterError,
>)
    ensures
        appended(r, old(out)@, final(out)@, data_json(li as nat, source@, *frame)),
{
    if frame.height() <= INLINE_ROW_LIMIT {
        let cols = frame.columns();
        if let Some(c) = find_binary_column(cols) {
            return Err(WriterError::EncodingFailure { layer: li, column: cols[c].name.clone() });
        }
        out.append("{\"values\":[");
        push_rows(out, frame);
        out.append("]}");
        assert(out@ =~= old(out)@ + ("{\"values\":["@ + rows_json(frame@, frame.spec_height()) + "]}"@));
    } else {
        out.append("{\"name\":");
        push_quoted(out, source.as_str());
        out.append("}");
        assert(out@ =~= old(out)@ + ("{\"name\":"@ + quoted(source@) + "}"@));
    }
    assert(appended(Ok(()), old(out)@, out@, data_json(li as nat, source@, *frame)));
    Ok(())
}

/// Appends the object for the layer at `li`.
fn push_layer(
    out: &mut String,
    li: usize,
    layer: &Layer,
    data: &DataMap,
    scales: &Vec<Scale>,
) -> (r: Result<(), WriterError>)
    requires
        mark_name(layer.geom) is Some,
        scales_expressible(scales@),
    ensures
        appended(r, old(out)@, final(out)@, layer_json(li as nat, *layer, data@, scales@)),
{
    reveal(layer_json);
    let frame = match data.get(&layer.source) {
        Some(f) => f,
        None => {
            return Err(WriterError::MissingSource { layer: li, source: layer.source.clone() });
        },
    };
    let mut enc = String::new();
    match push_encoding(&mut enc, li, &layer.mappings, frame, scales) {
        Err(e) => {
            return Err(e);
        },
        Ok(()) => {},
    }
    assert(enc@ =~= encoding_json(li as nat, layer.mappings@, *frame, scales@, layer.mappings@.len())->Ok_0);
    let ghost start = out@;
    out.append("{\"data\":");
    match push_data(out, li, &layer.source, frame) {
        Err(e) => {
            return Err(e);
        },
        Ok(()) => {},
    }
    out.append(",\"encoding\":{");
    out.append(enc.as_str());
    out.append("},\"mark\":");
    if let Some(mark) = mark_of(layer.geom) {
        push_quoted(out, mark);
    }
    out.append("}");
    let ghost d = data_json(li as nat, layer.source@, *frame)->Ok_0;
    assert(out@ =~= start + ("{\"data\":"@ + d + ",\"encoding\":{"@ + enc@ + "},\"mark\":"@ + quoted(
        mark_name(layer.geom).unwrap(),
    ) + "}"@));
    assert(appended(Ok(()), old(out)@, out@, layer_json(li as nat, *layer, data@, scales@)));
    Ok(())
}

proof fn lemma_layers_error_stays(
    layers: Seq<Layer>,
    data: Map<Seq<char>, DataFrame>,
    scales: Seq<Scale>,
    m: nat,
    n: nat,
)
    requires
        m <= n,
        layers_json(layers, data, scales, m) is Err,
    ensures
        layers_json(layers, data, scales, n) == layers_json(layers, data, scales, m),
    decreases n - m,
{
    if m < n {
        lemma_layers_error_stays(layers, data, scales, m, (n - 1) as nat);
    }
}

/// Writes the chart for a plot that validated.
fn write_layers(p: &Plot, data: &DataMap) -> (r: Result<String, WriterError>)
    requires
        plot_problem(*p) is None,
    ensures
        text_of(r) == write_plot(*p, data@),
{
    let layers = &p.layers;
    let n = layers.len();
    proof {
        lemma_layers_expressible(layers@, n as nat);
        lemma_scales_expressible(p.scales@, p.scales@.len());
    }
    let mut out = String::new();
    out.append("{\"$schema\":\"https://vega.github.io/schema/vega-lite/v5.json\",\"layer\":[");
    let mut i: usize = 0;
    while i < n
        invariant
            n == layers@.len(),
            layers@ == p.layers@,
            plot_problem(*p) is None,
            i <= n,
            forall|j: int| 0 <= j < n ==> (#[trigger] mark_name(layers@[j].geom)) is Some,
            scales_expressible(p.scales@),
            layers_json(layers@, data@, p.scales@, i as nat) is Ok,
            out@ == header() + layers_json(layers@, data@, p.scales@, i as nat)->Ok_0,
        decreases n - i,
    {
        if i > 0 {
            out.append(",");
        }
        assert(mark_name(layers@[i as int].geom) is Some);
        match push_layer(&mut out, i, &layers[i], data, &p.scales) {
            Err(e) => {
                proof {
                    assert(layers_json(layers@, data@, p.scales@, (i + 1) as nat) == Err::<Seq<char>, WriterError>(e));
                    lemma_layers_error_stays(layers@, data@, p.scales@, (i + 1) as nat, n as nat);
                    assert(layers_json(p.layers@, data@, p.scales@, p.layers@.len()) == Err::<Seq<char>, WriterError>(e));
                    assert(write_plot(*p, data@) == Err::<Seq<char>, WriterError>(e));
                }
                return Err(e);
            },
            Ok(()) => {},
        }
        assert(out@ =~= header() + layers_json(layers@, data@, p.scales@, (i + 1) as nat)->Ok_0);
        i = i + 1;
    }
    out.append("]}");
    Ok(out)
}

/// The characters of an optional text.
pub open spec fn opt_text(o: Option<&str>) -> Option<Seq<char>> {
    match o {
        Some(s) => Some(s@),
        None => None,
    }
}

fn mark_of(g: Geom) -> (r: Option<&'static str>)
    ensures
        opt_text(r) == mark_name(g),
{
    match g {
        Geom::Point => Some("point"),
        Geom::Line => Some("line"),
        Geom::Bar => Some("bar"),
        Geom::Area => Some("area"),
        Geom::Text => Some("text"),
        Geom::Rule => Some("rule"),
        Geom::Rect => Some("rect"),
        Geom::Tick => Some("tick"),
        Geom::Violin => None,
        Geom::Density2d => None,
    }
}

fn channel_of(a: Aesthetic) -> (r: &'static str)
    ensures
        r@ == channel_name(a),
{
    match a {
        Aesthetic::X => "x",
        Aesthetic::Y => "y",
        Aesthetic::Color => "color",
        Aesthetic::Fill => "fill",
        Aesthetic::Size => "size",
        Aesthetic::Shape => "shape",
        Aesthetic::Opacity => "opacity",
        Aesthetic::Label => "text",
    }
}

fn scale_type_of(k: ScaleKind) -> (r: Option<&'static str>)
    ensures
        opt_text(r) == scale_type_name(k),
{
    match k {
        ScaleKind::Linear => Some("linear"),
        ScaleKind::Log => Some("log"),
        ScaleKind::Sqrt => Some("sqrt"),
        ScaleKind::Symlog => Some("symlog"),
        ScaleKind::Time => Some("time"),
        ScaleKind::Ordinal => Some("ordinal"),
        ScaleKind::Probit => None,
        ScaleKind::Reciprocal => None,
    }
}

fn field_type_of(s: &Series) -> (r: Option<&'static str>)
    ensures
        opt_text(r) == field_type_name(*s),
{
    match s {
        Series::Int(_) => Some("quantitative"),
        Series::Bool(_) => Some("nominal"),
        Series::Text(_) => Some("nominal"),
        Series::Binary(_) => None,
    }
}

/// The channel of the first mapping that repeats an earlier mapping's channel.
fn find_duplicate_channel(ms: &Vec<Mapping>) -> (r: Option<Aesthetic>)
    ensures
        r == duplicate_channel(ms@, ms@.len()),
{
    let n = ms.len();
    let mut k: usize = 0;
    while k < n
        invariant
            n == ms@.len(),
            k <= n,
            duplicate_channel(ms@, k as nat) is None,
        decreases n - k,
    {
        let mut j: usize = 0;
        while j < k
            invariant
                n == ms@.len(),
                k < n,
                j <= k,
                duplicate_channel(ms@, k as nat) is None,
                forall|i: int| 0 <= i < j ==> ms@[i].aesthetic != ms@[k as int].aesthetic,
            decreases k - j,
        {
            if ms[j].aesthetic == ms[k].aesthetic {
                assert(repeats_earlier(ms@, k as int));
                assert(duplicate_channel(ms@, (k + 1) as nat) == Some(ms@[k as int].aesthetic));
                proof {
                    lemma_duplicate_stays(ms@, (k + 1) as nat, n as nat);
                }
                return Some(ms[k].aesthetic);
            }
            j = j + 1;
        }
        assert(!repeats_earlier(ms@, k as int));
        k = k + 1;
    }
    None
}

/// Once a prefix of the mappings holds a repeated channel, every longer
/// prefix reports that same channel.
proof fn lemma_duplicate_stays(ms: Seq<Mapping>, m: nat, n: nat)
    requires
        m <= n,
    ensures
        duplicate_channel(ms, m) is Some ==> duplicate_channel(ms, n) == duplicate_channel(ms, m),
    decreases n - m,
{
    if m < n {
        lemma_duplicate_stays(ms, m, (n - 1) as nat);
    }
}

/// The first problem among the layers.
fn check_layers(layers: &Vec<Layer>) -> (r: Option<Unsupported>)
    ensures
        r == layers_problem(layers@, layers@.len()),
{
    let n = layers.len();
    let mut i: usize = 0;
    while i < n
        invariant
            n == layers@.len(),
            i <= n,
            layers_problem(layers@, i as nat) is None,
        decreases n - i,
    {
        let layer = &layers[i];
        let problem = if mark_of(layer.geom).is_none() {
            Some(Unsupported::Geom(i, layer.geom))
        } else {
            match find_duplicate_channel(&layer.mappings) {
                Some(a) => Some(Unsupported::DuplicateChannel(i, a)),
                None => None,
            }
        };
        assert(problem == layer_problem(layers@[i as int], i as nat));
        if problem.is_some() {
            proof {
                lemma_layers_problem_stays(layers@, (i + 1) as nat, n as nat);
            }
            return problem;
        }
        i = i + 1;
    }
    None
}

proof fn lemma_layers_problem_stays(layers: Seq<Layer>, m: nat, n: nat)
    requires
        m <= n,
    ensures
        layers_problem(layers, m) is Some ==> layers_problem(layers, n) == layers_problem(layers, m),
    decreases n - m,
{
    if m < n {
        lemma_layers_problem_stays(layers, m, (n - 1) as nat);
    }
}

/// The first scale whose kind has no Vega-Lite scale type.
fn check_scales(scales: &Vec<Scale>) -> (r: Option<Unsupported>)
    ensures
        r == scales_problem(scales@, scales@.len()),
{
    let n = scales.len();
    let mut i: usize = 0;
    while i < n
        invariant
            n == scales@.len(),
            i <= n,
            scales_problem(scales@, i as nat) is None,
        decreases n - i,
    {
        if scale_type_of(scales[i].kind).is_none() {
            proof {
                lemma_scales_problem_stays(scales@, (i + 1) as nat, n as nat);
            }
            return Some(Unsupported::Scale(scales[i].aesthetic, scales[i].kind));
        }
        i = i + 1;
    }
    None
}

proof fn lemma_scales_problem_stays(scales: Seq<Scale>, m: nat, n: nat)
    requires
        m <= n,
    ensures
        scales_problem(scales, m) is Some ==> scales_problem(scales, n) == scales_problem(scales, m),
    decreases n - m,
{
    if m < n {
        lemma_scales_problem_stays(scales, m, (n - 1) as nat);
    }
}

/// Checks that every element of the plot has a Vega-Lite counterpart.
fn check_plot(p: &Plot) -> (r: Result<(), WriterError>)
    ensures
        r == validate_plot(*p),
{
    if let Some(u) = check_layers(&p.layers) {
        return Err(WriterError::UnsupportedFeature(u));
    }
    if let Some(u) = check_scales(&p.scales) {
        return Err(WriterError::UnsupportedFeature(u));
    }
    if p.facet.is_some() {
        return Err(WriterError::UnsupportedFeature(Unsupported::Facet));
    }
    Ok(())
}

/// The writer for Vega-Lite JSON.
#[derive(Clone, Copy, Debug, PartialEq, Eq, Structural)]
pub struct VegaLiteWriter {}

impl VegaLiteWriter {
    /// The Vega-Lite writer; it holds no state.
    pub fn new() -> (r: VegaLiteWriter) {
        VegaLiteWriter {  }
    }
}

proof fn lemma_encoding_never_unsupported(
    li: nat,
    ms: Seq<Mapping>,
    frame: DataFrame,
    scales: Seq<Scale>,
    n: nat,
)
    ensures
        !(encoding_json(li, ms, frame, scales, n) matches Err(WriterError::UnsupportedFeature(_))),
    decreases n,
{
    if n > 0 {
        lemma_encoding_never_unsupported(li, ms, frame, scales, (n - 1) as nat);
    }
}

proof fn lemma_layers_never_unsupported(
    layers: Seq<Layer>,
    data: Map<Seq<char>, DataFrame>,
    scales: Seq<Scale>,
    n: nat,
)
    ensures
        !(layers_json(layers, data, scales, n) matches Err(WriterError::UnsupportedFeature(_))),
    decreases n,
{
    if n > 0 {
        lemma_layers_never_unsupported(layers, data, scales, (n - 1) as nat);
        let layer = layers[n - 1];
        if data.contains_key(layer.source@) {
            lemma_encoding_never_unsupported(
                (n - 1) as nat,
                layer.mappings@,
                data[layer.source@],
                scales,
                layer.mappings@.len(),
            );
        }
        reveal(layer_json);
    }
}

proof fn lemma_layers_prefix_ok(
    layers: Seq<Layer>,
    data: Map<Seq<char>, DataFrame>,
    scales: Seq<Scale>,
    k: nat,
)
    requires
        forall|j: int| 0 <= j < k ==> (#[trigger] layer_json(j as nat, layers[j], data, scales)) is Ok,
    ensures
        layers_json(layers, data, scales, k) is Ok,
    decreases k,
{
    if k > 0 {
        lemma_layers_prefix_ok(layers, data, scales, (k - 1) as nat);
        assert(layer_json((k - 1) as nat, layers[k - 1], data, scales) is Ok);
    }
}

/// The error of a plot is that of its first layer that cannot be written.
proof fn lemma_first_failing_layer(
    layers: Seq<Layer>,
    data: Map<Seq<char>, DataFrame>,
    scales: Seq<Scale>,
    i: nat,
    n: nat,
)
    requires
        i < n,
        forall|j: int| 0 <= j < i ==> (#[trigger] layer_json(j as nat, layers[j], data, scales)) is Ok,
        layer_json(i, layers[i as int], data, scales) is Err,
    ensures
        layers_json(layers, data, scales, n) == layer_json(i, layers[i as int], data, scales),
{
    lemma_layers_prefix_ok(layers, data, scales, i);
    assert(layers_json(layers, data, scales, i + 1) == layer_json(i, layers[i as int], data, scales));
    lemma_layers_error_stays(layers, data, scales, i + 1, n);
}

proof fn lemma_encoding_prefix_ok(
    li: nat,
    ms: Seq<Mapping>,
    frame: DataFrame,
    scales: Seq<Scale>,
    k: nat,
)
    requires
        forall|q: int| 0 <= q < k ==> (#[trigger] mapping_json(li, ms[q], frame, scales)) is Ok,
    ensures
        encoding_json(li, ms, frame, scales, k) is Ok,
    decreases k,
{
    if k > 0 {
        lemma_encoding_prefix_ok(li, ms, frame, scales, (k - 1) as nat);
        assert(mapping_json(li, ms[k - 1], frame, scales) is Ok);
    }
}

proof fn lemma_mapping_ok_iff(
    writer: &VegaLiteWriter,
    li: nat,
    m: Mapping,
    frame: DataFrame,
    scales: Seq<Scale>,
)
    ensures
        mapping_json(li, m, frame, scales) is Ok <==> mapping_ready(m, frame, writer.encodable()),
{
}

proof fn lemma_encoding_ok_iff(
    writer: &VegaLiteWriter,
    li: nat,
    ms: Seq<Mapping>,
    frame: DataFrame,
    scales: Seq<Scale>,
    n: nat,
)
    requires
        n <= ms.len(),
    ensures
        encoding_json(li, ms, frame, scales, n) is Ok <==> forall|q: int|
            0 <= q < n ==> #[trigger] mapping_ready(ms[q], frame, writer.encodable()),
    decreases n,
{
    if n > 0 {
        lemma_encoding_ok_iff(writer, li, ms, frame, scales, (n - 1) as nat);
        lemma_mapping_ok_iff(writer, li, ms[n - 1], frame, scales);
        if encoding_json(li, ms, frame, scales, n) is Ok {
            assert forall|q: int| 0 <= q < n implies #[trigger] mapping_ready(ms[q], frame, writer.encodable()) by {
                if q < n - 1 {
                    assert(encoding_json(li, ms, frame, scales, (n - 1) as nat) is Ok);
                }
            }
        }
    }
}

proof fn lemma_layer_ok_iff(
    writer: &VegaLiteWriter,
    li: nat,
    layer: Layer,
    data: Map<Seq<char>, DataFrame>,
    scales: Seq<Scale>,
)
    ensures
        layer_json(li, layer, data, scales) is Ok <==> layer_ready(layer, data, writer.encodable(), writer.serializable()),
{
    reveal(layer_json);
    if data.contains_key(layer.source@) {
        lemma_encoding_ok_iff(
            writer,
            li,
            layer.mappings@,
            data[layer.source@],
            scales,
            layer.mappings@.len(),
        );
    }
}

proof fn lemma_layers_ok_iff(
    writer: &VegaLiteWriter,
    layers: Seq<Layer>,
    data: Map<Seq<char>, DataFrame>,
    scales: Seq<Scale>,
    n: nat,
)
    requires
        n <= layers.len(),
    ensures
        layers_json(layers, data, scales, n) is Ok <==> forall|j: int|
            0 <= j < n ==> #[trigger] layer_ready(layers[j], data, writer.encodable(), writer.serializable()),
    decreases n,
{
    if n > 0 {
        lemma_layers_ok_iff(writer, layers, data, scales, (n - 1) as nat);
        lemma_layer_ok_iff(writer, (n - 1) as nat, layers[n - 1], data, scales);
        if layers_json(layers, data, scales, n) is Ok {
            assert forall|j: int| 0 <= j < n implies #[trigger] layer_ready(layers[j], data, writer.encodable(), writer.serializable()) by {
                if j < n - 1 {
                    assert(layers_json(layers, data, scales, (n - 1) as nat) is Ok);
                }
            }
        }
    }
}

/// Layers before `i` that are ready can be written.
proof fn lemma_ready_layers_written(
    writer: &VegaLiteWriter,
    layers: Seq<Layer>,
    data: Map<Seq<char>, DataFrame>,
    scales: Seq<Scale>,
    i: int,
)
    requires
        0 <= i <= layers.len(),
        forall|j: int| 0 <= j < layers.len() && j != i ==> #[trigger] layer_ready(layers[j], data, writer.encodable(), writer.serializable()),
    ensures
        forall|j: int| 0 <= j < i ==> (#[trigger] layer_json(j as nat, layers[j], data, scales)) is Ok,
{
    assert forall|j: int| 0 <= j < i implies (#[trigger] layer_json(j as nat, layers[j], data, scales)) is Ok by {
        assert(layer_ready(layers[j], data, writer.encodable(), writer.serializable()));
        lemma_layer_ok_iff(writer, j as nat, layers[j], data, scales);
    }
}

impl Writer for VegaLiteWriter {
    open spec fn write_spec(&self, spec: Plot, data: Map<Seq<char>, DataFrame>) -> Result<
        Seq<char>,
        WriterError,
    > {
        write_plot(spec, data)
    }

    open spec fn validate_spec(&self, spec: Plot) -> Result<(), WriterError> {
        validate_plot(spec)
    }

    /// Values with a Vega-Lite field type can be shown on any channel.
    open spec fn column_encodable(&self, aesthetic: Aesthetic, values: Series) -> bool {
        field_type_name(values) is Some
    }

    /// A table written inline must hold no binary column; one referred to by
    /// name is not serialized.
    open spec fn table_encodable(&self, frame: DataFrame) -> bool {
        frame.spec_height() > INLINE_ROW_LIMIT || binary_column_from(frame@, 0) is None
    }

    proof fn lemma_validation_stable(&self, spec: Plot, data: Map<Seq<char>, DataFrame>) {
        lemma_layers_never_unsupported(spec.layers@, data, spec.scales@, spec.layers@.len());
    }

    proof fn lemma_unsupported_carried(&self, spec: Plot, data: Map<Seq<char>, DataFrame>) {
    }

    proof fn lemma_failure_exact(&self, spec: Plot, data: Map<Seq<char>, DataFrame>) {
        lemma_layers_ok_iff(self, spec.layers@, data, spec.scales@, spec.layers@.len());
    }

    proof fn lemma_missing_source(&self, spec: Plot, data: Map<Seq<char>, DataFrame>, i: int) {
        lemma_ready_layers_written(self, spec.layers@, data, spec.scales@, i);
        reveal(layer_json);
        lemma_first_failing_layer(spec.layers@, data, spec.scales@, i as nat, spec.layers@.len());
    }

    proof fn lemma_missing_column(
        &self,
        spec: Plot,
        data: Map<Seq<char>, DataFrame>,
        i: int,
        k: int,
    ) {
        let layer = spec.layers@[i];
        let frame = data[layer.source@];
        let ms = layer.mappings@;
        lemma_ready_layers_written(self, spec.layers@, data, spec.scales@, i);
        assert forall|q: int| 0 <= q < k implies (#[trigger] mapping_json(
            i as nat,
            ms[q],
            frame,
            spec.scales@,
        )) is Ok by {
            assert(mapping_ready(ms[q], frame, self.encodable()));
            lemma_mapping_ok_iff(self, i as nat, ms[q], frame, spec.scales@);
        }
        lemma_encoding_prefix_ok(i as nat, ms, frame, spec.scales@, k as nat);
        assert(encoding_json(i as nat, ms, frame, spec.scales@, (k + 1) as nat) is Err);
        lemma_encoding_error_stays(i as nat, ms, frame, spec.scales@, (k + 1) as nat, ms.len());
        reveal(layer_json);
        lemma_first_failing_layer(spec.layers@, data, spec.scales@, i as nat, spec.layers@.len());
    }

    fn write(&self, spec: &Plot, data: &DataMap) -> (r: Result<String, WriterError>) {
        match check_plot(spec) {
            Err(e) => Err(e),
            Ok(()) => write_layers(spec, data),
        }
    }

    fn validate(&self, spec: &Plot) -> (r: Result<(), WriterError>) {
        check_plot(spec)
    }
}

} // verus!
