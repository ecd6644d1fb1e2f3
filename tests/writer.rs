use ggsql::data::{Column, DataFrame, DataMap, Series};
use ggsql::error::{Unsupported, WriterError};
use ggsql::plot::{Aesthetic, Facet, Geom, Layer, Mapping, Plot, Scale, ScaleKind};
use ggsql::prepared::Prepared;
use ggsql::writer::vegalite::INLINE_ROW_LIMIT;
use ggsql::writer::{VegaLiteWriter, Writer};

const HEAD: &str = "{\"$schema\":\"https://vega.github.io/schema/vega-lite/v5.json\",\"layer\":[";

fn int_column(name: &str, values: &[i64]) -> Column {
    Column::new(name.to_string(), Series::Int(values.iter().map(|v| Some(*v)).collect()))
}

fn frame(columns: Vec<Column>) -> DataFrame {
    DataFrame::new(columns).expect("well-formed columns")
}

fn map_with(name: &str, f: DataFrame) -> DataMap {
    let mut data = DataMap::new();
    data.insert(name.to_string(), f);
    data
}

fn layer(geom: Geom, source: &str, mappings: &[(Aesthetic, &str)]) -> Layer {
    Layer::new(
        geom,
        source.to_string(),
        mappings.iter().map(|(a, c)| Mapping::new(*a, c.to_string())).collect(),
    )
}

fn point_plot() -> Plot {
    Plot::new(
        vec![layer(Geom::Point, "main", &[(Aesthetic::X, "a"), (Aesthetic::Y, "b")])],
        vec![],
        None,
    )
}

fn main_data() -> DataMap {
    map_with("main", frame(vec![int_column("a", &[1, 2]), int_column("b", &[3, 4])]))
}

#[test]
fn scenario_point_layer_inlines_rows() {
    let prepared = Prepared::new(point_plot(), main_data());
    let out = VegaLiteWriter::new().render(&prepared).unwrap();
    let expected = format!(
        "{}{}]}}",
        HEAD,
        "{\"data\":{\"values\":[{\"a\":1,\"b\":3},{\"a\":2,\"b\":4}]},\"encoding\":{\"x\":{\"field\":\"a\",\"type\":\"quantitative\"},\"y\":{\"field\":\"b\",\"type\":\"quantitative\"}},\"mark\":\"point\"}"
    );
    assert_eq!(out, expected);
}

#[test]
fn render_equals_write_on_bundle() {
    let writer = VegaLiteWriter::new();
    let prepared = Prepared::new(point_plot(), main_data());
    let rendered = writer.render(&prepared);
    let written = writer.write(prepared.plot(), prepared.data_map());
    assert_eq!(rendered, written);
    let missing = Prepared::new(point_plot(), DataMap::new());
    assert_eq!(writer.render(&missing), writer.write(missing.plot(), missing.data_map()));
}

#[test]
fn write_is_deterministic() {
    let writer = VegaLiteWriter::new();
    let first = writer.write(&point_plot(), &main_data());
    let second = writer.write(&point_plot(), &main_data());
    assert!(first.is_ok());
    assert_eq!(first, second);
}

#[test]
fn missing_source_is_reported() {
    let writer = VegaLiteWriter::new();
    let plot = Plot::new(vec![layer(Geom::Line, "s1", &[(Aesthetic::X, "a")])], vec![], None);
    assert_eq!(writer.validate(&plot), Ok(()));
    let data = map_with("s2", frame(vec![int_column("a", &[1])]));
    assert_eq!(
        writer.write(&plot, &data),
        Err(WriterError::MissingSource { layer: 0, source: "s1".to_string() })
    );
}

#[test]
fn missing_source_on_later_layer() {
    let writer = VegaLiteWriter::new();
    let plot = Plot::new(
        vec![
            layer(Geom::Point, "main", &[(Aesthetic::X, "a")]),
            layer(Geom::Line, "s1", &[(Aesthetic::X, "a")]),
        ],
        vec![],
        None,
    );
    assert_eq!(
        writer.write(&plot, &main_data()),
        Err(WriterError::MissingSource { layer: 1, source: "s1".to_string() })
    );
}

#[test]
fn missing_column_is_reported() {
    let writer = VegaLiteWriter::new();
    let plot = Plot::new(vec![layer(Geom::Point, "t", &[(Aesthetic::X, "c1")])], vec![], None);
    let data = map_with("t", frame(vec![int_column("c2", &[1]), int_column("c3", &[2])]));
    assert_eq!(
        writer.write(&plot, &data),
        Err(WriterError::MissingColumn {
            layer: 0,
            aesthetic: Aesthetic::X,
            column: "c1".to_string()
        })
    );
}

#[test]
fn binary_column_on_channel_is_type_mismatch() {
    let writer = VegaLiteWriter::new();
    let plot = Plot::new(vec![layer(Geom::Point, "t", &[(Aesthetic::Color, "blob")])], vec![], None);
    let data = map_with(
        "t",
        frame(vec![Column::new("blob".to_string(), Series::Binary(vec![Some(vec![1u8, 2])]))]),
    );
    assert_eq!(
        writer.write(&plot, &data),
        Err(WriterError::TypeMismatch {
            layer: 0,
            aesthetic: Aesthetic::Color,
            column: "blob".to_string()
        })
    );
}

#[test]
fn binary_column_in_inlined_table_fails_encoding() {
    let writer = VegaLiteWriter::new();
    let plot = Plot::new(vec![layer(Geom::Point, "t", &[(Aesthetic::X, "a")])], vec![], None);
    let data = map_with(
        "t",
        frame(vec![
            int_column("a", &[1]),
            Column::new("blob".to_string(), Series::Binary(vec![None])),
        ]),
    );
    assert_eq!(
        writer.write(&plot, &data),
        Err(WriterError::EncodingFailure { layer: 0, column: "blob".to_string() })
    );
}

#[test]
fn unsupported_geom_fails_validate_and_write() {
    let writer = VegaLiteWriter::new();
    let plot = Plot::new(
        vec![
            layer(Geom::Point, "main", &[(Aesthetic::X, "a")]),
            layer(Geom::Violin, "main", &[(Aesthetic::X, "a")]),
        ],
        vec![],
        None,
    );
    let err = Err(WriterError::UnsupportedFeature(Unsupported::Geom(1, Geom::Violin)));
    assert_eq!(writer.validate(&plot), err.clone());
    assert_eq!(writer.write(&plot, &main_data()).map(|_| ()), err);
}

#[test]
fn duplicate_channel_is_unsupported() {
    let writer = VegaLiteWriter::new();
    let plot = Plot::new(
        vec![layer(
            Geom::Point,
            "main",
            &[(Aesthetic::X, "a"), (Aesthetic::Y, "b"), (Aesthetic::X, "b")],
        )],
        vec![],
        None,
    );
    assert_eq!(
        writer.validate(&plot),
        Err(WriterError::UnsupportedFeature(Unsupported::DuplicateChannel(0, Aesthetic::X)))
    );
}

#[test]
fn unsupported_scale_and_facet() {
    let writer = VegaLiteWriter::new();
    let mut plot = point_plot();
    plot.scales = vec![
        Scale { aesthetic: Aesthetic::X, kind: ScaleKind::Log },
        Scale { aesthetic: Aesthetic::Y, kind: ScaleKind::Probit },
    ];
    assert_eq!(
        writer.validate(&plot),
        Err(WriterError::UnsupportedFeature(Unsupported::Scale(Aesthetic::Y, ScaleKind::Probit)))
    );
    let mut faceted = point_plot();
    faceted.facet = Some(Facet::Wrap { column: "a".to_string() });
    assert_eq!(
        writer.validate(&faceted),
        Err(WriterError::UnsupportedFeature(Unsupported::Facet))
    );
    assert_eq!(
        writer.write(&faceted, &main_data()),
        Err(WriterError::UnsupportedFeature(Unsupported::Facet))
    );
}

#[test]
fn validated_plot_never_fails_as_unsupported() {
    let writer = VegaLiteWriter::new();
    let plot = point_plot();
    assert!(writer.validate(&plot).is_ok());
    for data in [main_data(), DataMap::new(), map_with("main", frame(vec![int_column("z", &[1])]))] {
        match writer.write(&plot, &data) {
            Err(WriterError::UnsupportedFeature(_)) => panic!("validated plot refused as unsupported"),
            _ => {}
        }
    }
}

#[test]
fn scale_member_is_written() {
    let writer = VegaLiteWriter::new();
    let mut plot = point_plot();
    plot.scales = vec![Scale { aesthetic: Aesthetic::Y, kind: ScaleKind::Log }];
    let out = writer.write(&plot, &main_data()).unwrap();
    assert!(out.contains(
        "\"y\":{\"field\":\"b\",\"scale\":{\"type\":\"log\"},\"type\":\"quantitative\"}"
    ));
    assert!(out.contains("\"x\":{\"field\":\"a\",\"type\":\"quantitative\"}"));
}

#[test]
fn large_table_is_referenced_by_name() {
    let writer = VegaLiteWriter::new();
    let values: Vec<i64> = (0..(INLINE_ROW_LIMIT as i64 + 1)).collect();
    let data = map_with("main", frame(vec![int_column("a", &values), int_column("b", &values)]));
    let out = writer.write(&point_plot(), &data).unwrap();
    let expected = format!(
        "{}{}]}}",
        HEAD,
        "{\"data\":{\"name\":\"main\"},\"encoding\":{\"x\":{\"field\":\"a\",\"type\":\"quantitative\"},\"y\":{\"field\":\"b\",\"type\":\"quantitative\"}},\"mark\":\"point\"}"
    );
    assert_eq!(out, expected);
}

#[test]
fn table_at_limit_is_inlined() {
    let writer = VegaLiteWriter::new();
    let values: Vec<i64> = (0..(INLINE_ROW_LIMIT as i64)).collect();
    let data = map_with("main", frame(vec![int_column("a", &values), int_column("b", &values)]));
    let out = writer.write(&point_plot(), &data).unwrap();
    assert!(out.contains("{\"data\":{\"values\":[{\"a\":0,\"b\":0},"));
    assert!(out.contains("{\"a\":4999,\"b\":4999}]}"));
}

#[test]
fn values_are_spelled_as_json() {
    let writer = VegaLiteWriter::new();
    let plot = Plot::new(
        vec![layer(
            Geom::Text,
            "t",
            &[(Aesthetic::X, "n"), (Aesthetic::Color, "flag"), (Aesthetic::Label, "s")],
        )],
        vec![],
        None,
    );
    let columns = vec![
        Column::new("n".to_string(), Series::Int(vec![Some(-42), Some(i64::MIN), None])),
        Column::new("flag".to_string(), Series::Bool(vec![Some(true), Some(false), None])),
        Column::new(
            "s".to_string(),
            Series::Text(vec![Some("say \"hi\"\\".to_string()), Some("a\nb\u{1}é".to_string()), None]),
        ),
    ];
    let out = writer.write(&plot, &map_with("t", frame(columns))).unwrap();
    let rows = "[{\"n\":-42,\"flag\":true,\"s\":\"say \\\"hi\\\"\\\\\"},{\"n\":-9223372036854775808,\"flag\":false,\"s\":\"a\\nb\\u0001é\"},{\"n\":null,\"flag\":null,\"s\":null}]";
    assert!(out.contains(rows), "{}", out);
    assert!(out.contains("\"color\":{\"field\":\"flag\",\"type\":\"nominal\"}"));
    assert!(out.contains("\"text\":{\"field\":\"s\",\"type\":\"nominal\"}"));
    assert!(out.contains("\"mark\":\"text\""));
}

#[test]
fn empty_plot_has_no_layers() {
    let writer = VegaLiteWriter::new();
    let plot = Plot::new(vec![], vec![], None);
    assert_eq!(writer.write(&plot, &DataMap::new()), Ok(format!("{}]}}", HEAD)));
}

#[test]
fn two_layers_are_separated_by_a_comma() {
    let writer = VegaLiteWriter::new();
    let plot = Plot::new(
        vec![
            layer(Geom::Point, "main", &[(Aesthetic::X, "a")]),
            layer(Geom::Line, "main", &[]),
        ],
        vec![],
        None,
    );
    let out = writer.write(&plot, &main_data()).unwrap();
    assert!(out.ends_with(
        "\"mark\":\"point\"},{\"data\":{\"values\":[{\"a\":1,\"b\":3},{\"a\":2,\"b\":4}]},\"encoding\":{},\"mark\":\"line\"}]}"
    ));
}

#[test]
fn binary_column_in_referenced_table_is_not_serialized() {
    let writer = VegaLiteWriter::new();
    let n = INLINE_ROW_LIMIT + 1;
    let values: Vec<i64> = (0..(n as i64)).collect();
    let data = map_with(
        "main",
        frame(vec![
            int_column("a", &values),
            int_column("b", &values),
            Column::new("blob".to_string(), Series::Binary(vec![None; n])),
        ]),
    );
    let out = writer.write(&point_plot(), &data).unwrap();
    assert!(out.contains("{\"data\":{\"name\":\"main\"}"));
}
