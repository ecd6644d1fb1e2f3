use ggsql::data::{Column, DataFrame, DataMap, Series};

fn ints(name: &str, n: usize) -> Column {
    Column::new(name.to_string(), Series::Int(vec![Some(1); n]))
}

#[test]
fn frame_rejects_unequal_lengths() {
    assert!(DataFrame::new(vec![ints("a", 2), ints("b", 3)]).is_none());
}

#[test]
fn frame_rejects_repeated_names() {
    assert!(DataFrame::new(vec![ints("a", 2), ints("a", 2)]).is_none());
}

#[test]
fn frame_reports_shape_and_columns() {
    let f = DataFrame::new(vec![ints("a", 2), ints("b", 2)]).unwrap();
    assert_eq!(f.height(), 2);
    assert_eq!(f.width(), 2);
    assert_eq!(f.column_index(&"b".to_string()), Some(1));
    assert_eq!(f.column_index(&"c".to_string()), None);
    let empty = DataFrame::new(vec![]).unwrap();
    assert_eq!(empty.height(), 0);
}

#[test]
fn map_insert_replaces_entry() {
    let mut data = DataMap::new();
    assert!(data.get(&"s".to_string()).is_none());
    data.insert("s".to_string(), DataFrame::new(vec![ints("a", 1)]).unwrap());
    data.insert("t".to_string(), DataFrame::new(vec![ints("a", 2)]).unwrap());
    data.insert("s".to_string(), DataFrame::new(vec![ints("a", 3)]).unwrap());
    assert_eq!(data.get(&"s".to_string()).unwrap().height(), 3);
    assert_eq!(data.get(&"t".to_string()).unwrap().height(), 2);
}
