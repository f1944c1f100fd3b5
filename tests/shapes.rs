use elmesque::form::{outline_segments, path_segments, LineCap};
use elmesque::text::{collapse, Line};

#[test]
fn path_joins_consecutive_points() {
    assert_eq!(path_segments(3), vec![(0, 1), (1, 2)]);
    assert_eq!(path_segments(1), vec![]);
    assert_eq!(path_segments(0), vec![]);
}

#[test]
fn outline_closes_shapes_of_three_or_more() {
    assert_eq!(outline_segments(3), vec![(0, 1), (1, 2), (2, 0)]);
    assert_eq!(outline_segments(4), vec![(0, 1), (1, 2), (2, 3), (3, 0)]);
    assert_eq!(outline_segments(2), vec![(0, 1)]);
    assert_eq!(outline_segments(0), vec![]);
}

#[test]
fn oval_outline_has_one_segment_per_point() {
    assert_eq!(outline_segments(49).len(), 49);
    assert_eq!(outline_segments(49)[48], (48, 0));
}

#[test]
fn collapse_joins_unit_strings() {
    let parts = vec!["the old ".to_string(), "prince".to_string(), String::new(), " / 2007".to_string()];
    assert_eq!(collapse(&parts), "the old prince / 2007");
    assert_eq!(collapse(&vec![]), "");
}

#[test]
fn plain_enums_compare() {
    assert_ne!(LineCap::Flat, LineCap::Round);
    assert_eq!(LineCap::Padded, LineCap::Padded);
    assert_ne!(Line::Under, Line::Through);
}
