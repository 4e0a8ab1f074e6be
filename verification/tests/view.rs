use disktui::form::Field;
use disktui::model::{RowKind, Segment};
use disktui::view::{bar_cells, bar_text, field_shown, segment_selected};

#[test]
fn the_map_shares_its_width() {
    assert_eq!(bar_cells(&[50, 50], 10), vec![5, 5]);
    assert_eq!(bar_cells(&[1, 99], 10), vec![1, 9]);
    assert_eq!(bar_cells(&[30, 30, 40], 10), vec![3, 3, 4]);
    assert_eq!(bar_cells(&[0], 7), vec![7]);
    assert_eq!(bar_cells(&[5, 5, 5], 2), vec![1, 1, 0]);
}

#[test]
fn segment_labels_fit_their_cells() {
    assert_eq!(bar_text("data", 8), "data    ");
    assert_eq!(bar_text("verylonglabel", 6), "verylo");
    assert_eq!(bar_text("abc", 3), "   ");
    assert_eq!(bar_text("", 0), "");
}

#[test]
fn the_selected_partition_is_marked() {
    let part = Segment { label: "p1".into(), start: 0, size: 10, free: false, block: Some("/b".into()) };
    let free = Segment { label: "free".into(), start: 10, size: 10, free: true, block: None };
    let vol = RowKind::Volume { block: "/b".into() };
    let gap = RowKind::Free { disk: "/d".into(), start: 10, size: 10 };
    assert!(segment_selected(Some(&vol), &part));
    assert!(!segment_selected(Some(&vol), &free));
    assert!(segment_selected(Some(&gap), &free));
    assert!(!segment_selected(None, &part));
}

#[test]
fn fields_read_as_the_form_shows_them() {
    let field = |value: &str, choices: Vec<String>, secret: bool, toggle: bool| Field {
        label: "x".into(),
        value: value.into(),
        choices,
        secret,
        toggle,
    };
    assert_eq!(field_shown(&field("pw", Vec::new(), true, false)), "••");
    assert_eq!(field_shown(&field("yes", Vec::new(), false, true)), "[x]");
    assert_eq!(field_shown(&field("no", Vec::new(), false, true)), "[ ]");
    assert_eq!(field_shown(&field("ext4", vec!["ext4".into()], false, false)), "< ext4 >");
    assert_eq!(field_shown(&field("plain", Vec::new(), false, false)), "plain");
}
