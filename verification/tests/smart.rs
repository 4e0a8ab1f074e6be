use disktui::objects::DValue;
use disktui::smart::ata_table;

fn attr(id: u8, name: &str, value: i32, worst: i32, threshold: i32, raw: DValue) -> DValue {
    DValue::Structure(vec![
        DValue::U8(id),
        DValue::Str(name.into()),
        DValue::U16(51),
        DValue::I32(value),
        DValue::I32(worst),
        DValue::I32(threshold),
        raw,
    ])
}

#[test]
fn attributes_line_up_in_columns() {
    let table = DValue::Array(vec![
        attr(5, "Reallocated_Sector_Ct", 100, 100, 10, DValue::I64(0)),
        DValue::U8(7),
        DValue::Structure(vec![
            DValue::U8(194),
            DValue::Str("Temperature_Celsius".into()),
            DValue::U16(0),
            DValue::Other,
            DValue::I32(36),
            DValue::U8(0),
            DValue::U64(u64::MAX - 1),
        ]),
    ]);
    let text = ata_table(&table).unwrap();
    let lines: Vec<&str> = text.split('\n').collect();
    assert_eq!(lines.len(), 3);
    assert_eq!(lines[0], "id  attribute                         value  worst  threshold  raw");
    assert_eq!(lines[1], "5   Reallocated_Sector_Ct               100    100         10        0");
    assert_eq!(lines[2], "194 Temperature_Celsius                  -1     36          0       -2");
}

#[test]
fn a_reply_that_is_not_a_list_has_no_table() {
    assert!(ata_table(&DValue::Bool(true)).is_none());
    assert_eq!(
        ata_table(&DValue::Array(Vec::new())).unwrap(),
        "id  attribute                         value  worst  threshold  raw"
    );
}
