use disktui::objects::{parse_model, read_bytes, read_u64, DValue, Ifaces, Props};

fn bytes(text: &str) -> DValue {
    let mut items: Vec<DValue> = text.bytes().map(DValue::U8).collect();
    items.push(DValue::U8(0));
    DValue::Array(items)
}

fn prop(name: &str, value: DValue) -> (String, DValue) {
    (name.to_string(), value)
}

#[test]
fn byte_strings_stop_at_the_nul() {
    let props: Props = vec![prop("Device", bytes("/dev/sdb")), prop("Size", DValue::U64(42))];
    assert_eq!(read_bytes(&props, "Device"), "/dev/sdb");
    assert_eq!(read_bytes(&props, "Missing"), "");
    assert_eq!(read_u64(&props, "Size"), 42);
}

#[test]
fn objects_become_the_model() {
    let block_props: Props = vec![
        prop("Device", bytes("/dev/sdb1")),
        prop("PreferredDevice", bytes("/dev/sdb1")),
        prop("Size", DValue::U64(1000)),
        prop("IdType", DValue::Str("ext4".into())),
        prop("IdLabel", DValue::Str("DATA".into())),
        prop("Drive", DValue::Path("/org/freedesktop/UDisks2/drives/d".into())),
    ];
    let fs_props: Props = vec![prop("MountPoints", DValue::Array(vec![bytes("/mnt/data")]))];
    let block_ifaces: Ifaces = vec![
        ("org.freedesktop.UDisks2.Block".into(), block_props),
        ("org.freedesktop.UDisks2.Filesystem".into(), fs_props),
    ];
    let drive_props: Props = vec![
        prop("Vendor", DValue::Str("ACME".into())),
        prop("Model", DValue::Str("Disk".into())),
        prop("Size", DValue::U64(2000)),
        prop("Removable", DValue::Bool(true)),
    ];
    let drive_ifaces: Ifaces = vec![("org.freedesktop.UDisks2.Drive".into(), drive_props)];
    let objects = vec![
        ("/org/freedesktop/UDisks2/block_devices/sdb1".to_string(), block_ifaces),
        ("/org/freedesktop/UDisks2/drives/d".to_string(), drive_ifaces),
        ("/org/freedesktop/UDisks2/Manager".to_string(), Vec::new()),
    ];
    let model = parse_model(&objects);
    assert_eq!(model.blocks.len(), 1);
    assert_eq!(model.drives.len(), 1);
    assert!(model.raids.is_empty());
    let b = &model.blocks[0];
    assert_eq!(b.path, "/org/freedesktop/UDisks2/block_devices/sdb1");
    assert_eq!(b.device, "/dev/sdb1");
    assert_eq!(b.size, 1000);
    assert_eq!(b.id_type, "ext4");
    assert_eq!(b.id_label, "DATA");
    assert!(b.filesystem);
    assert_eq!(b.mount_points, vec!["/mnt/data".to_string()]);
    assert_eq!(b.drive, "/org/freedesktop/UDisks2/drives/d");
    let d = &model.drives[0];
    assert_eq!(d.vendor, "ACME");
    assert_eq!(d.size, 2000);
    assert!(d.removable);
    assert!(d.ata.is_none());
}
