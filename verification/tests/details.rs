use disktui::details::{details, title, Detail, Shown};
use disktui::model::{Block, Model, Partition, Raid, RowKind, MIB};

fn block(path: &str, device: &str) -> Block {
    Block {
        path: path.into(),
        device: device.into(),
        preferred: String::new(),
        id_usage: "filesystem".into(),
        id_type: "ext4".into(),
        id_label: String::new(),
        id_uuid: String::new(),
        size: 10 * MIB,
        read_only: false,
        hint_system: false,
        hint_ignore: false,
        drive: "/".into(),
        crypto_backing: "/".into(),
        mdraid: "/".into(),
        mdraid_member: "/".into(),
        symlinks: Vec::new(),
        partition: None,
        table: None,
        filesystem: true,
        mount_points: Vec::new(),
        swap: false,
        swap_active: false,
        encrypted: false,
        cleartext: "/".into(),
        hint_encryption: String::new(),
        loopback: false,
        backing_file: String::new(),
        loop_autoclear: false,
        config: Vec::new(),
    }
}

fn text(lines: &[Detail], key: &str) -> Option<String> {
    lines.iter().find(|d| d.key == key).and_then(|d| match &d.value {
        Shown::Text(t) => Some(t.clone()),
        _ => None,
    })
}

#[test]
fn a_mounted_partition_lists_its_details() {
    let mut b = block("/b", "/dev/sda1");
    b.mount_points = vec!["/".into(), "/mnt/x".into()];
    b.partition = Some(Partition {
        number: 1,
        type_code: "0x83".into(),
        name: String::new(),
        flags: 0x80,
        offset: MIB,
        size: 10 * MIB,
        uuid: String::new(),
        table: "/disk".into(),
        container: false,
        contained: true,
    });
    let mut model = Model::default();
    model.blocks.push(b);
    let lines = details(&model, &RowKind::Volume { block: "/b".into() });
    assert_eq!(lines[0].key, "Device");
    assert_eq!(text(&lines, "Device").unwrap(), "/dev/sda1");
    assert!(matches!(lines[1].value, Shown::Size(n) if n == 10 * MIB));
    assert_eq!(text(&lines, "Type").unwrap(), "ext4");
    assert!(text(&lines, "Label").is_none());
    assert_eq!(text(&lines, "Partition").unwrap(), "1  Linux filesystem");
    assert_eq!(text(&lines, "Flags").unwrap(), "0x80");
    assert_eq!(text(&lines, "Layout").unwrap(), "logical partition");
    assert_eq!(text(&lines, "Mounted").unwrap(), "/, /mnt/x");
    assert_eq!(text(&lines, "System").unwrap(), "yes");
    assert!(text(&lines, "RAID member").is_none());
    assert_eq!(title(&model, Some(&RowKind::Volume { block: "/b".into() })), ("sda1".to_string(), None));
}

#[test]
fn free_space_and_arrays() {
    let mut model = Model::default();
    model.blocks.push(block("/disk", "/dev/sdb"));
    model.raids.push(Raid {
        path: "/r".into(),
        uuid: "abcd".into(),
        name: "data".into(),
        level: "raid1".into(),
        size: 5,
        running: true,
        degraded: false,
        sync_action: "resync".into(),
        sync_completed_bits: 0.5f64.to_bits(),
        members: vec!["/m1".into(), "/m2".into()],
    });
    let free = details(&model, &RowKind::Free { disk: "/disk".into(), start: 7, size: 9 });
    assert_eq!(text(&free, "Disk").unwrap(), "sdb");
    assert!(matches!(free[1].value, Shown::Size(7)));
    assert!(matches!(free[2].value, Shown::Size(9)));
    assert_eq!(text(&free, "").unwrap(), "Press n to create a partition here.");
    let raid = details(&model, &RowKind::Raid { raid: "/r".into() });
    assert_eq!(text(&raid, "State").unwrap(), "running");
    assert!(raid.iter().any(|d| matches!(&d.value, Shown::Sync { action, done_bits } if action == "resync" && f64::from_bits(*done_bits) == 0.5)));
    assert_eq!(text(&raid, "Members").unwrap(), "2");
    assert_eq!(title(&model, Some(&RowKind::Raid { raid: "/r".into() })), ("raid1 data".to_string(), None));
    assert_eq!(title(&model, Some(&RowKind::Free { disk: "/disk".into(), start: 0, size: 9 })), ("Free ".to_string(), Some(9)));
    assert_eq!(title(&model, None), ("Disks".to_string(), None));
    assert!(details(&model, &RowKind::Shares).is_empty());
}
