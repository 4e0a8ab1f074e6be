use disktui::model::{
    confirm_ok, is_system_mount, part_types, partition_type_label, segments, type_code_for,
    volume_label, ActionId, Block, Caps, Model, PartTable, Partition, RowKind, Tool, MIB,
};

fn block(path: &str, device: &str) -> Block {
    Block {
        path: path.into(),
        device: device.into(),
        preferred: device.into(),
        id_usage: String::new(),
        id_type: "ext4".into(),
        id_label: String::new(),
        id_uuid: String::new(),
        size: 100 * MIB,
        read_only: false,
        hint_system: false,
        hint_ignore: false,
        drive: "/drives/d".into(),
        crypto_backing: "/".into(),
        mdraid: "/".into(),
        mdraid_member: "/".into(),
        symlinks: Vec::new(),
        partition: None,
        table: None,
        filesystem: true,
        mount_points: Vec::new(),
        swap: false,
        swap_active: false,
        encrypted: false,
        cleartext: "/".into(),
        hint_encryption: String::new(),
        loopback: false,
        backing_file: String::new(),
        loop_autoclear: false,
        config: Vec::new(),
    }
}

fn partition(number: u32, type_code: &str, name: &str, offset: u64, size: u64) -> Partition {
    Partition {
        number,
        type_code: type_code.into(),
        name: name.into(),
        flags: 0,
        offset,
        size,
        uuid: String::new(),
        table: "/disk".into(),
        container: false,
        contained: false,
    }
}

#[test]
fn hides_the_leading_alignment_gap_and_keeps_real_free_space() {
    let parts = vec![(MIB, 50 * MIB, "/b".to_string(), "p1".to_string())];
    let segs = segments(100 * MIB, &parts);
    assert!(segs.iter().all(|s| s.start != 0 || !s.free));
    assert!(segs.iter().any(|s| s.free && s.start == 51 * MIB));
    let tiny = segments(10 * MIB, &[(0, 10 * MIB - 100, "/b".to_string(), "p".to_string())]);
    assert!(tiny.iter().all(|s| !s.free));
}

#[test]
fn confirm_requires_the_kernel_name_and_system_ack() {
    assert!(confirm_ok("nvme0n1p2", "nvme0n1p2", false, ""));
    assert!(!confirm_ok("nvme0n1p2", "nvme0n1", false, ""));
    assert!(!confirm_ok("nvme0n1", "nvme0n1", true, ""));
    assert!(confirm_ok("nvme0n1", "nvme0n1", true, "system"));
    assert!(is_system_mount("/boot/efi"));
    assert!(!is_system_mount("/mnt/data"));
}

#[test]
fn mounted_volume_offers_unmount_and_blocks_format() {
    let mut model = Model::default();
    let mut vol = block("/b", "/dev/sda1");
    vol.mount_points.push("/mnt/data".into());
    vol.partition = Some(partition(1, "0x83", "", MIB, 50 * MIB));
    model.blocks.push(vol);
    let actions = model.actions(&Caps::default(), &RowKind::Volume { block: "/b".into() });
    let mount = actions.iter().find(|a| a.id == ActionId::Mount).unwrap();
    let unmount = actions.iter().find(|a| a.id == ActionId::Unmount).unwrap();
    let format = actions.iter().find(|a| a.id == ActionId::Format).unwrap();
    assert!(!mount.enabled);
    assert!(unmount.enabled);
    assert!(!format.enabled);
    assert!(format.reason.contains("Unmount"));
}

#[test]
fn missing_formatter_dims_format_for_that_type() {
    let mut model = Model::default();
    let mut vol = block("/b", "/dev/sda1");
    vol.id_type = "xfs".into();
    vol.filesystem = false;
    model.blocks.push(vol);
    let mut caps = Caps::default();
    caps.format.insert(
        "xfs".into(),
        Tool {
            available: false,
            missing: "xfsprogs".into(),
        },
    );
    let actions = model.actions(&caps, &RowKind::Volume { block: "/b".into() });
    let format = actions.iter().find(|a| a.id == ActionId::Format).unwrap();
    assert!(format.enabled);
}

#[test]
fn system_root_is_flagged() {
    let mut model = Model::default();
    let mut disk = block("/disk", "/dev/nvme0n1");
    disk.table = Some(PartTable { kind: "gpt".into() });
    disk.filesystem = false;
    disk.size = 100 * MIB;
    let mut root = block("/p", "/dev/nvme0n1p2");
    root.mount_points.push("/".into());
    root.partition = Some(partition(2, part_types()[0].gpt, "root", MIB, 90 * MIB));
    model.blocks.push(disk);
    model.blocks.push(root);
    assert!(model.is_system_tree("/disk"));
    assert_eq!(
        model.confirm_name(&RowKind::Drive {
            drive: "/drives/d".into()
        }),
        "nvme0n1"
    );
    assert!(model.row_is_system(&RowKind::Drive {
        drive: "/drives/d".into()
    }));
    assert!(model.row_is_system(&RowKind::Volume { block: "/p".into() }));
}

#[test]
fn free_space_after_the_last_partition_is_listed() {
    let parts = vec![
        (MIB, 10 * MIB, "/b1".to_string(), "p1".to_string()),
        (20 * MIB, 10 * MIB, "/b2".to_string(), "p2".to_string()),
    ];
    let segs = segments(100 * MIB, &parts);
    let free: Vec<(u64, u64)> = segs.iter().filter(|s| s.free).map(|s| (s.start, s.size)).collect();
    assert_eq!(free, vec![(11 * MIB, 9 * MIB), (30 * MIB, 70 * MIB)]);
    assert_eq!(segs.iter().filter(|s| !s.free).count(), 2);
}

#[test]
fn unmounted_volume_offers_mount() {
    let mut model = Model::default();
    model.blocks.push(block("/b", "/dev/sdb1"));
    let actions = model.actions(&Caps::default(), &RowKind::Volume { block: "/b".into() });
    let mount = actions.iter().find(|a| a.id == ActionId::Mount).unwrap();
    let unmount = actions.iter().find(|a| a.id == ActionId::Unmount).unwrap();
    assert!(mount.enabled);
    assert!(!unmount.enabled);
}

#[test]
fn partition_types_by_label_and_code() {
    let linux = part_types()[0];
    assert_eq!(partition_type_label(linux.gpt), linux.label);
    assert_eq!(partition_type_label("0x83"), linux.label);
    assert_eq!(type_code_for("gpt", linux.label), linux.gpt);
    assert_eq!(type_code_for("dos", linux.label), "0x83");
}

#[test]
fn volume_label_names_the_device() {
    let mut b = block("/b", "/dev/sdc1");
    assert_eq!(volume_label(&b), "sdc1");
    b.id_label = "DATA".into();
    assert_eq!(volume_label(&b), "DATA");
    b.partition = Some(partition(3, "0x83", "", MIB, MIB));
    assert_eq!(volume_label(&b), "p3 DATA");
    assert!(!is_system_mount("/home/user/data"));
    assert!(is_system_mount("/"));
    assert!(is_system_mount("/home"));
}

#[test]
fn check_and_repair_of_a_mounted_volume_say_why() {
    let mut model = Model::default();
    let mut vol = block("/b", "/dev/sda1");
    vol.mount_points.push("/mnt/data".into());
    model.blocks.push(vol);
    let actions = model.actions(&Caps::default(), &RowKind::Volume { block: "/b".into() });
    for id in [ActionId::Check, ActionId::Repair] {
        let a = actions.iter().find(|a| a.id == id).unwrap();
        assert!(!a.enabled);
        assert_eq!(a.reason, "Unmount it first");
    }
    assert!(actions.iter().all(|a| a.enabled == a.reason.is_empty()));
}

#[test]
fn partition_types_read_back_in_any_case() {
    for t in part_types() {
        let code = type_code_for("gpt", t.label);
        assert_eq!(code, t.gpt);
        assert_eq!(partition_type_label(&code), t.label);
        assert_eq!(partition_type_label(&format!("  {}  ", code.to_uppercase())), t.label);
    }
}

#[test]
fn tables_keep_one_entry_per_key() {
    let mut caps = Caps::default();
    caps.check.insert("xfs".into(), Tool { available: true, missing: String::new() });
    caps.check.insert("ext4".into(), Tool { available: true, missing: String::new() });
    caps.check.insert("xfs".into(), Tool { available: false, missing: "xfsprogs".into() });
    assert_eq!(caps.check.entries.len(), 2);
    assert!(!caps.check.get("xfs").unwrap().available);
}
