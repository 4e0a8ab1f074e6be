use disktui::model::{Block, Drive, Model, PartTable, Partition, RowKind, MIB};

fn drive(path: &str, sort_key: &str, vendor: &str) -> Drive {
    Drive {
        path: path.into(),
        vendor: vendor.into(),
        model: "Disk".into(),
        revision: String::new(),
        serial: String::new(),
        size: 100 * MIB,
        connection: String::new(),
        media: String::new(),
        removable: false,
        ejectable: false,
        optical: false,
        can_power_off: false,
        sort_key: sort_key.into(),
        rotation: 0,
        config: Vec::new(),
        ata: None,
        nvme: false,
        nvme_path: String::new(),
    }
}

fn block(path: &str, device: &str, drive: &str) -> Block {
    Block {
        path: path.into(),
        device: device.into(),
        preferred: String::new(),
        id_usage: String::new(),
        id_type: String::new(),
        id_label: String::new(),
        id_uuid: String::new(),
        size: 100 * MIB,
        read_only: false,
        hint_system: false,
        hint_ignore: false,
        drive: drive.into(),
        crypto_backing: "/".into(),
        mdraid: "/".into(),
        mdraid_member: "/".into(),
        symlinks: Vec::new(),
        partition: None,
        table: None,
        filesystem: false,
        mount_points: Vec::new(),
        swap: false,
        swap_active: false,
        encrypted: false,
        cleartext: "/".into(),
        hint_encryption: String::new(),
        loopback: false,
        backing_file: String::new(),
        loop_autoclear: false,
        config: Vec::new(),
    }
}

#[test]
fn drives_come_in_sort_key_order_with_their_partitions() {
    let mut model = Model::default();
    model.drives.push(drive("/d2", "02", "Second"));
    model.drives.push(drive("/d1", "01", "First"));
    let mut disk = block("/disk1", "/dev/sda", "/d1");
    disk.table = Some(PartTable { kind: "gpt".into() });
    let mut part = block("/p1", "/dev/sda1", "/d1");
    part.id_type = "ext4".into();
    part.size = 40 * MIB;
    part.mount_points.push("/mnt/a".into());
    part.partition = Some(Partition {
        number: 1,
        type_code: "0x83".into(),
        name: String::new(),
        flags: 0,
        offset: MIB,
        size: 40 * MIB,
        uuid: String::new(),
        table: "/disk1".into(),
        container: false,
        contained: false,
    });
    model.blocks.push(part);
    model.blocks.push(disk);
    let rows = model.rows();
    assert_eq!(rows.len(), 5);
    assert!(matches!(&rows[0].kind, RowKind::Drive { drive } if drive == "/d1"));
    assert_eq!(rows[0].label, "First Disk");
    assert!(rows[0].mounted);
    assert!(matches!(&rows[1].kind, RowKind::Volume { block } if block == "/p1"));
    assert_eq!(rows[1].depth, 1);
    assert_eq!(rows[1].label, "p1 ext4");
    assert_eq!(rows[1].size, Some(40 * MIB));
    assert!(matches!(&rows[2].kind, RowKind::Free { disk, start, size } if disk == "/disk1" && *start == 41 * MIB && *size == 59 * MIB));
    assert!(matches!(&rows[3].kind, RowKind::Drive { drive } if drive == "/d2"));
    assert!(!rows[3].mounted);
    assert!(matches!(rows[4].kind, RowKind::Shares));
    assert_eq!(rows[4].label, "Network shares");
    assert_eq!(rows[4].size, None);
}
