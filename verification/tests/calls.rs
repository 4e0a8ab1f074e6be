use disktui::calls::{
    create_call, format_options, fstab_indices, mount_details, partition_edit_calls, plain_call, resize_steps, Answer,
};
use disktui::model::{ConfigItem, PropVal};
use disktui::op::{CreateReq, FormatReq, MountOptReq, Op};

fn keys(pairs: &[(String, PropVal)]) -> Vec<&str> {
    pairs.iter().map(|(k, _)| k.as_str()).collect()
}

fn text_of<'a>(pairs: &'a [(String, PropVal)], key: &str) -> Option<&'a str> {
    pairs.iter().find(|(k, _)| k == key).and_then(|(_, v)| match v {
        PropVal::Str(s) => Some(s.as_str()),
        _ => None,
    })
}

fn format_req(kind: &str, label: &str, erase: &str, encrypt: bool) -> FormatReq {
    FormatReq {
        path: "/b".into(),
        kind: kind.into(),
        label: label.into(),
        erase: erase.into(),
        encrypt,
        passphrase: "pw".into(),
        take_ownership: false,
    }
}

#[test]
fn format_options_follow_the_request() {
    let all = format_options(&format_req("ext4", "DATA", "zero", true));
    assert_eq!(
        keys(&all),
        vec!["tear-down", "update-partition-type", "label", "erase", "encrypt.passphrase", "encrypt.type"]
    );
    assert_eq!(text_of(&all, "label"), Some("DATA"));
    assert_eq!(text_of(&all, "encrypt.type"), Some("luks2"));
    let bare = format_options(&format_req("empty", "DATA", "none", false));
    assert_eq!(keys(&bare), vec!["tear-down", "update-partition-type"]);
    let mut own = format_req("vfat", "", "", false);
    own.take_ownership = true;
    assert_eq!(keys(&format_options(&own)), vec!["tear-down", "update-partition-type", "take-ownership"]);
}

fn create_req(type_code: &str, fstype: &str, label: &str) -> CreateReq {
    CreateReq {
        disk: "/disk".into(),
        offset: 1048576,
        size: 0,
        type_code: type_code.into(),
        name: String::new(),
        fstype: fstype.into(),
        label: label.into(),
        encrypt: false,
        passphrase: String::new(),
    }
}

#[test]
fn mbr_partitions_are_primary_and_formats_ride_along() {
    let plain = create_call(&create_req("0x83", "", ""));
    assert_eq!(keys(&plain.options), vec!["partition-type"]);
    assert_eq!(text_of(&plain.options, "partition-type"), Some("primary"));
    assert!(plain.format.is_none());
    assert!(create_call(&create_req("0x83", "empty", "")).format.is_none());
    let gpt = create_call(&create_req("0fc63daf-8483-4772-8e79-3d69d8477de4", "ext4", "home"));
    assert!(gpt.options.is_empty());
    let (fstype, format) = gpt.format.unwrap();
    assert_eq!(fstype, "ext4");
    assert_eq!(keys(&format), vec!["update-partition-type", "take-ownership", "label"]);
    assert_eq!(text_of(&format, "label"), Some("home"));
}

#[test]
fn shrinking_resizes_the_filesystem_first() {
    assert_eq!(resize_steps(100, 50, true), vec![(true, 50), (false, 50)]);
    assert_eq!(resize_steps(100, 200, true), vec![(false, 200), (true, 0)]);
    assert_eq!(resize_steps(100, 0, true), vec![(false, 0), (true, 0)]);
    assert_eq!(resize_steps(100, 50, false), vec![(false, 50)]);
}

#[test]
fn fstab_items_are_found_in_order() {
    let item = |kind: &str| ConfigItem { kind: kind.into(), fields: Vec::new() };
    let items = vec![item("crypttab"), item("fstab"), item("other"), item("fstab")];
    assert_eq!(fstab_indices(&items), vec![1, 3]);
    assert!(fstab_indices(&Vec::new()).is_empty());
}

#[test]
fn mount_details_are_nul_terminated() {
    let req = MountOptReq {
        path: "/b".into(),
        existing: Vec::new(),
        fsname: "UUID=x".into(),
        dir: "/mnt/x".into(),
        fstype: "auto".into(),
        opts: "nofail".into(),
        passno: 2,
    };
    let d = mount_details(&req);
    assert_eq!(keys(&d), vec!["fsname", "dir", "type", "opts", "freq", "passno", "track-parents"]);
    assert!(matches!(&d[0].1, PropVal::Bytes(b) if b == b"UUID=x\0"));
    assert!(matches!(&d[1].1, PropVal::Bytes(b) if b == b"/mnt/x\0"));
    assert!(matches!(d[4].1, PropVal::I32(0)));
    assert!(matches!(d[5].1, PropVal::I32(2)));
    assert!(matches!(d[6].1, PropVal::Bool(true)));
}

#[test]
fn simple_operations_are_one_call_on_their_object() {
    let c = plain_call(&Op::Unmount { path: "/b".into(), force: true }).unwrap();
    assert_eq!(c.path, "/b");
    assert_eq!(c.iface, "org.freedesktop.UDisks2.Filesystem");
    assert_eq!(c.method, "Unmount");
    assert_eq!(keys(&c.options), vec!["force"]);
    assert_eq!(c.answer, Answer::Unit);
    let c = plain_call(&Op::Unmount { path: "/b".into(), force: false }).unwrap();
    assert!(c.options.is_empty());
    let c = plain_call(&Op::Check("/b".into())).unwrap();
    assert_eq!(c.answer, Answer::Flag);
    let c = plain_call(&Op::Mount("/b".into())).unwrap();
    assert_eq!(c.answer, Answer::Text);
    let c = plain_call(&Op::SmartAbort { path: "/d".into(), nvme: true }).unwrap();
    assert_eq!(c.iface, "org.freedesktop.UDisks2.NVMe.Controller");
    let c = plain_call(&Op::SecureErase { path: "/d".into(), enhanced: false }).unwrap();
    assert!(matches!(c.options[0].1, PropVal::Bool(false)));
    let c = plain_call(&Op::RaidDelete("/r".into())).unwrap();
    assert_eq!(keys(&c.options), vec!["tear-down"]);
    assert!(plain_call(&Op::Lock("/e".into())).is_some());
    assert!(plain_call(&Op::Smart { path: "/d".into(), nvme: false }).is_none());
}

#[test]
fn calls_with_arguments_put_them_before_the_dictionary() {
    let c = plain_call(&Op::SetLabel { path: "/b".into(), label: "data".into(), swap: true }).unwrap();
    assert_eq!(c.iface, "org.freedesktop.UDisks2.Swapspace");
    assert_eq!(c.method, "SetLabel");
    assert!(matches!(&c.args[..], [PropVal::Str(l)] if l == "data"));
    assert!(c.options.is_empty());
    assert_eq!(c.answer, Answer::Unit);
    let c = plain_call(&Op::SetLabel { path: "/b".into(), label: "x".into(), swap: false }).unwrap();
    assert_eq!(c.iface, "org.freedesktop.UDisks2.Filesystem");
    let c = plain_call(&Op::Unlock { path: "/e".into(), passphrase: "pw".into() }).unwrap();
    assert_eq!(c.method, "Unlock");
    assert_eq!(c.answer, Answer::Path);
    assert!(matches!(&c.args[..], [PropVal::Str(p)] if p == "pw"));
    let c = plain_call(&Op::ChangePassphrase { path: "/e".into(), old: "a".into(), new: "b".into() }).unwrap();
    assert!(matches!(&c.args[..], [PropVal::Str(a), PropVal::Str(b)] if a == "a" && b == "b"));
    let c = plain_call(&Op::ResizeLuks { path: "/e".into(), size: 4096, passphrase: "pw".into() }).unwrap();
    assert_eq!(c.method, "Resize");
    assert!(matches!(&c.args[..], [PropVal::U64(4096)]));
    assert_eq!(keys(&c.options), vec!["passphrase"]);
    let c = plain_call(&Op::RestoreHeader { path: "/b".into(), file: "/tmp/h".into() }).unwrap();
    assert_eq!(c.iface, "org.freedesktop.UDisks2.Block");
    assert_eq!(c.method, "RestoreEncryptedHeader");
    let c = plain_call(&Op::HeaderBackup { path: "/e".into(), file: "/tmp/h".into() }).unwrap();
    assert_eq!(c.iface, "org.freedesktop.UDisks2.Encrypted");
    let c = plain_call(&Op::ConvertLuks { path: "/e".into(), version: "luks2".into() }).unwrap();
    assert_eq!(c.method, "Convert");
    let c = plain_call(&Op::SmartTest { path: "/d".into(), kind: "short".into(), nvme: false }).unwrap();
    assert_eq!(c.iface, "org.freedesktop.UDisks2.Drive.Ata");
    assert_eq!(c.method, "SmartSelftestStart");
    let c = plain_call(&Op::Sanitize { path: "/n".into(), action: "block-erase".into() }).unwrap();
    assert_eq!(c.iface, "org.freedesktop.UDisks2.NVMe.Controller");
    assert!(matches!(&c.args[..], [PropVal::Str(a)] if a == "block-erase"));
}

#[test]
fn editing_a_partition_sets_type_name_and_flags_in_order() {
    let calls = partition_edit_calls(&"/p".to_string(), &"8300".to_string(), &"root".to_string(), 4);
    let methods: Vec<&str> = calls.iter().map(|c| c.method).collect();
    assert_eq!(methods, vec!["SetType", "SetName", "SetFlags"]);
    assert!(calls.iter().all(|c| c.path == "/p" && c.iface == "org.freedesktop.UDisks2.Partition"));
    assert!(matches!(&calls[0].args[..], [PropVal::Str(t)] if t == "8300"));
    assert!(matches!(&calls[1].args[..], [PropVal::Str(n)] if n == "root"));
    assert!(matches!(&calls[2].args[..], [PropVal::U64(4)]));
}
