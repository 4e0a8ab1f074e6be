use disktui::flow::Facts;
use disktui::keys::Key;
use disktui::model::{Block, Model, MIB};
use disktui::op::Op;
use disktui::privilege::SudoJob;
use disktui::session::{Dialog, Effect, Focus, Msg, App};

fn facts() -> Facts {
    Facts {
        size: None,
        free_space: String::new(),
        helper_installed: true,
    }
}

fn volume(path: &str, device: &str, mount: Option<&str>) -> Block {
    Block {
        path: path.into(),
        device: device.into(),
        preferred: device.into(),
        id_usage: "filesystem".into(),
        id_type: "ext4".into(),
        id_label: String::new(),
        id_uuid: String::new(),
        size: 100 * MIB,
        read_only: false,
        hint_system: false,
        hint_ignore: false,
        drive: "/".into(),
        crypto_backing: "/".into(),
        mdraid: "/".into(),
        mdraid_member: "/".into(),
        symlinks: Vec::new(),
        partition: None,
        table: None,
        filesystem: true,
        mount_points: mount.map(|m| vec![m.to_string()]).unwrap_or_default(),
        swap: false,
        swap_active: false,
        encrypted: false,
        cleartext: "/".into(),
        hint_encryption: String::new(),
        loopback: false,
        backing_file: String::new(),
        loop_autoclear: false,
        config: Vec::new(),
    }
}

fn session_with(block: Block) -> App {
    let mut s = App::new(1000, 1000, None, String::new());
    let mut model = Model::default();
    model.blocks.push(block);
    s.on_msg(Msg::Model(model));
    s
}

fn press(s: &mut App, key: Key) {
    s.on_key(key, false, &facts());
}

fn type_text(s: &mut App, text: &str) {
    for c in text.chars() {
        press(s, Key::Char(c));
    }
}

#[test]
fn a_new_session_reads_the_fstab_shares() {
    let fstab = "//nas/media /mnt/media cifs guest,_netdev 0 0\n/dev/sda1 / ext4 defaults 0 1\n";
    let s = App::new(1000, 100, None, fstab.to_string());
    assert_eq!(s.shares.len(), 1);
    assert_eq!(s.shares[0].target, "/mnt/media");
    assert_eq!(s.info, "Reading disks…");
    assert_eq!(s.rows.len(), 1);
    assert_eq!(s.focus, Focus::Devices);
    assert!(matches!(s.dialog, Dialog::Closed));
}

#[test]
fn the_first_model_clears_the_reading_note() {
    let s = session_with(volume("/b", "/dev/sdb", None));
    assert_eq!(s.info, "");
    assert_eq!(s.rows.len(), 2);
    assert_eq!(s.selected, 0);
}

#[test]
fn unmount_shortcut_queues_the_call() {
    let mut s = session_with(volume("/b", "/dev/sdb", Some("/mnt/data")));
    press(&mut s, Key::Char('u'));
    assert!(s.busy);
    match s.take_effect() {
        Effect::Call(Op::Unmount { path, force }) => {
            assert_eq!(path, "/b");
            assert!(!force);
        }
        _ => panic!("expected an unmount call"),
    }
    assert!(matches!(s.take_effect(), Effect::Nothing));
    press(&mut s, Key::Char('m'));
    assert_eq!(s.error, "Already mounted");
    press(&mut s, Key::Char('u'));
    assert_eq!(s.error, "Wait for the current operation to finish.");
    assert!(matches!(s.take_effect(), Effect::Nothing));
}

#[test]
fn format_of_a_mounted_volume_is_refused_with_the_reason() {
    let mut s = session_with(volume("/b", "/dev/sdb", Some("/mnt/data")));
    press(&mut s, Key::Char('f'));
    assert!(matches!(s.dialog, Dialog::Closed));
    assert!(s.error.contains("Unmount"));
    assert!(matches!(s.take_effect(), Effect::Nothing));
}

#[test]
fn format_waits_for_the_typed_kernel_name() {
    let mut s = session_with(volume("/b", "/dev/sdb", None));
    press(&mut s, Key::Char('f'));
    assert!(matches!(s.dialog, Dialog::Form(_)));
    press(&mut s, Key::Enter);
    match &s.dialog {
        Dialog::Confirm(c) => {
            assert_eq!(c.kernel, "sdb");
            assert!(!c.system);
        }
        _ => panic!("expected a confirm dialog"),
    }
    type_text(&mut s, "sda");
    press(&mut s, Key::Enter);
    assert_eq!(s.error, "Type sdb to confirm.");
    assert!(matches!(s.dialog, Dialog::Confirm(_)));
    assert!(matches!(s.take_effect(), Effect::Nothing));
    press(&mut s, Key::Backspace);
    type_text(&mut s, "b");
    press(&mut s, Key::Enter);
    assert!(matches!(s.dialog, Dialog::Closed));
    match s.take_effect() {
        Effect::Call(Op::Format(req)) => assert_eq!(req.path, "/b"),
        _ => panic!("expected a format call"),
    }
}

#[test]
fn enter_on_a_mounted_volume_unmounts_it() {
    let mut s = session_with(volume("/b", "/dev/sdb", Some("/mnt/data")));
    press(&mut s, Key::Enter);
    match s.take_effect() {
        Effect::Call(Op::Unmount { path, .. }) => assert_eq!(path, "/b"),
        _ => panic!("expected an unmount call"),
    }
    s.on_msg(Msg::Busy(false));
    press(&mut s, Key::Tab);
    assert_eq!(s.focus, Focus::Actions);
}

#[test]
fn a_system_volume_needs_the_system_word_too() {
    let mut vol = volume("/b", "/dev/sdb", None);
    vol.hint_system = true;
    let mut s = session_with(vol);
    press(&mut s, Key::Char('f'));
    press(&mut s, Key::Enter);
    match &s.dialog {
        Dialog::Confirm(c) => assert!(c.system),
        _ => panic!("expected a confirm dialog"),
    }
    type_text(&mut s, "sdb");
    press(&mut s, Key::Enter);
    assert_eq!(s.error, "Type sdb and then system.");
    assert!(matches!(s.take_effect(), Effect::Nothing));
    press(&mut s, Key::Tab);
    type_text(&mut s, "system");
    press(&mut s, Key::Enter);
    assert!(matches!(s.take_effect(), Effect::Call(Op::Format(_))));
}

#[test]
fn escape_closes_a_dialog_and_q_quits() {
    let mut s = session_with(volume("/b", "/dev/sdb", None));
    press(&mut s, Key::Char('f'));
    press(&mut s, Key::Esc);
    assert!(matches!(s.dialog, Dialog::Closed));
    press(&mut s, Key::Char('?'));
    assert!(s.help);
    press(&mut s, Key::Char('q'));
    assert!(!s.help);
    assert!(!s.quit);
    press(&mut s, Key::Char('q'));
    assert!(s.quit);
}

#[test]
fn control_c_quits_from_anywhere() {
    let mut s = session_with(volume("/b", "/dev/sdb", None));
    press(&mut s, Key::Char('f'));
    s.on_key(Key::Char('c'), true, &facts());
    assert!(s.quit);
}

#[test]
fn finished_root_jobs_report_back() {
    let mut s = App::new(0, 0, None, String::new());
    s.job_done(&SudoJob::Mount("/mnt/a".into()), Ok(String::new()));
    assert_eq!(s.info, "Mounted.");
    s.job_done(&SudoJob::Umount("/mnt/a".into()), Err("busy".into()));
    assert_eq!(s.error, "busy");
    s.on_msg(Msg::Info("done".into()));
    assert_eq!(s.error, "");
    assert_eq!(s.info, "done");
}

#[test]
fn an_attached_image_is_set_up_once_the_model_arrives() {
    let mut s = App::new(1000, 1000, Some("/tmp/disk.img".into()), String::new());
    assert!(matches!(s.take_effect(), Effect::Nothing));
    s.on_msg(Msg::Model(Model::default()));
    match s.take_effect() {
        Effect::Call(Op::LoopSetup { file, read_only }) => {
            assert_eq!(file, "/tmp/disk.img");
            assert!(!read_only);
        }
        _ => panic!("expected a loop setup call"),
    }
    assert!(s.attach.is_none());
}
