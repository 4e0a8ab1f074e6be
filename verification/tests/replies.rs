use disktui::keys::Key;
use disktui::op::{CreateReq, Op};
use disktui::replies::{done_text, sudo_result, theme_check, theme_step, Reply, ThemeStep};
use disktui::session::App;

fn create(fstype: &str) -> Op {
    Op::CreatePartition(CreateReq {
        disk: "/d".into(),
        offset: 0,
        size: 0,
        type_code: "0x83".into(),
        name: String::new(),
        fstype: fstype.into(),
        label: String::new(),
        encrypt: false,
        passphrase: String::new(),
    })
}

#[test]
fn finished_operations_report_what_happened() {
    assert_eq!(done_text(&Op::Mount("/b".into()), &Reply::Text("/run/media/x".into())), "Mounted at /run/media/x");
    assert_eq!(done_text(&Op::Check("/b".into()), &Reply::Flag(true)), "Filesystem is consistent.");
    assert_eq!(done_text(&Op::Check("/b".into()), &Reply::Flag(false)), "Filesystem reported problems.");
    assert_eq!(
        done_text(&Op::Resize { path: "/b".into(), current: 1, new_size: 0, filesystem: true }, &Reply::Nothing),
        "Resized to maximum."
    );
    assert_eq!(
        done_text(&Op::Resize { path: "/b".into(), current: 1, new_size: 5, filesystem: true }, &Reply::Text("5 B".into())),
        "Resized to 5 B."
    );
    assert_eq!(done_text(&create(""), &Reply::Text("/p".into())), "Partition created at /p.");
    assert_eq!(done_text(&create("ext4"), &Reply::Text("/p".into())), "Partition created and formatted at /p.");
    assert_eq!(
        done_text(&Op::SmartTest { path: "/d".into(), kind: "short".into(), nvme: false }, &Reply::Nothing),
        "short self-test started."
    );
    assert_eq!(
        done_text(&Op::LoopSetup { file: "/tmp/a.img".into(), read_only: false }, &Reply::Text("/o".into())),
        "Attached /tmp/a.img."
    );
}

#[test]
fn sudo_results_are_trimmed() {
    assert_eq!(sudo_result(true, "  done\n", "", "exit status: 0"), Ok("done".to_string()));
    assert_eq!(sudo_result(false, "", " mount: busy \n", "exit status: 32"), Err("mount: busy".to_string()));
    assert_eq!(sudo_result(false, "", "  ", "exit status: 1"), Err("sudo exited with exit status: 1".to_string()));
}

#[test]
fn the_theme_list_answers_keys() {
    assert!(matches!(theme_step(0, 3, Key::Esc), ThemeStep::Close));
    assert!(matches!(theme_step(0, 3, Key::Down), ThemeStep::Move(1)));
    assert!(matches!(theme_step(2, 3, Key::Char('j')), ThemeStep::Move(2)));
    assert!(matches!(theme_step(0, 3, Key::Up), ThemeStep::Move(0)));
    assert!(matches!(theme_step(1, 3, Key::Enter), ThemeStep::Apply(1)));
    assert!(matches!(theme_step(1, 3, Key::Char('x')), ThemeStep::Stay));
    assert_eq!(theme_check("omarchy", false, true), Some("Omarchy theme was not found.".to_string()));
    assert_eq!(theme_check("custom", true, false), Some("No ~/.config/disktui/theme.toml yet.".to_string()));
    assert_eq!(theme_check("nord", false, false), None);
}

#[test]
fn a_missing_disk_service_is_reported() {
    let mut s = App::new(0, 0, None, String::new());
    s.service_down("no bus");
    assert_eq!(s.error, "UDisks is not available (no bus). Network shares still work.");
    s.busy = true;
    s.no_service();
    assert_eq!(s.error, "UDisks is not available.");
    assert!(!s.busy);
}
