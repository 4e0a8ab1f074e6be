use disktui::fstab::{
    escape, is_network, missing_helper, network_shares, parse_entry, plan_share, render_script,
    render_script_in_dir, sh_quote, slug, transform, unescape, Change, ShareDraft,
};
use disktui::privilege::{job_script, SudoJob};

const SAMPLE: &str = "\
# Static information about the filesystems.\n\
UUID=9574fe74-248e-45d8-bdbf-269b1ddcfd9f\t/\tbtrfs\trw,relatime,subvol=/@\t0\t0\n\
UUID=0356-B9FA  /boot  vfat  rw,relatime  0  2\n\
/swap/swapfile none swap defaults 0 0\n";

fn draft() -> ShareDraft {
    ShareDraft {
        id: String::new(),
        protocol: "cifs".into(),
        source: "//nas/media".into(),
        mount_point: "/mnt/media".into(),
        guest: false,
        username: "ken".into(),
        password: "s3cret".into(),
        credentials_file: String::new(),
        identity_file: String::new(),
        extra: String::new(),
        netdev: true,
        nofail: true,
        automount: false,
        idle_timeout: String::new(),
        vers: "3.1.1".into(),
        uid: 1000,
        gid: 1000,
    }
}

#[test]
fn upsert_preserves_unrelated_lines() {
    let plan = plan_share(&draft()).unwrap();
    assert!(!plan.entry_line.contains("s3cret"));
    assert!(plan.entry_line.contains("credentials=/etc/samba/credentials-mnt-media"));
    let next = transform(
        SAMPLE,
        &Change::Upsert {
            id: plan.id.clone(),
            source: plan.source.clone(),
            target: plan.target.clone(),
            line: plan.entry_line.clone(),
        },
    );
    assert!(next.contains("UUID=9574fe74-248e-45d8-bdbf-269b1ddcfd9f\t/\tbtrfs\trw,relatime,subvol=/@\t0\t0\n"));
    assert!(next.contains("UUID=0356-B9FA  /boot  vfat  rw,relatime  0  2\n"));
    assert!(next.contains("# disktui: mnt-media\n"));
    assert!(next.contains(&plan.entry_line));
    let again = transform(
        &next,
        &Change::Upsert {
            id: "mnt-media".into(),
            source: "//nas/media".into(),
            target: "/mnt/media".into(),
            line: "//nas/media /mnt/photos cifs credentials=/etc/samba/credentials-mnt-media,_netdev 0 0".into(),
        },
    );
    assert_eq!(again.matches("# disktui:").count(), 1);
    assert!(again.contains("/mnt/photos"));
    assert!(!again.contains("/mnt/media cifs"));
    assert!(again.contains("subvol=/@"));
}

#[test]
fn delete_removes_only_the_marked_entry() {
    let plan = plan_share(&draft()).unwrap();
    let with = transform(
        SAMPLE,
        &Change::Upsert {
            id: plan.id.clone(),
            source: plan.source,
            target: plan.target.clone(),
            line: plan.entry_line,
        },
    );
    let cleared = transform(
        &with,
        &Change::Delete {
            id: "mnt-media".into(),
            source: "//nas/media".into(),
            target: "/mnt/media".into(),
        },
    );
    assert_eq!(cleared, SAMPLE);
}

#[test]
fn escapes_spaces_in_the_mount_point() {
    let mut d = draft();
    d.mount_point = "/mnt/my media".into();
    d.guest = true;
    d.password.clear();
    let plan = plan_share(&d).unwrap();
    assert!(plan.entry_line.contains("/mnt/my\\040media"));
    let fields = parse_entry(&plan.entry_line).unwrap();
    assert_eq!(fields.target, "/mnt/my media");
    assert!(fields.options.contains("guest"));
    assert!(!fields.options.contains("credentials="));
}

#[test]
fn nfs_and_existing_manual_entry() {
    let mut d = draft();
    d.protocol = "nfs".into();
    d.source = "nas:/export".into();
    d.mount_point = "/mnt/export".into();
    let plan = plan_share(&d).unwrap();
    assert!(plan.credentials.is_none());
    assert!(plan.entry_line.contains("nfs"));
    let manual = format!("{SAMPLE}nas:/export /mnt/export nfs _netdev 0 0\n");
    let next = transform(
        &manual,
        &Change::Upsert {
            id: plan.id,
            source: plan.source,
            target: plan.target,
            line: plan.entry_line,
        },
    );
    assert_eq!(next.matches("nas:/export").count(), 1);
    assert!(next.contains("# disktui:"));
    let shares = network_shares(&next);
    assert_eq!(shares.len(), 1);
    assert_eq!(shares[0].fstype, "nfs");
}

#[test]
fn password_never_lands_in_the_fstab_line() {
    let plan = plan_share(&draft()).unwrap();
    let creds = plan.credentials.unwrap();
    assert!(creds.contents.contains("password=s3cret"));
    assert!(!plan.entry_line.contains("s3cret"));
}

#[test]
fn escape_and_unescape_round_trip() {
    assert_eq!(escape("/mnt/my media\tx\\y"), "/mnt/my\\040media\\011x\\\\y");
    assert_eq!(unescape("/mnt/my\\040media\\011x\\134y"), "/mnt/my media\tx\\y");
    assert_eq!(unescape("a\\9zz"), "a\\9zz");
}

#[test]
fn parse_entry_reads_six_fields() {
    let f = parse_entry("//nas/a /mnt/a cifs guest").unwrap();
    assert_eq!(f.source, "//nas/a");
    assert_eq!(f.fstype, "cifs");
    assert_eq!(f.dump, "0");
    assert_eq!(f.pass, "0");
    assert!(parse_entry("# comment").is_none());
    assert!(parse_entry("   ").is_none());
    assert!(parse_entry("only two").is_none());
    assert!(is_network(&f));
}

#[test]
fn slug_of_mount_points() {
    assert_eq!(slug("/mnt/My Media"), "mnt-my-media");
    assert_eq!(slug("/"), "share");
    assert_eq!(slug("--"), "share");
}

#[test]
fn plan_share_refuses_bad_input() {
    let mut d = draft();
    d.mount_point = "mnt/media".into();
    assert_eq!(plan_share(&d).unwrap_err(), "Mount point must be an absolute path.");
    let mut d = draft();
    d.source = "  ".into();
    assert!(plan_share(&d).is_err());
    let mut d = draft();
    d.extra = "a\nb".into();
    assert_eq!(plan_share(&d).unwrap_err(), "Fields cannot contain a newline.");
}

#[test]
fn missing_helper_names_the_package() {
    assert_eq!(missing_helper("ext4", false), None);
    assert!(missing_helper("cifs", false).is_some());
    assert_eq!(missing_helper("cifs", true), None);
    assert!(missing_helper("nfs", false).unwrap().contains("nfs"));
}

#[test]
fn sh_quote_wraps_single_quotes() {
    assert_eq!(sh_quote("a b"), "'a b'");
    assert_eq!(sh_quote("it's"), "'it'\\''s'");
}

#[test]
fn root_script_backs_up_first_and_keeps_the_password_out_of_fstab() {
    let plan = plan_share(&draft()).unwrap();
    let creds = plan.credentials.clone().unwrap();
    let script = render_script("/etc/fstab.bak.1", "contents\n", Some(&creds), Some("/mnt/media"));
    assert!(script.starts_with("set -eu\ncp -a /etc/fstab '/etc/fstab.bak.1'\n"));
    assert!(script.contains("install -d -m 755 '/etc/samba'\n"));
    assert!(script.contains("chmod 600 '/etc/samba/credentials-mnt-media'\n"));
    assert!(script.ends_with("mount -- '/mnt/media'\n"));
    let in_dir = render_script_in_dir("/b", "x", None, None, "/d");
    assert_eq!(in_dir, "set -eu\ncp -a /etc/fstab '/b'\ncat > /etc/fstab << 'DISKTUI_FSTAB'\nx\nDISKTUI_FSTAB\nchmod 644 /etc/fstab\n");
}

#[test]
fn sudo_jobs_become_scripts() {
    assert_eq!(job_script(&SudoJob::Mount("/mnt/a b".into()), "9"), "set -eu\nmount -- '/mnt/a b'\n");
    assert_eq!(job_script(&SudoJob::Umount("/mnt/x".into()), "9"), "set -eu\numount -- '/mnt/x'\n");
    let apply = job_script(&SudoJob::ApplyFstab { contents: "x\n".into(), creds: None, mount: None }, "42");
    assert!(apply.starts_with("set -eu\ncp -a /etc/fstab '/etc/fstab.bak.42'\n"));
}

#[test]
fn the_same_upsert_twice_changes_nothing_more() {
    let plan = plan_share(&draft()).unwrap();
    let change = Change::Upsert {
        id: plan.id.clone(),
        source: plan.source.clone(),
        target: plan.target.clone(),
        line: plan.entry_line.clone(),
    };
    let once = transform(SAMPLE, &change);
    let twice = transform(&once, &change);
    assert_eq!(once, twice);
    assert_eq!(twice.matches("# disktui:").count(), 1);
}

#[test]
fn a_planned_line_reads_back_as_the_share() {
    let mut d = draft();
    d.guest = true;
    d.password.clear();
    let plan = plan_share(&d).unwrap();
    let fields = parse_entry(&plan.entry_line).unwrap();
    assert_eq!(fields.source, "//nas/media");
    assert_eq!(fields.target, "/mnt/media");
    assert_eq!(fields.fstype, "cifs");
    assert_eq!(fields.dump, "0");
    assert_eq!(fields.pass, "0");
    let shares = network_shares(&transform(
        SAMPLE,
        &Change::Upsert { id: plan.id, source: plan.source, target: plan.target, line: plan.entry_line },
    ));
    assert_eq!(shares.len(), 1);
    assert_eq!(shares[0].id, "mnt-media");
    assert_eq!(shares[0].target, "/mnt/media");
}

#[test]
fn unescape_undoes_escape() {
    for text in ["plain", "/mnt/my media", "tab\there", "back\\slash", "new\nline", ""] {
        assert_eq!(unescape(&escape(text)), text);
    }
}

#[test]
fn a_delete_that_finds_nothing_keeps_the_file() {
    let change = Change::Delete { id: "gone".into(), source: "//x/y".into(), target: "/mnt/y".into() };
    assert_eq!(transform("a\n\n", &change), "a\n\n");
    assert_eq!(transform("a", &change), "a");
    assert_eq!(transform(SAMPLE, &change), SAMPLE);
}

#[test]
fn a_protocol_typed_with_spaces_still_gets_its_credentials() {
    let mut d = draft();
    d.protocol = " cifs ".into();
    let plan = plan_share(&d).unwrap();
    let creds = plan.credentials.unwrap();
    let fields = parse_entry(&plan.entry_line).unwrap();
    assert_eq!(fields.fstype, "cifs");
    let want = format!("credentials={}", creds.path);
    assert!(fields.options.split(',').any(|o| o == want));
}

#[test]
fn upserting_twice_is_stable_with_trailing_blank_lines() {
    let entry = "//nas/media /mnt/media cifs guest 0 0";
    let change = Change::Upsert {
        id: "mnt-media".into(),
        source: "//nas/media".into(),
        target: "/mnt/media".into(),
        line: entry.into(),
    };
    let three_blank = format!("{entry}\n\n\n");
    for original in ["", "x", "x\n", "x\n\n", "\n", three_blank.as_str()] {
        let once = transform(original, &change);
        assert_eq!(transform(&once, &change), once);
    }
    assert_eq!(
        transform(&three_blank, &change),
        format!("# disktui: mnt-media\n{entry}\n\n\n")
    );
}

#[test]
fn trailing_blank_lines_are_copied_through() {
    let entry = "//nas/media /mnt/media cifs guest 0 0";
    let upsert = Change::Upsert {
        id: "mnt-media".into(),
        source: "//nas/media".into(),
        target: "/mnt/media".into(),
        line: entry.into(),
    };
    let delete = Change::Delete {
        id: "mnt-media".into(),
        source: "//nas/media".into(),
        target: "/mnt/media".into(),
    };
    assert_eq!(transform("x\n\n", &upsert), format!("x\n\n# disktui: mnt-media\n{entry}\n"));
    assert_eq!(transform(&format!("a\n\n{entry}"), &delete), "a\n\n");
    assert_eq!(transform(&format!("{entry}\n\n\n"), &delete), "\n\n");
    assert_eq!(transform(&format!("a\n{entry}"), &delete), "a");
    for original in ["", "x\n", "x\n\n", "\n\n"] {
        assert_eq!(transform(&transform(original, &upsert), &delete), original);
    }
}
