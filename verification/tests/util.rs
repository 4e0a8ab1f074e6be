use disktui::util::{brief, c_string, kernel_name, with_nul};

#[test]
fn kernel_name_is_the_last_path_part() {
    assert_eq!(kernel_name("/dev/nvme0n1p2"), "nvme0n1p2");
    assert_eq!(kernel_name("sda"), "sda");
    assert_eq!(kernel_name("/dev/"), "");
}

#[test]
fn c_string_stops_at_the_first_nul() {
    assert_eq!(c_string(b"UUID=abc\0junk"), "UUID=abc");
    assert_eq!(c_string(b"plain"), "plain");
    assert_eq!(c_string(b""), "");
    assert_eq!(c_string(b"\0x"), "");
}

#[test]
fn c_string_replaces_invalid_utf8() {
    assert_eq!(c_string(b"a\xffb\0"), "a\u{fffd}b");
}

#[test]
fn with_nul_appends_one_zero_byte() {
    assert_eq!(with_nul("ab"), vec![b'a', b'b', 0]);
    assert_eq!(with_nul(""), vec![0]);
    assert_eq!(c_string(&with_nul("/mnt/x")), "/mnt/x");
}

#[test]
fn brief_keeps_the_first_trimmed_line() {
    assert_eq!(brief("  Error: busy  \nmore detail"), "Error: busy");
    assert_eq!(brief(""), "");
    let long: String = std::iter::repeat('x').take(200).collect();
    assert_eq!(brief(&long).chars().count(), 160);
}
