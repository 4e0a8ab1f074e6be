//! The details panel: the title and the key/value lines for the selected
//! row. Byte counts are left as numbers for the front end to print.

use vstd::prelude::*;
use vstd::string::*;

use crate::model::{
    device_path_spec, fstab_field, fstab_field_spec, fstab_filter, partition_type_label,
    partition_type_label_spec, Ata, Block, ConfigItem, Drive, Model, Raid, RowKind, RowKindV,
};
use crate::op::string_views;
use crate::select::{block_at, disk_pick, drive_at, is_system_block_spec, is_system_tree_spec, raid_at};
use crate::text::{
    char_from_ascii, chars_of, dec, dec_chars, dec_i32, dec_i32_chars, join, join_chars, push_all,
    push_str, same_str, string_from, views, words, words_chars,
};
use crate::util::{after_last_slash, kernel_name};

verus! {

// ---------------------------------------------------------------------------
// Lines
// ---------------------------------------------------------------------------

/// A value of the details panel.
pub enum Shown {
    Text(String),
    /// A byte count; the front end prints it in readable units.
    Size(u64),
    /// A RAID resync: the action and the fraction done, as the bits of the
    /// `f64` that UDisks reports.
    Sync { action: String, done_bits: u64 },
}

pub enum ShownV {
    Text(Seq<char>),
    Size(u64),
    Sync { action: Seq<char>, done_bits: u64 },
}

impl View for Shown {
    type V = ShownV;

    open spec fn view(&self) -> ShownV {
        match self {
            Shown::Text(t) => ShownV::Text(t@),
            Shown::Size(n) => ShownV::Size(*n),
            Shown::Sync { action, done_bits } => ShownV::Sync { action: action@, done_bits: *done_bits },
        }
    }
}

pub struct Detail {
    pub key: String,
    pub value: Shown,
}

pub type DetailV = (Seq<char>, ShownV);

pub open spec fn detail_views(s: Seq<Detail>) -> Seq<DetailV> {
    s.map_values(|d: Detail| (d.key@, d.value@))
}

/// A text line; a blank value shows no line.
pub open spec fn text_line(key: Seq<char>, value: Seq<char>) -> Seq<DetailV> {
    if value.len() == 0 {
        Seq::empty()
    } else {
        seq![(key, ShownV::Text(value))]
    }
}

pub open spec fn size_line(key: Seq<char>, n: u64) -> Seq<DetailV> {
    seq![(key, ShownV::Size(n))]
}

pub open spec fn when(c: bool, s: Seq<DetailV>) -> Seq<DetailV> {
    if c {
        s
    } else {
        Seq::empty()
    }
}

fn push_detail(out: &mut Vec<Detail>, key: &str, value: Shown)
    ensures
        detail_views(final(out)@) == detail_views(old(out)@).push((key@, value@)),
{
    let ghost pre = out@;
    let d = Detail { key: String::from_str(key), value };
    out.push(d);
    assert(out@ == pre.push(d));
    assert(detail_views(out@) =~= detail_views(pre).push((key@, value@)));
}

fn push_text(out: &mut Vec<Detail>, key: &str, value: String)
    ensures
        detail_views(final(out)@) == detail_views(old(out)@) + text_line(key@, value@),
{
    let ghost pre = detail_views(out@);
    if !value.as_str().is_empty() {
        let ghost v = value@;
        push_detail(out, key, Shown::Text(value));
        assert(detail_views(out@) =~= pre + text_line(key@, v));
    } else {
        assert(detail_views(out@) =~= pre + text_line(key@, value@));
    }
}

fn push_size(out: &mut Vec<Detail>, key: &str, n: u64)
    ensures
        detail_views(final(out)@) == detail_views(old(out)@) + size_line(key@, n),
{
    let ghost pre = detail_views(out@);
    push_detail(out, key, Shown::Size(n));
    assert(detail_views(out@) =~= pre + size_line(key@, n));
}

fn lit(s: &str) -> (r: String)
    ensures
        r@ == s@,
{
    String::from_str(s)
}

// ---------------------------------------------------------------------------
// Drives
// ---------------------------------------------------------------------------

pub open spec fn smart_state(a: Ata) -> Seq<char> {
    if !a.smart_supported {
        "not supported"@
    } else if a.smart_failing {
        "FAILING"@
    } else if a.smart_enabled {
        "enabled"@
    } else {
        "disabled"@
    }
}

/// The optional ATA features the drive supports.
pub open spec fn features(a: Ata) -> Seq<Seq<char>> {
    (if a.apm_supported {
        seq!["APM"@]
    } else {
        Seq::empty()
    }) + (if a.write_cache_supported {
        seq!["write cache"@]
    } else {
        Seq::empty()
    }) + (if a.lookahead_supported {
        seq!["look-ahead"@]
    } else {
        Seq::empty()
    })
}

pub open spec fn rotation_line(rpm: i32) -> Seq<DetailV> {
    if rpm > 0 {
        text_line("Rotation"@, dec_i32(rpm) + " rpm"@)
    } else if rpm == 0 {
        text_line("Rotation"@, "solid state"@)
    } else {
        Seq::empty()
    }
}

pub open spec fn disk_lines(m: Model, d: Drive) -> Seq<DetailV> {
    match disk_pick(m.blocks@, d.path@) {
        Some(disk) => text_line("Device"@, device_path_spec(disk)) + match disk.table {
            Some(t) => text_line("Table"@, t.kind@),
            None => Seq::empty(),
        },
        None => Seq::empty(),
    }
}

pub open spec fn ata_lines(a: Option<Ata>) -> Seq<DetailV> {
    match a {
        Some(a) => when(a.security_frozen, text_line("Security"@, "frozen"@)) + when(
            a.secure_erase_enhanced_minutes > 0,
            text_line("Enhanced erase"@, dec_i32(a.secure_erase_enhanced_minutes) + " min"@),
        ) + text_line("Features"@, join(features(a), ", "@)),
        None => Seq::empty(),
    }
}

pub open spec fn drive_lines(m: Model, d: Drive) -> Seq<DetailV> {
    size_line("Size"@, d.size) + text_line("Serial"@, d.serial@) + text_line("Revision"@, d.revision@)
        + text_line("Bus"@, d.connection@) + text_line("Media"@, d.media@) + rotation_line(
        d.rotation,
    ) + disk_lines(m, d) + match d.ata {
        Some(a) => text_line("SMART"@, smart_state(a)),
        None => Seq::empty(),
    } + when(d.removable, text_line("Removable"@, "yes"@)) + when(
        d.optical,
        text_line("Optical"@, "yes"@),
    ) + when(d.nvme, text_line("NVMe"@, "controller"@)) + ata_lines(d.ata) + when(
        disk_pick(m.blocks@, d.path@) matches Some(disk) && is_system_tree_spec(m.blocks@, disk.path@),
        text_line("System"@, "yes"@),
    )
}

fn push_drive_head(out: &mut Vec<Detail>, model: &Model, drive: &Drive)
    ensures
        detail_views(final(out)@) == detail_views(old(out)@) + size_line("Size"@, drive.size)
            + text_line("Serial"@, drive.serial@) + text_line("Revision"@, drive.revision@)
            + text_line("Bus"@, drive.connection@) + text_line("Media"@, drive.media@)
            + rotation_line(drive.rotation) + disk_lines(*model, *drive),
{
    let ghost p0 = detail_views(out@);
    push_size(out, "Size", drive.size);
    push_text(out, "Serial", drive.serial.clone());
    push_text(out, "Revision", drive.revision.clone());
    push_text(out, "Bus", drive.connection.clone());
    push_text(out, "Media", drive.media.clone());
    let ghost p1 = detail_views(out@);
    if drive.rotation > 0 {
        let mut t = dec_i32_chars(drive.rotation);
        push_str(&mut t, " rpm");
        push_text(out, "Rotation", string_from(t.as_slice()));
    } else if drive.rotation == 0 {
        push_text(out, "Rotation", lit("solid state"));
    }
    assert(detail_views(out@) =~= p1 + rotation_line(drive.rotation));
    let ghost p2 = detail_views(out@);
    match model.disk_for_drive(drive.path.as_str()) {
        Some(disk) => {
            push_text(out, "Device", String::from_str(disk.device_path()));
            let ghost p3 = detail_views(out@);
            match &disk.table {
                Some(t) => push_text(out, "Table", t.kind.clone()),
                None => {},
            }
            assert(detail_views(out@) =~= p3 + match disk.table {
                Some(t) => text_line("Table"@, t.kind@),
                None => Seq::empty(),
            });
        },
        None => {},
    }
    assert(detail_views(out@) =~= p2 + disk_lines(*model, *drive));
}

fn features_of(a: &Ata) -> (r: Vec<Vec<char>>)
    ensures
        views(r@) == features(*a),
{
    let mut r: Vec<Vec<char>> = Vec::new();
    if a.apm_supported {
        r.push(chars_of("APM"));
    }
    if a.write_cache_supported {
        r.push(chars_of("write cache"));
    }
    if a.lookahead_supported {
        r.push(chars_of("look-ahead"));
    }
    assert(views(r@) =~= features(*a));
    r
}

fn push_ata_tail(out: &mut Vec<Detail>, ata: &Option<Ata>)
    ensures
        detail_views(final(out)@) == detail_views(old(out)@) + ata_lines(*ata),
{
    let ghost p0 = detail_views(out@);
    match ata {
        Some(a) => {
            if a.security_frozen {
                push_text(out, "Security", lit("frozen"));
            }
            let ghost p1 = detail_views(out@);
            assert(p1 =~= p0 + when(a.security_frozen, text_line("Security"@, "frozen"@)));
            if a.secure_erase_enhanced_minutes > 0 {
                let mut t = dec_i32_chars(a.secure_erase_enhanced_minutes);
                push_str(&mut t, " min");
                push_text(out, "Enhanced erase", string_from(t.as_slice()));
            }
            let ghost p2 = detail_views(out@);
            assert(p2 =~= p1 + when(
                a.secure_erase_enhanced_minutes > 0,
                text_line("Enhanced erase"@, dec_i32(a.secure_erase_enhanced_minutes) + " min"@),
            ));
            let fs = features_of(a);
            let mut sep: Vec<char> = Vec::new();
            push_str(&mut sep, ", ");
            let joined = join_chars(&fs, sep.as_slice());
            push_text(out, "Features", string_from(joined.as_slice()));
            assert(detail_views(out@) =~= p0 + ata_lines(*ata));
        },
        None => {
            assert(detail_views(out@) =~= p0 + ata_lines(*ata));
        },
    }
}

pub fn drive_details(model: &Model, drive: &Drive) -> (r: Vec<Detail>)
    ensures
        detail_views(r@) == drive_lines(*model, *drive),
{
    let mut out: Vec<Detail> = Vec::new();
    push_drive_head(&mut out, model, drive);
    let ghost p0 = detail_views(out@);
    match &drive.ata {
        Some(a) => {
            let s = if !a.smart_supported {
                lit("not supported")
            } else if a.smart_failing {
                lit("FAILING")
            } else if a.smart_enabled {
                lit("enabled")
            } else {
                lit("disabled")
            };
            push_text(&mut out, "SMART", s);
        },
        None => {},
    }
    let ghost p1 = detail_views(out@);
    assert(p1 =~= p0 + match drive.ata {
        Some(a) => text_line("SMART"@, smart_state(a)),
        None => Seq::empty(),
    });
    if drive.removable {
        push_text(&mut out, "Removable", lit("yes"));
    }
    let ghost p2 = detail_views(out@);
    assert(p2 =~= p1 + when(drive.removable, text_line("Removable"@, "yes"@)));
    if drive.optical {
        push_text(&mut out, "Optical", lit("yes"));
    }
    let ghost p3 = detail_views(out@);
    assert(p3 =~= p2 + when(drive.optical, text_line("Optical"@, "yes"@)));
    if drive.nvme {
        push_text(&mut out, "NVMe", lit("controller"));
    }
    let ghost p4 = detail_views(out@);
    assert(p4 =~= p3 + when(drive.nvme, text_line("NVMe"@, "controller"@)));
    push_ata_tail(&mut out, &drive.ata);
    let ghost p5 = detail_views(out@);
    let system = match model.disk_for_drive(drive.path.as_str()) {
        Some(d) => model.is_system_tree(d.path.as_str()),
        None => false,
    };
    if system {
        push_text(&mut out, "System", lit("yes"));
    }
    assert(detail_views(out@) =~= p5 + when(
        disk_pick(model.blocks@, drive.path@) matches Some(disk) && is_system_tree_spec(
            model.blocks@,
            disk.path@,
        ),
        text_line("System"@, "yes"@),
    ));
    assert(detail_views(out@) =~= drive_lines(*model, *drive));
    out
}

// ---------------------------------------------------------------------------
// Volumes
// ---------------------------------------------------------------------------

/// Lower-case hexadecimal digits, as `{:x}` prints them.
pub open spec fn hex(n: nat) -> Seq<char>
    decreases n,
{
    if n < 16 {
        seq![hex_digit(n)]
    } else {
        hex(n / 16).push(hex_digit(n % 16))
    }
}

pub open spec fn hex_digit(d: nat) -> char {
    if d < 10 {
        ((d + 48) as u32) as char
    } else {
        ((d + 87) as u32) as char
    }
}

fn hex_chars(n: u64) -> (v: Vec<char>)
    ensures
        v@ == hex(n as nat),
    decreases n,
{
    let d = n % 16;
    let c = if d < 10 {
        char_from_ascii((d + 48) as u32)
    } else {
        char_from_ascii((d + 87) as u32)
    };
    if n < 16 {
        let mut v: Vec<char> = Vec::new();
        v.push(c);
        v
    } else {
        let mut v = hex_chars(n / 16);
        v.push(c);
        v
    }
}

pub open spec fn partition_lines(b: Block) -> Seq<DetailV> {
    match b.partition {
        Some(p) => text_line(
            "Partition"@,
            dec(p.number as nat) + "  "@ + partition_type_label_spec(p.type_code@),
        ) + text_line("Part name"@, p.name@) + text_line("Part UUID"@, p.uuid@) + text_line(
            "Flags"@,
            "0x"@ + hex(p.flags as nat),
        ) + when(p.container, text_line("Layout"@, "extended container"@)) + when(
            p.contained,
            text_line("Layout"@, "logical partition"@),
        ),
        None => Seq::empty(),
    }
}

pub open spec fn fstab_lines(b: Block) -> Seq<DetailV> {
    let items = fstab_filter(b.config@);
    if items.len() > 0 {
        text_line("fstab"@, fstab_field_spec(items[0], "dir"@)) + text_line(
            "Options"@,
            fstab_field_spec(items[0], "opts"@),
        )
    } else {
        Seq::empty()
    }
}

/// Encryption, mounts, swap, loop and RAID membership.
pub open spec fn state_lines(b: Block) -> Seq<DetailV> {
    state_head(b) + state_tail(b)
}

pub open spec fn volume_lines(b: Block) -> Seq<DetailV> {
    text_line("Device"@, device_path_spec(b)) + size_line("Size"@, b.size) + text_line(
        "Usage"@,
        b.id_usage@,
    ) + text_line("Type"@, b.id_type@) + text_line("Label"@, b.id_label@) + text_line(
        "UUID"@,
        b.id_uuid@,
    ) + partition_lines(b) + state_lines(b) + fstab_lines(b) + when(
        is_system_block_spec(b),
        text_line("System"@, "yes"@),
    )
}

fn push_partition(out: &mut Vec<Detail>, b: &Block)
    ensures
        detail_views(final(out)@) == detail_views(old(out)@) + partition_lines(*b),
{
    let ghost p0 = detail_views(out@);
    match &b.partition {
        Some(p) => {
            let mut t = dec_chars(p.number as u64);
            push_str(&mut t, "  ");
            let l = partition_type_label(p.type_code.as_str());
            push_str(&mut t, l.as_str());
            push_text(out, "Partition", string_from(t.as_slice()));
            push_text(out, "Part name", p.name.clone());
            push_text(out, "Part UUID", p.uuid.clone());
            let mut f = chars_of("0x");
            let h = hex_chars(p.flags);
            push_all(&mut f, h.as_slice());
            push_text(out, "Flags", string_from(f.as_slice()));
            let ghost p1 = detail_views(out@);
            if p.container {
                push_text(out, "Layout", lit("extended container"));
            }
            let ghost p2 = detail_views(out@);
            assert(p2 =~= p1 + when(p.container, text_line("Layout"@, "extended container"@)));
            if p.contained {
                push_text(out, "Layout", lit("logical partition"));
            }
            assert(detail_views(out@) =~= p2 + when(
                p.contained,
                text_line("Layout"@, "logical partition"@),
            ));
            assert(detail_views(out@) =~= p0 + partition_lines(*b));
        },
        None => {
            assert(detail_views(out@) =~= p0 + partition_lines(*b));
        },
    }
}

fn joined(items: &Vec<String>, sep: &str) -> (r: String)
    ensures
        r@ == join(string_views(items@), sep@),
{
    let mut ls: Vec<Vec<char>> = Vec::new();
    let mut i: usize = 0;
    while i < items.len()
        invariant
            i <= items@.len(),
            views(ls@) == string_views(items@.subrange(0, i as int)),
        decreases items@.len() - i,
    {
        let ghost pre = ls@;
        let c = chars_of(items[i].as_str());
        ls.push(c);
        assert(views(ls@) =~= views(pre).push(c@));
        assert(string_views(items@.subrange(0, i + 1)) =~= string_views(
            items@.subrange(0, i as int),
        ).push(items@[i as int]@));
        i = i + 1;
    }
    assert(items@.subrange(0, items@.len() as int) =~= items@);
    let s = chars_of(sep);
    let j = join_chars(&ls, s.as_slice());
    string_from(j.as_slice())
}

pub open spec fn state_head(b: Block) -> Seq<DetailV> {
    when(
        b.encrypted,
        text_line(
            "Encryption"@,
            if b.hint_encryption@.len() == 0 {
                "LUKS"@
            } else {
                b.hint_encryption@
            },
        ),
    ) + when(
        b.mount_points@.len() > 0,
        text_line("Mounted"@, join(string_views(b.mount_points@), ", "@)),
    )
}

pub open spec fn state_tail(b: Block) -> Seq<DetailV> {
    when(
        b.swap,
        text_line(
            "Swap"@,
            if b.swap_active {
                "active"@
            } else {
                "inactive"@
            },
        ),
    ) + when(
        b.loopback,
        text_line("Backing"@, b.backing_file@) + text_line(
            "Autoclear"@,
            if b.loop_autoclear {
                "yes"@
            } else {
                "no"@
            },
        ),
    ) + when(
        b.mdraid_member@ != "/"@ && b.mdraid_member@.len() > 0,
        text_line("RAID member"@, "yes"@),
    )
}

fn push_state_head(out: &mut Vec<Detail>, b: &Block)
    ensures
        detail_views(final(out)@) == detail_views(old(out)@) + state_head(*b),
{
    let ghost p0 = detail_views(out@);
    if b.encrypted {
        let e = if b.hint_encryption.as_str().is_empty() {
            lit("LUKS")
        } else {
            b.hint_encryption.clone()
        };
        push_text(out, "Encryption", e);
    }
    let ghost p1 = detail_views(out@);
    assert(p1 =~= p0 + when(
        b.encrypted,
        text_line(
            "Encryption"@,
            if b.hint_encryption@.len() == 0 {
                "LUKS"@
            } else {
                b.hint_encryption@
            },
        ),
    ));
    if b.mount_points.len() > 0 {
        push_text(out, "Mounted", joined(&b.mount_points, ", "));
    }
    assert(detail_views(out@) =~= p1 + when(
        b.mount_points@.len() > 0,
        text_line("Mounted"@, join(string_views(b.mount_points@), ", "@)),
    ));
}

fn push_state_tail(out: &mut Vec<Detail>, b: &Block)
    ensures
        detail_views(final(out)@) == detail_views(old(out)@) + state_tail(*b),
{
    let ghost p0 = detail_views(out@);
    if b.swap {
        push_text(out, "Swap", if b.swap_active { lit("active") } else { lit("inactive") });
    }
    let ghost p1 = detail_views(out@);
    assert(p1 =~= p0 + when(
        b.swap,
        text_line(
            "Swap"@,
            if b.swap_active {
                "active"@
            } else {
                "inactive"@
            },
        ),
    ));
    if b.loopback {
        push_text(out, "Backing", b.backing_file.clone());
        push_text(out, "Autoclear", if b.loop_autoclear { lit("yes") } else { lit("no") });
    }
    let ghost p2 = detail_views(out@);
    assert(p2 =~= p1 + when(
        b.loopback,
        text_line("Backing"@, b.backing_file@) + text_line(
            "Autoclear"@,
            if b.loop_autoclear {
                "yes"@
            } else {
                "no"@
            },
        ),
    ));
    let member = !same_str(b.mdraid_member.as_str(), "/") && !b.mdraid_member.as_str().is_empty();
    if member {
        push_text(out, "RAID member", lit("yes"));
    }
    assert(detail_views(out@) =~= p2 + when(
        b.mdraid_member@ != "/"@ && b.mdraid_member@.len() > 0,
        text_line("RAID member"@, "yes"@),
    ));
}

fn push_state(out: &mut Vec<Detail>, b: &Block)
    ensures
        detail_views(final(out)@) == detail_views(old(out)@) + state_lines(*b),
{
    let ghost p0 = detail_views(out@);
    push_state_head(out, b);
    let ghost p1 = detail_views(out@);
    push_state_tail(out, b);
    assert(detail_views(out@) =~= p0 + state_lines(*b));
}

fn push_fstab(out: &mut Vec<Detail>, b: &Block)
    ensures
        detail_views(final(out)@) == detail_views(old(out)@) + fstab_lines(*b),
{
    let ghost p0 = detail_views(out@);
    let items = b.fstab_items();
    proof {
        assert(items@.map_values(|c: &ConfigItem| *c) == fstab_filter(b.config@));
        assert(items@.len() == fstab_filter(b.config@).len());
    }
    if items.len() > 0 {
        let item: &ConfigItem = items[0];
        assert(*item == fstab_filter(b.config@)[0]);
        push_text(out, "fstab", fstab_field(item, "dir"));
        push_text(out, "Options", fstab_field(item, "opts"));
    }
    assert(detail_views(out@) =~= p0 + fstab_lines(*b));
}

pub fn volume_details(model: &Model, b: &Block) -> (r: Vec<Detail>)
    ensures
        detail_views(r@) == volume_lines(*b),
{
    let mut out: Vec<Detail> = Vec::new();
    push_text(&mut out, "Device", String::from_str(b.device_path()));
    push_size(&mut out, "Size", b.size);
    push_text(&mut out, "Usage", b.id_usage.clone());
    push_text(&mut out, "Type", b.id_type.clone());
    push_text(&mut out, "Label", b.id_label.clone());
    push_text(&mut out, "UUID", b.id_uuid.clone());
    let ghost p0 = detail_views(out@);
    push_partition(&mut out, b);
    push_state(&mut out, b);
    push_fstab(&mut out, b);
    let ghost p1 = detail_views(out@);
    if model.is_system_block(b) {
        push_text(&mut out, "System", lit("yes"));
    }
    assert(detail_views(out@) =~= p1 + when(is_system_block_spec(*b), text_line("System"@, "yes"@)));
    assert(detail_views(out@) =~= volume_lines(*b));
    out
}

// ---------------------------------------------------------------------------
// Free space and arrays
// ---------------------------------------------------------------------------

pub open spec fn free_lines(m: Model, disk: Seq<char>, start: u64, size: u64) -> Seq<DetailV> {
    text_line(
        "Disk"@,
        match block_at(m.blocks@, disk) {
            Some(b) => after_last_slash(device_path_spec(b)),
            None => Seq::empty(),
        },
    ) + size_line("Start"@, start) + size_line("Size"@, size) + text_line(
        ""@,
        "Press n to create a partition here."@,
    )
}

pub open spec fn raid_lines(r: Raid) -> Seq<DetailV> {
    text_line("Level"@, r.level@) + text_line("Name"@, r.name@) + text_line("UUID"@, r.uuid@)
        + size_line("Size"@, r.size) + text_line(
        "State"@,
        if r.running {
            "running"@
        } else {
            "stopped"@
        },
    ) + when(r.degraded, text_line("Degraded"@, "yes"@)) + when(
        r.sync_action@.len() > 0,
        seq![("Sync"@, ShownV::Sync { action: r.sync_action@, done_bits: r.sync_completed_bits })],
    ) + text_line("Members"@, dec(r.members@.len()))
}

pub fn free_details(model: &Model, disk: &str, start: u64, size: u64) -> (r: Vec<Detail>)
    ensures
        detail_views(r@) == free_lines(*model, disk@, start, size),
{
    let mut out: Vec<Detail> = Vec::new();
    let name = match model.block(disk) {
        Some(b) => String::from_str(kernel_name(b.device_path())),
        None => String::new(),
    };
    push_text(&mut out, "Disk", name);
    push_size(&mut out, "Start", start);
    push_size(&mut out, "Size", size);
    push_text(&mut out, "", lit("Press n to create a partition here."));
    out
}

pub fn raid_details(r: &Raid) -> (d: Vec<Detail>)
    ensures
        detail_views(d@) == raid_lines(*r),
{
    let mut out: Vec<Detail> = Vec::new();
    push_text(&mut out, "Level", r.level.clone());
    push_text(&mut out, "Name", r.name.clone());
    push_text(&mut out, "UUID", r.uuid.clone());
    push_size(&mut out, "Size", r.size);
    push_text(&mut out, "State", if r.running { lit("running") } else { lit("stopped") });
    let ghost p0 = detail_views(out@);
    if r.degraded {
        push_text(&mut out, "Degraded", lit("yes"));
    }
    let ghost p1 = detail_views(out@);
    assert(p1 =~= p0 + when(r.degraded, text_line("Degraded"@, "yes"@)));
    if !r.sync_action.as_str().is_empty() {
        push_detail(
            &mut out,
            "Sync",
            Shown::Sync { action: r.sync_action.clone(), done_bits: r.sync_completed_bits },
        );
    }
    let ghost p2 = detail_views(out@);
    assert(p2 =~= p1 + when(
        r.sync_action@.len() > 0,
        seq![("Sync"@, ShownV::Sync { action: r.sync_action@, done_bits: r.sync_completed_bits })],
    ));
    let n = dec_chars(r.members.len() as u64);
    push_text(&mut out, "Members", string_from(n.as_slice()));
    assert(detail_views(out@) =~= raid_lines(*r));
    out
}

// ---------------------------------------------------------------------------
// The selected row
// ---------------------------------------------------------------------------

/// The lines for a row; none for the shares row or a row whose object is
/// gone.
pub open spec fn details_spec(m: Model, row: RowKindV) -> Seq<DetailV> {
    match row {
        RowKindV::Drive { drive } => match drive_at(m.drives@, drive) {
            Some(d) => drive_lines(m, d),
            None => Seq::empty(),
        },
        RowKindV::Volume { block } => match block_at(m.blocks@, block) {
            Some(b) => volume_lines(b),
            None => Seq::empty(),
        },
        RowKindV::Free { disk, start, size } => free_lines(m, disk, start, size),
        RowKindV::Raid { raid } => match raid_at(m.raids@, raid) {
            Some(r) => raid_lines(r),
            None => Seq::empty(),
        },
        RowKindV::Shares => Seq::empty(),
    }
}

pub fn details(model: &Model, row: &RowKind) -> (r: Vec<Detail>)
    ensures
        detail_views(r@) == details_spec(*model, row@),
{
    match row {
        RowKind::Drive { drive } => match model.drive(drive.as_str()) {
            Some(d) => drive_details(model, d),
            None => Vec::new(),
        },
        RowKind::Volume { block } => match model.block(block.as_str()) {
            Some(b) => volume_details(model, b),
            None => Vec::new(),
        },
        RowKind::Free { disk, start, size } => free_details(model, disk.as_str(), *start, *size),
        RowKind::Raid { raid } => match model.raid(raid.as_str()) {
            Some(r) => raid_details(r),
            None => Vec::new(),
        },
        RowKind::Shares => Vec::new(),
    }
}

/// The panel's title: text, followed by a byte count when there is one.
pub open spec fn title_spec(m: Model, row: Option<RowKindV>) -> (Seq<char>, Option<u64>) {
    match row {
        Some(RowKindV::Drive { drive }) => match drive_at(m.drives@, drive) {
            Some(d) => (join(words(d.vendor@ + seq![' '] + d.model@), seq![' ']), None),
            None => ("Drive"@, None),
        },
        Some(RowKindV::Volume { block }) => match block_at(m.blocks@, block) {
            Some(b) => (after_last_slash(device_path_spec(b)), None),
            None => ("Volume"@, None),
        },
        Some(RowKindV::Free { size, .. }) => ("Free "@, Some(size)),
        Some(RowKindV::Raid { raid }) => match raid_at(m.raids@, raid) {
            Some(r) => (r.level@ + " "@ + r.name@, None),
            None => ("RAID"@, None),
        },
        _ => ("Disks"@, None),
    }
}

pub fn title(model: &Model, row: Option<&RowKind>) -> (r: (String, Option<u64>))
    ensures
        (r.0@, r.1) == title_spec(
            *model,
            match row {
                Some(k) => Some(k@),
                None => None,
            },
        ),
{
    match row {
        Some(RowKind::Drive { drive }) => match model.drive(drive.as_str()) {
            Some(d) => {
                let mut all = chars_of(d.vendor.as_str());
                all.push(' ');
                push_str(&mut all, d.model.as_str());
                assert(all@ =~= d.vendor@ + seq![' '] + d.model@);
                let ws = words_chars(all.as_slice());
                let mut sep: Vec<char> = Vec::new();
                sep.push(' ');
                let name = join_chars(&ws, sep.as_slice());
                (string_from(name.as_slice()), None)
            },
            None => (lit("Drive"), None),
        },
        Some(RowKind::Volume { block }) => match model.block(block.as_str()) {
            Some(b) => (String::from_str(kernel_name(b.device_path())), None),
            None => (lit("Volume"), None),
        },
        Some(RowKind::Free { size, .. }) => (lit("Free "), Some(*size)),
        Some(RowKind::Raid { raid }) => match model.raid(raid.as_str()) {
            Some(r) => (r.level.clone().concat(" ").concat(r.name.as_str()), None),
            None => (lit("RAID"), None),
        },
        _ => (lit("Disks"), None),
    }
}

} // verus!
