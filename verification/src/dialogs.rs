//! The forms the actions open, filled in from the selection.

use vstd::prelude::*;

use crate::form::{
    choice, choice_field, field_views, secret, secret_field, string_seq, text, text_field, toggle,
    toggle_field, Field, FieldV, Form, FormId, FormIdV, FormV,
};
use crate::model::{
    fs_type_spec, fs_types, part_type_spec, part_types, partition_type_label,
    partition_type_label_spec, Block, RowKind, RowKindV,
};
use crate::select::{block_at, is_system_tree_spec};
use crate::session::{
    current_block_spec, current_drive_spec, with_error, DialogV, App, AppV, Dialog,
};
use crate::text::{chars_of, dec_i32, dec_i32_chars, push_all, push_str, string_from};
use crate::util::{after_last_slash, kernel_name};
use crate::model::device_path_spec;

verus! {

// ---------------------------------------------------------------------------
// Building blocks
// ---------------------------------------------------------------------------

pub open spec fn form_v(
    title: Seq<char>,
    blurb: Seq<char>,
    sizes: Seq<(usize, u64)>,
    fields: Seq<FieldV>,
    id: FormIdV,
) -> FormV {
    FormV { title, blurb, sizes, fields, focus: 0, id }
}

pub open spec fn with_form(s: AppV, f: FormV) -> AppV {
    AppV { dialog: DialogV::Form(f), ..s }
}

fn put(v: &mut Vec<Field>, f: Field)
    ensures
        field_views(final(v)@) == field_views(old(v)@).push(f@),
{
    let ghost pre = field_views(v@);
    v.push(f);
    assert(field_views(v@) =~= pre.push(f@));
}

fn list2(a: &str, b: &str) -> (r: Vec<String>)
    ensures
        string_seq(r@) == seq![a@, b@],
{
    let mut r: Vec<String> = Vec::new();
    r.push(String::from_str(a));
    r.push(String::from_str(b));
    assert(string_seq(r@) =~= seq![a@, b@]);
    r
}

fn list3(a: &str, b: &str, c: &str) -> (r: Vec<String>)
    ensures
        string_seq(r@) == seq![a@, b@, c@],
{
    let mut r: Vec<String> = Vec::new();
    r.push(String::from_str(a));
    r.push(String::from_str(b));
    r.push(String::from_str(c));
    assert(string_seq(r@) =~= seq![a@, b@, c@]);
    r
}

fn list4(a: &str, b: &str, c: &str, d: &str) -> (r: Vec<String>)
    ensures
        string_seq(r@) == seq![a@, b@, c@, d@],
{
    let mut r: Vec<String> = Vec::new();
    r.push(String::from_str(a));
    r.push(String::from_str(b));
    r.push(String::from_str(c));
    r.push(String::from_str(d));
    assert(string_seq(r@) =~= seq![a@, b@, c@, d@]);
    r
}

fn list5(a: &str, b: &str, c: &str, d: &str, e: &str) -> (r: Vec<String>)
    ensures
        string_seq(r@) == seq![a@, b@, c@, d@, e@],
{
    let mut r: Vec<String> = Vec::new();
    r.push(String::from_str(a));
    r.push(String::from_str(b));
    r.push(String::from_str(c));
    r.push(String::from_str(d));
    r.push(String::from_str(e));
    assert(string_seq(r@) =~= seq![a@, b@, c@, d@, e@]);
    r
}

/// Where a size goes after a name and two spaces.
pub open spec fn after_gap(n: nat) -> usize {
    if n + 2 <= usize::MAX {
        (n + 2) as usize
    } else {
        usize::MAX
    }
}

/// The filesystem types offered by the format forms.
pub open spec fn fs_choices() -> Seq<Seq<char>> {
    Seq::new(10, |i: int| fs_type_spec(i))
}

/// The partition type labels, in menu order.
pub open spec fn type_labels() -> Seq<Seq<char>> {
    Seq::new(8, |i: int| part_type_spec(i).0)
}

fn fs_list() -> (r: Vec<String>)
    ensures
        string_seq(r@) == fs_choices(),
{
    let t = fs_types();
    let mut r: Vec<String> = Vec::new();
    let mut i: usize = 0;
    while i < t.len()
        invariant
            i <= t@.len(),
            t@.len() == 10,
            forall|k: int| 0 <= k < 10 ==> (#[trigger] t@[k])@ == fs_type_spec(k),
            r@.len() == i,
            forall|k: int| 0 <= k < i ==> (#[trigger] r@[k])@ == fs_type_spec(k),
        decreases t@.len() - i,
    {
        r.push(String::from_str(t[i]));
        i = i + 1;
    }
    assert(string_seq(r@) =~= fs_choices());
    r
}

fn type_list() -> (r: Vec<String>)
    ensures
        string_seq(r@) == type_labels(),
{
    let t = part_types();
    let mut r: Vec<String> = Vec::new();
    let mut i: usize = 0;
    while i < t.len()
        invariant
            i <= t@.len(),
            t@.len() == 8,
            forall|k: int| 0 <= k < 8 ==> crate::model::part_type_view(#[trigger] t@[k]) == part_type_spec(k),
            r@.len() == i,
            forall|k: int| 0 <= k < i ==> (#[trigger] r@[k])@ == part_type_spec(k).0,
        decreases t@.len() - i,
    {
        assert(crate::model::part_type_view(t@[i as int]) == part_type_spec(i as int));
        r.push(String::from_str(t[i].label));
        i = i + 1;
    }
    assert(string_seq(r@) =~= type_labels());
    r
}

fn chars_len(s: &str) -> (n: usize)
    ensures
        n == s@.len(),
{
    chars_of(s).len()
}

// ---------------------------------------------------------------------------
// The forms
// ---------------------------------------------------------------------------

pub open spec fn kernel_of(b: Block) -> Seq<char> {
    after_last_slash(device_path_spec(b))
}

pub open spec fn format_fields(disk: bool, b: Block) -> Seq<FieldV> {
    seq![
        choice_field(
            "Type"@,
            if disk {
                seq!["gpt"@, "dos"@, "empty"@]
            } else {
                fs_choices()
            },
            if disk {
                "gpt"@
            } else {
                "ext4"@
            },
        ),
        text_field("Label"@, b.id_label@),
        choice_field(
            "Erase"@,
            seq!["none"@, "zero"@, "ata-secure-erase"@, "ata-secure-erase-enhanced"@],
            "none"@,
        ),
        toggle_field("Encrypt with LUKS2"@, false),
        secret_field("Passphrase"@),
        toggle_field("Take ownership"@, true),
    ]
}

/// Format a volume or a whole disk: type, label, erase mode, encryption and
/// ownership. The blurb names the device, its size and whether it is a
/// system disk.
pub open spec fn format_form_spec(s: AppV, disk: bool) -> AppV {
    match current_block_spec(s) {
        None => with_error(s, "No disk selected."@),
        Some(b) => {
            let kernel = kernel_of(b);
            with_form(
                s,
                form_v(
                    if disk {
                        "Format disk"@
                    } else {
                        "Format"@
                    },
                    kernel + "  "@ + "  "@ + if is_system_tree_spec(s.model.blocks@, b.path@) {
                        "This is a system disk."@
                    } else {
                        Seq::empty()
                    },
                    seq![(after_gap(kernel.len()), b.size)],
                    format_fields(disk, b),
                    if disk {
                        FormIdV::FormatDisk { path: b.path@ }
                    } else {
                        FormIdV::Format { path: b.path@ }
                    },
                ),
            )
        },
    }
}

impl App {
    pub(crate) fn form_format(&mut self, disk: bool)
        ensures
            final(self)@ == format_form_spec(old(self)@, disk),
    {
        let block = match self.current_block() {
            None => {
                self.set_error("No disk selected.");
                return ;
            },
            Some(b) => b,
        };
        let kernel = kernel_name(block.device_path());
        let klen = chars_len(kernel);
        let kinds = if disk {
            list3("gpt", "dos", "empty")
        } else {
            fs_list()
        };
        let mut blurb = String::from_str(kernel).concat("  ").concat("  ");
        if self.model.is_system_tree(block.path.as_str()) {
            blurb = blurb.concat("This is a system disk.");
        }
        let mut sizes: Vec<(usize, u64)> = Vec::new();
        sizes.push((klen.saturating_add(2), block.size));
        let mut fields: Vec<Field> = Vec::new();
        put(&mut fields, choice("Type", kinds, if disk { "gpt" } else { "ext4" }));
        put(&mut fields, text("Label", block.id_label.as_str()));
        put(&mut fields, choice("Erase", list4("none", "zero", "ata-secure-erase", "ata-secure-erase-enhanced"), "none"));
        put(&mut fields, toggle("Encrypt with LUKS2", false));
        put(&mut fields, secret("Passphrase"));
        put(&mut fields, toggle("Take ownership", true));
        let path = block.path.clone();
        let form = Form {
            title: String::from_str(if disk { "Format disk" } else { "Format" }),
            blurb,
            sizes,
            fields,
            focus: 0,
            id: if disk {
                FormId::FormatDisk { path }
            } else {
                FormId::Format { path }
            },
        };
        assert(form@.sizes =~= seq![(after_gap(klen as nat), block.size)]);
        proof {
            let s0 = old(self)@;
            let b = current_block_spec(s0)->0;
            assert(b == *block);
            let kernel_v = kernel_of(b);
            assert(kernel@ == kernel_v);
            assert(form@.blurb == kernel_v + "  "@ + "  "@ + if is_system_tree_spec(s0.model.blocks@, b.path@) {
                        "This is a system disk."@
                    } else {
                        Seq::empty()
                    });
            assert(form@.fields =~= format_fields(disk, b));
        }
        self.dialog = Dialog::Form(form);
    }
}


// ---------------------------------------------------------------------------
// Specifications of the other forms
// ---------------------------------------------------------------------------

pub open spec fn first_free(segs: Seq<crate::model::SegV>) -> Option<crate::model::SegV> {
    crate::model::first_where(segs, |g: crate::model::SegV| g.free)
}

/// Where a new partition goes: the selected free space, or the first free
/// space of the selected drive's disk.
pub open spec fn create_target(s: AppV) -> Result<(Seq<char>, u64, u64), Seq<char>> {
    match crate::session::current_kind_spec(s) {
        Some(RowKindV::Free { disk, start, size }) => Ok((disk, start, size)),
        Some(RowKindV::Drive { drive }) => match crate::select::disk_pick(s.model.blocks@, drive) {
            None => Err("This drive has no whole-disk device."@),
            Some(b) => match first_free(crate::select::segments_for_spec(s.model.blocks@, b.path@)) {
                None => Err("No free space. Format a partition table first if the disk is empty."@),
                Some(g) => Ok((b.path@, g.start, g.size)),
            },
        },
        _ => Err("Select free space or a drive."@),
    }
}

/// The partition table type of a disk; `gpt` when unknown.
pub open spec fn table_kind(bs: Seq<Block>, disk: Seq<char>) -> Seq<char> {
    match block_at(bs, disk) {
        Some(b) => match b.table {
            Some(t) => t.kind@,
            None => "gpt"@,
        },
        None => "gpt"@,
    }
}

pub open spec fn create_fields() -> Seq<FieldV> {
    seq![
        text_field("Size (blank = all)"@, ""@),
        text_field("Name"@, ""@),
        choice_field("Partition type"@, type_labels(), part_type_spec(0).0),
        choice_field("Filesystem"@, seq!["none"@] + fs_choices(), "ext4"@),
        text_field("Label"@, ""@),
        toggle_field("Encrypt with LUKS2"@, false),
        secret_field("Passphrase"@),
    ]
}

pub open spec fn create_form_spec(s: AppV) -> AppV {
    match create_target(s) {
        Err(e) => with_error(s, e),
        Ok((disk, offset, max)) => with_form(
            s,
            form_v(
                "Create partition"@,
                "Free space  at offset ."@,
                seq![(11usize, max), (22usize, offset)],
                create_fields(),
                FormIdV::Create { disk, offset, max, table: table_kind(s.model.blocks@, disk) },
            ),
        ),
    }
}

pub open spec fn resize_form_spec(s: AppV) -> AppV {
    match current_block_spec(s) {
        None => s,
        Some(b) => {
            let current = match b.partition {
                Some(p) => p.size,
                None => b.size,
            };
            with_form(
                s,
                form_v(
                    "Resize"@,
                    "Current size . 0 or max uses the largest fit. Shrinking a filesystem moves data."@,
                    seq![(13usize, current)],
                    seq![text_field("New size"@, ""@)],
                    FormIdV::Resize {
                        path: b.path@,
                        current,
                        filesystem: b.filesystem,
                        mounted: b.mount_points@.len() > 0,
                        fstype: b.id_type@,
                    },
                ),
            )
        },
    }
}

pub open spec fn label_form_spec(s: AppV) -> AppV {
    match current_block_spec(s) {
        None => s,
        Some(b) => with_form(
            s,
            form_v(
                "Label"@,
                Seq::empty(),
                Seq::empty(),
                seq![text_field("Label"@, b.id_label@)],
                FormIdV::Label { path: b.path@, swap: b.swap },
            ),
        ),
    }
}

/// The current fstab item of a block, if it has one.
pub open spec fn first_fstab(b: Block) -> Option<crate::model::ConfigItem> {
    let items = crate::model::fstab_filter(b.config@);
    if items.len() > 0 {
        Some(items[0])
    } else {
        None
    }
}

pub open spec fn mount_options_fields(b: Block) -> Seq<FieldV> {
    let item = first_fstab(b);
    let dir = match item {
        Some(i) => crate::model::fstab_field_spec(i, "dir"@),
        None => Seq::empty(),
    };
    let opts = match item {
        Some(i) => crate::model::fstab_field_spec(i, "opts"@),
        None => "defaults"@,
    };
    let pass = match item {
        Some(i) => crate::model::fstab_field_spec(i, "passno"@),
        None => "2"@,
    };
    seq![
        toggle_field("Mount at startup"@, item is Some),
        text_field("Mount point"@, dir),
        text_field("Options"@, opts),
        choice_field("Identify by"@, seq!["UUID"@, "LABEL"@], "UUID"@),
        text_field("fsck pass"@, pass),
    ]
}

pub open spec fn mount_options_form_spec(s: AppV) -> AppV {
    match current_block_spec(s) {
        None => s,
        Some(b) => with_form(
            s,
            form_v(
                "Mount options"@,
                "Writes an fstab item through UDisks. Turn startup off to remove it."@,
                Seq::empty(),
                mount_options_fields(b),
                FormIdV::MountOptions { path: b.path@ },
            ),
        ),
    }
}

pub open spec fn unlock_form_spec(s: AppV) -> AppV {
    match current_block_spec(s) {
        None => s,
        Some(b) => with_form(
            s,
            form_v(
                "Unlock"@,
                kernel_of(b),
                Seq::empty(),
                seq![secret_field("Passphrase"@)],
                FormIdV::Unlock { path: b.path@ },
            ),
        ),
    }
}

pub open spec fn pass_form_spec(s: AppV) -> AppV {
    match current_block_spec(s) {
        None => s,
        Some(b) => with_form(
            s,
            form_v(
                "Change passphrase"@,
                Seq::empty(),
                Seq::empty(),
                seq![secret_field("Current"@), secret_field("New"@), secret_field("Repeat"@)],
                FormIdV::ChangePass { path: b.path@ },
            ),
        ),
    }
}

pub open spec fn flag_set(flags: u64, bit: u64) -> bool {
    flags & (1u64 << bit) != 0
}

pub open spec fn edit_fields(p: crate::model::Partition, table: Seq<char>) -> Seq<FieldV> {
    seq![
        choice_field("Type"@, type_labels(), partition_type_label_spec(p.type_code@)),
        text_field("Name"@, p.name@),
    ] + if table == "dos"@ {
        seq![toggle_field("Bootable"@, flag_set(p.flags, 7))]
    } else {
        seq![
            toggle_field("System partition"@, flag_set(p.flags, 0)),
            toggle_field("Hidden"@, flag_set(p.flags, 62)),
            toggle_field("Do not automount"@, flag_set(p.flags, 63)),
            toggle_field("Read-only"@, flag_set(p.flags, 60)),
        ]
    }
}

pub open spec fn edit_form_spec(s: AppV) -> AppV {
    match current_block_spec(s) {
        None => s,
        Some(b) => match b.partition {
            None => s,
            Some(p) => {
                let table = table_kind(s.model.blocks@, p.table@);
                with_form(
                    s,
                    form_v(
                        "Edit partition"@,
                        "Current type "@ + p.type_code@,
                        Seq::empty(),
                        edit_fields(p, table),
                        FormIdV::EditPartition { path: b.path@, table },
                    ),
                )
            },
        },
    }
}

pub open spec fn benchmark_form_spec(s: AppV) -> AppV {
    match current_block_spec(s) {
        None => s,
        Some(b) => with_form(
            s,
            form_v(
                "Benchmark"@,
                "Read walks the device. Write destroys its contents."@,
                Seq::empty(),
                seq![choice_field("Mode"@, seq!["read"@, "write"@], "read"@)],
                FormIdV::Benchmark { path: b.path@, size: b.size },
            ),
        ),
    }
}

pub open spec fn image_form_spec(s: AppV, restore: bool) -> AppV {
    match current_block_spec(s) {
        None => s,
        Some(b) => with_form(
            s,
            form_v(
                if restore {
                    "Restore disk image"@
                } else {
                    "Create disk image"@
                },
                kernel_of(b) + "  "@,
                seq![(after_gap(kernel_of(b).len()), b.size)],
                seq![text_field("Image file"@, ""@)],
                FormIdV::Image { path: b.path@, size: b.size, restore },
            ),
        ),
    }
}

pub open spec fn smart_test_form_spec(s: AppV) -> AppV {
    match current_drive_spec(s) {
        None => s,
        Some(d) => with_form(
            s,
            form_v(
                "SMART self-test"@,
                "The test runs on the drive and returns immediately."@,
                Seq::empty(),
                seq![
                    choice_field(
                        "Test"@,
                        if d.nvme {
                            seq!["short"@, "extended"@, "vendor-specific"@]
                        } else {
                            seq!["short"@, "extended"@, "conveyance"@, "offline"@]
                        },
                        "short"@,
                    ),
                ],
                FormIdV::SmartTest { path: d.path@, nvme: d.nvme },
            ),
        ),
    }
}

pub open spec fn drive_fields(d: crate::model::Drive) -> Seq<FieldV> {
    let ps = crate::model::pair_views(d.config@);
    let cache = match crate::form::drive_bool_spec(ps, "ata-write-cache-enabled"@) {
        Some(v) => v,
        None => d.ata is Some && d.ata->0.write_cache_enabled,
    };
    let look = match crate::form::drive_bool_spec(ps, "ata-read-lookahead-enabled"@) {
        Some(v) => v,
        None => d.ata is Some && d.ata->0.lookahead_enabled,
    };
    seq![
        text_field("Standby seconds"@, crate::form::drive_int_spec(ps, "ata-pm-standby"@)),
        text_field("APM level"@, crate::form::drive_int_spec(ps, "ata-apm-level"@)),
        toggle_field("Write cache"@, cache),
        toggle_field("Read look-ahead"@, look),
    ]
}

pub open spec fn drive_form_spec(s: AppV) -> AppV {
    match current_drive_spec(s) {
        None => s,
        Some(d) => with_form(
            s,
            form_v(
                "Drive settings"@,
                "Standby is in seconds. 0 disables spindown. APM is 1–254."@,
                Seq::empty(),
                drive_fields(d),
                FormIdV::DriveSettings { path: d.path@ },
            ),
        ),
    }
}

pub open spec fn loop_form_spec(s: AppV) -> AppV {
    with_form(
        s,
        form_v(
            "Attach disk image"@,
            "The image is attached as a loop device."@,
            Seq::empty(),
            seq![text_field("Image file"@, ""@), toggle_field("Read only"@, true)],
            FormIdV::LoopAttach,
        ),
    )
}

pub open spec fn secure_erase_form_spec(s: AppV) -> AppV {
    match current_drive_spec(s) {
        None => s,
        Some(d) => {
            let minutes: i32 = match d.ata {
                Some(a) => a.secure_erase_minutes,
                None => 0,
            };
            with_form(
                s,
                form_v(
                    "Secure erase"@,
                    "ATA secure erase takes about "@ + dec_i32(minutes)
                        + " minutes and destroys every byte."@,
                    Seq::empty(),
                    seq![toggle_field("Enhanced erase"@, false)],
                    FormIdV::SecureErase { path: d.path@ },
                ),
            )
        },
    }
}

pub open spec fn sanitize_form_spec(s: AppV) -> AppV {
    match current_drive_spec(s) {
        None => s,
        Some(d) => with_form(
            s,
            form_v(
                "NVMe sanitize"@,
                "Sanitize cannot be aborted once it starts."@,
                Seq::empty(),
                seq![
                    choice_field(
                        "Action"@,
                        seq!["block-erase"@, "crypto-erase"@, "overwrite"@],
                        "block-erase"@,
                    ),
                ],
                FormIdV::Sanitize { path: d.nvme_path@ },
            ),
        ),
    }
}

pub open spec fn raid_form_spec(s: AppV) -> AppV {
    with_form(
        s,
        form_v(
            "Create RAID"@,
            "Member devices are erased. List kernel names separated by spaces, for example: sdb sdc"@,
            Seq::empty(),
            seq![
                text_field("Name"@, "data"@),
                choice_field(
                    "Level"@,
                    seq!["raid0"@, "raid1"@, "raid5"@, "raid6"@, "raid10"@],
                    "raid1"@,
                ),
                text_field("Devices"@, ""@),
                text_field("Chunk"@, "512K"@),
            ],
            FormIdV::RaidCreate,
        ),
    )
}

pub open spec fn header_form_spec(s: AppV, restore: bool) -> AppV {
    match current_block_spec(s) {
        None => s,
        Some(b) => with_form(
            s,
            form_v(
                if restore {
                    "Restore LUKS header"@
                } else {
                    "Back up LUKS header"@
                },
                "The file holds the header and keyslots."@,
                Seq::empty(),
                seq![text_field("File"@, ""@)],
                FormIdV::Header { path: b.path@, restore },
            ),
        ),
    }
}

pub open spec fn convert_form_spec(s: AppV) -> AppV {
    match current_block_spec(s) {
        None => s,
        Some(b) => with_form(
            s,
            form_v(
                "Convert LUKS"@,
                "The volume must be locked."@,
                Seq::empty(),
                seq![choice_field("Version"@, seq!["luks2"@, "luks1"@], "luks2"@)],
                FormIdV::Convert { path: b.path@ },
            ),
        ),
    }
}

impl App {
    pub(crate) fn show(&mut self, form: Form)
        ensures
            final(self)@ == with_form(old(self)@, form@),
    {
        self.dialog = Dialog::Form(form);
    }

    fn create_target(&self) -> (r: Result<(String, u64, u64), String>)
        ensures
            match r {
                Ok(t) => create_target(self@) == Ok::<(Seq<char>, u64, u64), Seq<char>>((t.0@, t.1, t.2)),
                Err(e) => create_target(self@) == Err::<(Seq<char>, u64, u64), Seq<char>>(e@),
            },
    {
        match self.current_kind() {
            Some(RowKind::Free { disk, start, size }) => Ok((disk, start, size)),
            Some(RowKind::Drive { drive }) => {
                let block = match self.model.disk_for_drive(drive.as_str()) {
                    None => return Err(String::from_str("This drive has no whole-disk device.")),
                    Some(b) => b,
                };
                let segs = self.model.segments_for(block.path.as_str());
                let ghost sv = crate::model::seg_views(segs@);
                let ghost f = |g: crate::model::SegV| g.free;
                let mut i: usize = 0;
                while i < segs.len() && !segs[i].free
                    invariant
                        i <= segs@.len(),
                        sv == crate::model::seg_views(segs@),
                        f == (|g: crate::model::SegV| g.free),
                        forall|j: int| 0 <= j < i ==> !f(#[trigger] sv[j]),
                    decreases segs@.len() - i,
                {
                    assert(sv[i as int] == segs@[i as int]@);
                    i = i + 1;
                }
                if i < segs.len() {
                    proof {
                        assert(sv[i as int] == segs@[i as int]@);
                        crate::model::lemma_first_at(sv, f, i as int);
                    }
                    Ok((block.path.clone(), segs[i].start, segs[i].size))
                } else {
                    proof {
                        crate::model::lemma_first_none(sv, f);
                    }
                    Err(String::from_str("No free space. Format a partition table first if the disk is empty."))
                }
            },
            _ => Err(String::from_str("Select free space or a drive.")),
        }
    }

    fn table_of(&self, disk: &str) -> (r: String)
        ensures
            r@ == table_kind(self.model.blocks@, disk@),
    {
        match self.model.block(disk) {
            Some(b) => match &b.table {
                Some(t) => t.kind.clone(),
                None => String::from_str("gpt"),
            },
            None => String::from_str("gpt"),
        }
    }

    pub(crate) fn form_create(&mut self)
        ensures
            final(self)@ == create_form_spec(old(self)@),
    {
        let (disk, offset, max) = match self.create_target() {
            Err(e) => {
                self.error = e;
                return ;
            },
            Ok(t) => t,
        };
        let table = self.table_of(disk.as_str());
        let mut fs: Vec<String> = Vec::new();
        fs.push(String::from_str("none"));
        let rest = fs_list();
        let mut i: usize = 0;
        while i < rest.len()
            invariant
                i <= rest@.len(),
                string_seq(rest@) == fs_choices(),
                string_seq(fs@) == seq!["none"@] + fs_choices().subrange(0, i as int),
            decreases rest@.len() - i,
        {
            let ghost pre = fs@;
            let x = rest[i].clone();
            assert(x@ == string_seq(rest@)[i as int]);
            fs.push(x);
            assert(string_seq(fs@) =~= string_seq(pre).push(x@));
            assert(fs_choices().subrange(0, i + 1) =~= fs_choices().subrange(0, i as int).push(x@));
            assert(string_seq(fs@) =~= seq!["none"@] + fs_choices().subrange(0, i + 1));
            i = i + 1;
        }
        assert(fs_choices().subrange(0, rest@.len() as int) =~= fs_choices());
        let labels = type_list();
        let mut fields: Vec<Field> = Vec::new();
        put(&mut fields, text("Size (blank = all)", ""));
        put(&mut fields, text("Name", ""));
        put(&mut fields, choice("Partition type", labels, "Linux filesystem"));
        put(&mut fields, choice("Filesystem", fs, "ext4"));
        put(&mut fields, text("Label", ""));
        put(&mut fields, toggle("Encrypt with LUKS2", false));
        put(&mut fields, secret("Passphrase"));
        let mut sizes: Vec<(usize, u64)> = Vec::new();
        sizes.push((11, max));
        sizes.push((22, offset));
        let form = Form {
            title: String::from_str("Create partition"),
            blurb: String::from_str("Free space  at offset ."),
            sizes,
            fields,
            focus: 0,
            id: FormId::Create { disk, offset, max, table },
        };
        proof {
            assert(form@.fields =~= create_fields());
            assert(form@.sizes =~= seq![(11usize, max), (22usize, offset)]);
        }
        self.show(form);
    }

    pub(crate) fn form_resize(&mut self)
        ensures
            final(self)@ == resize_form_spec(old(self)@),
    {
        let block = match self.current_block() {
            None => return ,
            Some(b) => b,
        };
        let current = match &block.partition {
            Some(p) => p.size,
            None => block.size,
        };
        let mut fields: Vec<Field> = Vec::new();
        put(&mut fields, text("New size", ""));
        let mut sizes: Vec<(usize, u64)> = Vec::new();
        sizes.push((13, current));
        let form = Form {
            title: String::from_str("Resize"),
            blurb: String::from_str(
                "Current size . 0 or max uses the largest fit. Shrinking a filesystem moves data.",
            ),
            sizes,
            fields,
            focus: 0,
            id: FormId::Resize {
                path: block.path.clone(),
                current,
                filesystem: block.filesystem,
                mounted: !block.mount_points.is_empty(),
                fstype: block.id_type.clone(),
            },
        };
        proof {
            assert(form@.fields =~= seq![text_field("New size"@, ""@)]);
            assert(form@.sizes =~= seq![(13usize, current)]);
        }
        self.show(form);
    }

    pub(crate) fn form_label(&mut self)
        ensures
            final(self)@ == label_form_spec(old(self)@),
    {
        let block = match self.current_block() {
            None => return ,
            Some(b) => b,
        };
        let mut fields: Vec<Field> = Vec::new();
        put(&mut fields, text("Label", block.id_label.as_str()));
        let form = Form {
            title: String::from_str("Label"),
            blurb: String::new(),
            sizes: Vec::new(),
            fields,
            focus: 0,
            id: FormId::Label { path: block.path.clone(), swap: block.swap },
        };
        proof {
            assert(form@.fields =~= seq![text_field("Label"@, block.id_label@)]);
            assert(form@.sizes =~= Seq::<(usize, u64)>::empty());
        }
        self.show(form);
    }

    pub(crate) fn form_mount_options(&mut self)
        ensures
            final(self)@ == mount_options_form_spec(old(self)@),
    {
        let block = match self.current_block() {
            None => return ,
            Some(b) => b,
        };
        let items = block.fstab_items();
        let ghost want = crate::model::fstab_filter(block.config@);
        let (startup, dir, opts, pass) = if items.len() > 0 {
            assert(want[0] == *items@[0]);
            let item = items[0];
            (
                true,
                crate::model::fstab_field(item, "dir"),
                crate::model::fstab_field(item, "opts"),
                crate::model::fstab_field(item, "passno"),
            )
        } else {
            (false, String::new(), String::from_str("defaults"), String::from_str("2"))
        };
        let mut fields: Vec<Field> = Vec::new();
        put(&mut fields, toggle("Mount at startup", startup));
        put(&mut fields, text("Mount point", dir.as_str()));
        put(&mut fields, text("Options", opts.as_str()));
        put(&mut fields, choice("Identify by", list2("UUID", "LABEL"), "UUID"));
        put(&mut fields, text("fsck pass", pass.as_str()));
        let form = Form {
            title: String::from_str("Mount options"),
            blurb: String::from_str("Writes an fstab item through UDisks. Turn startup off to remove it."),
            sizes: Vec::new(),
            fields,
            focus: 0,
            id: FormId::MountOptions { path: block.path.clone() },
        };
        proof {
            assert(form@.fields =~= mount_options_fields(*block));
            assert(form@.sizes =~= Seq::<(usize, u64)>::empty());
        }
        self.show(form);
    }

    pub(crate) fn form_unlock(&mut self)
        ensures
            final(self)@ == unlock_form_spec(old(self)@),
    {
        let block = match self.current_block() {
            None => return ,
            Some(b) => b,
        };
        let mut fields: Vec<Field> = Vec::new();
        put(&mut fields, secret("Passphrase"));
        let form = Form {
            title: String::from_str("Unlock"),
            blurb: String::from_str(kernel_name(block.device_path())),
            sizes: Vec::new(),
            fields,
            focus: 0,
            id: FormId::Unlock { path: block.path.clone() },
        };
        proof {
            assert(form@.fields =~= seq![secret_field("Passphrase"@)]);
            assert(form@.sizes =~= Seq::<(usize, u64)>::empty());
        }
        self.show(form);
    }

    pub(crate) fn form_pass(&mut self)
        ensures
            final(self)@ == pass_form_spec(old(self)@),
    {
        let block = match self.current_block() {
            None => return ,
            Some(b) => b,
        };
        let mut fields: Vec<Field> = Vec::new();
        put(&mut fields, secret("Current"));
        put(&mut fields, secret("New"));
        put(&mut fields, secret("Repeat"));
        let form = Form {
            title: String::from_str("Change passphrase"),
            blurb: String::new(),
            sizes: Vec::new(),
            fields,
            focus: 0,
            id: FormId::ChangePass { path: block.path.clone() },
        };
        proof {
            assert(form@.fields =~= seq![secret_field("Current"@), secret_field("New"@), secret_field("Repeat"@)]);
            assert(form@.sizes =~= Seq::<(usize, u64)>::empty());
        }
        self.show(form);
    }

    pub(crate) fn form_edit_partition(&mut self)
        ensures
            final(self)@ == edit_form_spec(old(self)@),
    {
        let block = match self.current_block() {
            None => return ,
            Some(b) => b,
        };
        let part = match &block.partition {
            None => return ,
            Some(p) => p,
        };
        let table = self.table_of(part.table.as_str());
        let labels = type_list();
        let current = partition_type_label(part.type_code.as_str());
        let mut fields: Vec<Field> = Vec::new();
        put(&mut fields, choice("Type", labels, current.as_str()));
        put(&mut fields, text("Name", part.name.as_str()));
        let f = part.flags;
        if crate::text::same_str(table.as_str(), "dos") {
            put(&mut fields, toggle("Bootable", f & (1u64 << 7u64) != 0));
        } else {
            put(&mut fields, toggle("System partition", f & (1u64 << 0u64) != 0));
            put(&mut fields, toggle("Hidden", f & (1u64 << 62u64) != 0));
            put(&mut fields, toggle("Do not automount", f & (1u64 << 63u64) != 0));
            put(&mut fields, toggle("Read-only", f & (1u64 << 60u64) != 0));
        }
        let form = Form {
            title: String::from_str("Edit partition"),
            blurb: String::from_str("Current type ").concat(part.type_code.as_str()),
            sizes: Vec::new(),
            fields,
            focus: 0,
            id: FormId::EditPartition { path: block.path.clone(), table },
        };
        proof {
            assert(form@.fields =~= edit_fields(*part, table_kind(old(self)@.model.blocks@, part.table@)));
            assert(form@.sizes =~= Seq::<(usize, u64)>::empty());
        }
        self.show(form);
    }

    pub(crate) fn form_benchmark(&mut self)
        ensures
            final(self)@ == benchmark_form_spec(old(self)@),
    {
        let block = match self.current_block() {
            None => return ,
            Some(b) => b,
        };
        let mut fields: Vec<Field> = Vec::new();
        put(&mut fields, choice("Mode", list2("read", "write"), "read"));
        let form = Form {
            title: String::from_str("Benchmark"),
            blurb: String::from_str("Read walks the device. Write destroys its contents."),
            sizes: Vec::new(),
            fields,
            focus: 0,
            id: FormId::Benchmark { path: block.path.clone(), size: block.size },
        };
        proof {
            assert(form@.fields =~= seq![choice_field("Mode"@, seq!["read"@, "write"@], "read"@)]);
            assert(form@.sizes =~= Seq::<(usize, u64)>::empty());
        }
        self.show(form);
    }

    pub(crate) fn form_image(&mut self, restore: bool)
        ensures
            final(self)@ == image_form_spec(old(self)@, restore),
    {
        let block = match self.current_block() {
            None => return ,
            Some(b) => b,
        };
        let kernel = kernel_name(block.device_path());
        let klen = chars_len(kernel);
        let mut fields: Vec<Field> = Vec::new();
        put(&mut fields, text("Image file", ""));
        let mut sizes: Vec<(usize, u64)> = Vec::new();
        sizes.push((klen.saturating_add(2), block.size));
        let form = Form {
            title: String::from_str(if restore { "Restore disk image" } else { "Create disk image" }),
            blurb: String::from_str(kernel).concat("  "),
            sizes,
            fields,
            focus: 0,
            id: FormId::Image { path: block.path.clone(), size: block.size, restore },
        };
        proof {
            assert(form@.fields =~= seq![text_field("Image file"@, ""@)]);
            assert(form@.sizes =~= seq![(after_gap(klen as nat), block.size)]);
        }
        self.show(form);
    }

    pub(crate) fn form_smart_test(&mut self)
        ensures
            final(self)@ == smart_test_form_spec(old(self)@),
    {
        let drive = match self.current_drive() {
            None => return ,
            Some(d) => d,
        };
        let kinds = if drive.nvme {
            list3("short", "extended", "vendor-specific")
        } else {
            list4("short", "extended", "conveyance", "offline")
        };
        let mut fields: Vec<Field> = Vec::new();
        put(&mut fields, choice("Test", kinds, "short"));
        let form = Form {
            title: String::from_str("SMART self-test"),
            blurb: String::from_str("The test runs on the drive and returns immediately."),
            sizes: Vec::new(),
            fields,
            focus: 0,
            id: FormId::SmartTest { path: drive.path.clone(), nvme: drive.nvme },
        };
        proof {
            assert(form@.fields =~= seq![
                choice_field(
                    "Test"@,
                    if drive.nvme {
                        seq!["short"@, "extended"@, "vendor-specific"@]
                    } else {
                        seq!["short"@, "extended"@, "conveyance"@, "offline"@]
                    },
                    "short"@,
                ),
            ]);
            assert(form@.sizes =~= Seq::<(usize, u64)>::empty());
        }
        self.show(form);
    }

    pub(crate) fn form_drive(&mut self)
        ensures
            final(self)@ == drive_form_spec(old(self)@),
    {
        let drive = match self.current_drive() {
            None => return ,
            Some(d) => d,
        };
        let standby = crate::form::drive_int(drive.config.as_slice(), "ata-pm-standby");
        let apm = crate::form::drive_int(drive.config.as_slice(), "ata-apm-level");
        let cache = match crate::form::drive_bool(drive.config.as_slice(), "ata-write-cache-enabled") {
            Some(v) => v,
            None => match &drive.ata {
                Some(a) => a.write_cache_enabled,
                None => false,
            },
        };
        let look = match crate::form::drive_bool(drive.config.as_slice(), "ata-read-lookahead-enabled") {
            Some(v) => v,
            None => match &drive.ata {
                Some(a) => a.lookahead_enabled,
                None => false,
            },
        };
        let mut fields: Vec<Field> = Vec::new();
        put(&mut fields, text("Standby seconds", standby.as_str()));
        put(&mut fields, text("APM level", apm.as_str()));
        put(&mut fields, toggle("Write cache", cache));
        put(&mut fields, toggle("Read look-ahead", look));
        let form = Form {
            title: String::from_str("Drive settings"),
            blurb: String::from_str("Standby is in seconds. 0 disables spindown. APM is 1–254."),
            sizes: Vec::new(),
            fields,
            focus: 0,
            id: FormId::DriveSettings { path: drive.path.clone() },
        };
        proof {
            assert(form@.fields =~= drive_fields(*drive));
            assert(form@.sizes =~= Seq::<(usize, u64)>::empty());
        }
        self.show(form);
    }

    pub(crate) fn form_loop(&mut self)
        ensures
            final(self)@ == loop_form_spec(old(self)@),
    {
        let mut fields: Vec<Field> = Vec::new();
        put(&mut fields, text("Image file", ""));
        put(&mut fields, toggle("Read only", true));
        let form = Form {
            title: String::from_str("Attach disk image"),
            blurb: String::from_str("The image is attached as a loop device."),
            sizes: Vec::new(),
            fields,
            focus: 0,
            id: FormId::LoopAttach,
        };
        proof {
            assert(form@.fields =~= seq![text_field("Image file"@, ""@), toggle_field("Read only"@, true)]);
            assert(form@.sizes =~= Seq::<(usize, u64)>::empty());
        }
        self.show(form);
    }

    pub(crate) fn form_secure_erase(&mut self)
        ensures
            final(self)@ == secure_erase_form_spec(old(self)@),
    {
        let drive = match self.current_drive() {
            None => return ,
            Some(d) => d,
        };
        let minutes: i32 = match &drive.ata {
            Some(a) => a.secure_erase_minutes,
            None => 0,
        };
        let mut b = chars_of("ATA secure erase takes about ");
        let d = dec_i32_chars(minutes);
        push_all(&mut b, d.as_slice());
        push_str(&mut b, " minutes and destroys every byte.");
        let mut fields: Vec<Field> = Vec::new();
        put(&mut fields, toggle("Enhanced erase", false));
        let form = Form {
            title: String::from_str("Secure erase"),
            blurb: string_from(b.as_slice()),
            sizes: Vec::new(),
            fields,
            focus: 0,
            id: FormId::SecureErase { path: drive.path.clone() },
        };
        proof {
            assert(form@.fields =~= seq![toggle_field("Enhanced erase"@, false)]);
            assert(form@.sizes =~= Seq::<(usize, u64)>::empty());
        }
        self.show(form);
    }

    pub(crate) fn form_sanitize(&mut self)
        ensures
            final(self)@ == sanitize_form_spec(old(self)@),
    {
        let drive = match self.current_drive() {
            None => return ,
            Some(d) => d,
        };
        let mut fields: Vec<Field> = Vec::new();
        put(&mut fields, choice("Action", list3("block-erase", "crypto-erase", "overwrite"), "block-erase"));
        let form = Form {
            title: String::from_str("NVMe sanitize"),
            blurb: String::from_str("Sanitize cannot be aborted once it starts."),
            sizes: Vec::new(),
            fields,
            focus: 0,
            id: FormId::Sanitize { path: drive.nvme_path.clone() },
        };
        proof {
            assert(form@.fields =~= seq![
                choice_field("Action"@, seq!["block-erase"@, "crypto-erase"@, "overwrite"@], "block-erase"@),
            ]);
            assert(form@.sizes =~= Seq::<(usize, u64)>::empty());
        }
        self.show(form);
    }

    pub(crate) fn form_raid(&mut self)
        ensures
            final(self)@ == raid_form_spec(old(self)@),
    {
        let mut fields: Vec<Field> = Vec::new();
        put(&mut fields, text("Name", "data"));
        put(&mut fields, choice("Level", list5("raid0", "raid1", "raid5", "raid6", "raid10"), "raid1"));
        put(&mut fields, text("Devices", ""));
        put(&mut fields, text("Chunk", "512K"));
        let form = Form {
            title: String::from_str("Create RAID"),
            blurb: String::from_str(
                "Member devices are erased. List kernel names separated by spaces, for example: sdb sdc",
            ),
            sizes: Vec::new(),
            fields,
            focus: 0,
            id: FormId::RaidCreate,
        };
        proof {
            assert(form@.fields =~= seq![
                text_field("Name"@, "data"@),
                choice_field("Level"@, seq!["raid0"@, "raid1"@, "raid5"@, "raid6"@, "raid10"@], "raid1"@),
                text_field("Devices"@, ""@),
                text_field("Chunk"@, "512K"@),
            ]);
            assert(form@.sizes =~= Seq::<(usize, u64)>::empty());
        }
        self.show(form);
    }

    pub(crate) fn form_header(&mut self, restore: bool)
        ensures
            final(self)@ == header_form_spec(old(self)@, restore),
    {
        let block = match self.current_block() {
            None => return ,
            Some(b) => b,
        };
        let mut fields: Vec<Field> = Vec::new();
        put(&mut fields, text("File", ""));
        let form = Form {
            title: String::from_str(if restore { "Restore LUKS header" } else { "Back up LUKS header" }),
            blurb: String::from_str("The file holds the header and keyslots."),
            sizes: Vec::new(),
            fields,
            focus: 0,
            id: FormId::Header { path: block.path.clone(), restore },
        };
        proof {
            assert(form@.fields =~= seq![text_field("File"@, ""@)]);
            assert(form@.sizes =~= Seq::<(usize, u64)>::empty());
        }
        self.show(form);
    }

    pub(crate) fn form_convert(&mut self)
        ensures
            final(self)@ == convert_form_spec(old(self)@),
    {
        let block = match self.current_block() {
            None => return ,
            Some(b) => b,
        };
        let mut fields: Vec<Field> = Vec::new();
        put(&mut fields, choice("Version", list2("luks2", "luks1"), "luks2"));
        let form = Form {
            title: String::from_str("Convert LUKS"),
            blurb: String::from_str("The volume must be locked."),
            sizes: Vec::new(),
            fields,
            focus: 0,
            id: FormId::Convert { path: block.path.clone() },
        };
        proof {
            assert(form@.fields =~= seq![choice_field("Version"@, seq!["luks2"@, "luks1"@], "luks2"@)]);
            assert(form@.sizes =~= Seq::<(usize, u64)>::empty());
        }
        self.show(form);
    }
}

} // verus!
