//! Turning a submitted form into an operation, a confirmation, a root job
//! or an error.
//!
//! Sizes typed into a form are read by the front end (they are decimal
//! numbers with units); `build` takes the size field's reading as given.

use vstd::prelude::*;

use crate::fstab::{plan_share, plan_spec, transform, transform_spec, Change, ChangeV, DraftV, ShareDraft};
use crate::model::{copy_item, copy_pairs, fstab_filter, fstab_name_spec, item_views, pair_views, resize_bit, type_code_for, type_code_for_spec, Block, Caps, ConfigItem, Model, ResizeCap};
use crate::op::{CreateReq, CreateReqV, FormatReq, FormatReqV, MountOptReq, MountOptReqV, Op, OpV};
use crate::privilege::{SudoJob, SudoJobV};
use crate::form::{set_bool, set_bool_spec, set_i32, set_i32_spec, val, val_spec, yes, yes_spec, FieldV, Form, FormId, FormIdV};
use crate::select::{block_at, drive_at, is_system_tree_spec};
use crate::text::{chars_of, contains, contains_chars, parse_i32, parse_i32_chars, same_str, slice_of, starts_with, starts_with_chars, views, words, words_chars};
use crate::util::{after_last_slash, kernel_name};

verus! {

pub enum Build {
    Op(Op),
    Confirm { title: String, body: String, op: Op, kernel: String, system: bool },
    Sudo(SudoJob),
    Error(String),
    /// The requested size is larger than the free space, which is given; the
    /// front end says so with the free space in readable units.
    TooBig(u64),
}

pub enum BuildV {
    Op(OpV),
    Confirm { title: Seq<char>, body: Seq<char>, op: OpV, kernel: Seq<char>, system: bool },
    Sudo(SudoJobV),
    Error(Seq<char>),
    TooBig(u64),
}

impl View for Build {
    type V = BuildV;

    open spec fn view(&self) -> BuildV {
        match self {
            Build::Op(op) => BuildV::Op(op@),
            Build::Confirm { title, body, op, kernel, system } => BuildV::Confirm {
                title: title@,
                body: body@,
                op: op@,
                kernel: kernel@,
                system: *system,
            },
            Build::Sudo(job) => BuildV::Sudo(job@),
            Build::Error(e) => BuildV::Error(e@),
            Build::TooBig(m) => BuildV::TooBig(*m),
        }
    }
}

/// A confirmation that takes the kernel name and system flag from the row.
pub open spec fn confirm(title: Seq<char>, body: Seq<char>, op: OpV) -> BuildV {
    BuildV::Confirm { title, body, op, kernel: Seq::empty(), system: false }
}

/// The label of the form's size field, whose reading `build` takes; empty
/// for a form without one.
pub open spec fn size_field_spec(id: FormIdV) -> Seq<char> {
    match id {
        FormIdV::Create { .. } => "Size (blank = all)"@,
        FormIdV::Resize { .. } => "New size"@,
        FormIdV::RaidCreate => "Chunk"@,
        _ => Seq::empty(),
    }
}

pub fn size_field(id: &FormId) -> (r: &'static str)
    ensures
        r@ == size_field_spec(id@),
{
    proof {
        reveal_strlit("");
    }
    match id {
        FormId::Create { .. } => "Size (blank = all)",
        FormId::Resize { .. } => "New size",
        FormId::RaidCreate => "Chunk",
        _ => "",
    }
}

// ---------------------------------------------------------------------------
// What each form builds
// ---------------------------------------------------------------------------

pub open spec fn format_spec(caps: Caps, path: Seq<char>, fs: Seq<FieldV>) -> BuildV {
    let kind = val_spec(fs, "Type"@);
    match caps.format.lookup(kind) {
        Some(t) if !t.available => BuildV::Error("install "@ + t.missing@),
        _ => confirm(
            "Format"@,
            "Formatting erases what is on this device."@,
            OpV::Format(
                FormatReqV {
                    path,
                    kind,
                    label: val_spec(fs, "Label"@),
                    erase: val_spec(fs, "Erase"@),
                    encrypt: yes_spec(fs, "Encrypt with LUKS2"@),
                    passphrase: val_spec(fs, "Passphrase"@),
                    take_ownership: yes_spec(fs, "Take ownership"@),
                },
            ),
        ),
    }
}

pub open spec fn create_spec(
    disk: Seq<char>,
    offset: u64,
    max: u64,
    table: Seq<char>,
    fs: Seq<FieldV>,
    size: Option<u64>,
) -> BuildV {
    match size {
        None => BuildV::Error("Could not read the size. Try 20G or max."@),
        Some(s) => if s != 0 && s > max {
            BuildV::TooBig(max)
        } else {
            let fstype = val_spec(fs, "Filesystem"@);
            BuildV::Op(
                OpV::CreatePartition(
                    CreateReqV {
                        disk,
                        offset,
                        size: s,
                        type_code: if fstype == "swap"@ {
                            type_code_for_spec(table, "Linux swap"@)
                        } else {
                            type_code_for_spec(table, val_spec(fs, "Partition type"@))
                        },
                        name: val_spec(fs, "Name"@),
                        fstype: if fstype == "none"@ {
                            Seq::empty()
                        } else {
                            fstype
                        },
                        label: val_spec(fs, "Label"@),
                        encrypt: yes_spec(fs, "Encrypt with LUKS2"@),
                        passphrase: val_spec(fs, "Passphrase"@),
                    },
                ),
            )
        },
    }
}

pub open spec fn allows_spec(c: ResizeCap, mounted: bool, grow: bool) -> bool {
    c.available && (c.mode & resize_bit(mounted, grow)) != 0
}

pub open spec fn resize_spec(
    caps: Caps,
    path: Seq<char>,
    current: u64,
    filesystem: bool,
    mounted: bool,
    fstype: Seq<char>,
    size: Option<u64>,
) -> BuildV {
    match size {
        None => BuildV::Error("Could not read the size."@),
        Some(n) => {
            let grow = n == 0 || n > current;
            match caps.resize.lookup(fstype) {
                Some(c) if filesystem && !allows_spec(c, mounted, grow) => BuildV::Error(
                    if c.missing@.len() == 0 {
                        "this filesystem cannot be resized that way"@
                    } else {
                        "install "@ + c.missing@
                    },
                ),
                _ => BuildV::Op(OpV::Resize { path, current, new_size: n, filesystem }),
            }
        },
    }
}

pub open spec fn mount_options_spec(m: Model, path: Seq<char>, fs: Seq<FieldV>) -> BuildV {
    match block_at(m.blocks@, path) {
        None => BuildV::Error("Device disappeared."@),
        Some(b) => {
            let existing = item_views(fstab_filter(b.config@));
            let dir = val_spec(fs, "Mount point"@);
            let opts = val_spec(fs, "Options"@);
            if !yes_spec(fs, "Mount at startup"@) {
                BuildV::Op(OpV::ClearFstab { path, items: existing })
            } else if !starts_with(dir, "/"@) {
                BuildV::Error("Mount point must be an absolute path."@)
            } else {
                BuildV::Op(
                    OpV::MountOptions(
                        MountOptReqV {
                            path,
                            existing,
                            fsname: fstab_name_spec(b, val_spec(fs, "Identify by"@) == "LABEL"@),
                            dir,
                            fstype: if b.id_type@.len() == 0 {
                                "auto"@
                            } else {
                                b.id_type@
                            },
                            opts: if opts.len() == 0 {
                                "defaults"@
                            } else {
                                opts
                            },
                            passno: match parse_i32(val_spec(fs, "fsck pass"@)) {
                                Some(n) => n,
                                None => 2,
                            },
                        },
                    ),
                )
            }
        },
    }
}

/// The flags with one bit cleared, then set when asked.
pub open spec fn with_bit(flags: u64, bit: u64, on: bool) -> u64 {
    let cleared = flags & !(1u64 << bit);
    if on {
        cleared | (1u64 << bit)
    } else {
        cleared
    }
}

/// MBR tables have a bootable flag; GPT ones the system, hidden, no
/// automount and read-only attribute bits.
pub open spec fn edit_flags(flags: u64, table: Seq<char>, fs: Seq<FieldV>) -> u64 {
    if table == "dos"@ {
        with_bit(flags, 7, yes_spec(fs, "Bootable"@))
    } else {
        with_bit(
            with_bit(
                with_bit(with_bit(flags, 0, yes_spec(fs, "System partition"@)), 62, yes_spec(fs, "Hidden"@)),
                63,
                yes_spec(fs, "Do not automount"@),
            ),
            60,
            yes_spec(fs, "Read-only"@),
        )
    }
}

pub open spec fn edit_partition_spec(m: Model, path: Seq<char>, table: Seq<char>, fs: Seq<FieldV>) -> BuildV {
    match block_at(m.blocks@, path) {
        None => BuildV::Error("Device disappeared."@),
        Some(b) => {
            let flags: u64 = match b.partition {
                Some(p) => p.flags,
                None => 0,
            };
            BuildV::Op(
                OpV::EditPartition {
                    path,
                    type_code: type_code_for_spec(table, val_spec(fs, "Type"@)),
                    name: val_spec(fs, "Name"@),
                    flags: edit_flags(flags, table, fs),
                },
            )
        },
    }
}

pub open spec fn drive_settings_spec(m: Model, path: Seq<char>, fs: Seq<FieldV>) -> BuildV {
    match drive_at(m.drives@, path) {
        None => BuildV::Error("Drive disappeared."@),
        Some(d) => {
            let p1 = set_i32_spec(pair_views(d.config@), "ata-pm-standby"@, val_spec(fs, "Standby seconds"@));
            let p2 = set_i32_spec(p1, "ata-apm-level"@, val_spec(fs, "APM level"@));
            let p3 = set_bool_spec(p2, "ata-write-cache-enabled"@, yes_spec(fs, "Write cache"@));
            let p4 = set_bool_spec(p3, "ata-read-lookahead-enabled"@, yes_spec(fs, "Read look-ahead"@));
            BuildV::Op(OpV::DriveConfig { path, pairs: p4 })
        },
    }
}

/// `str::trim_start_matches`: the prefix removed as often as it repeats.
pub open spec fn strip_all(s: Seq<char>, p: Seq<char>) -> Seq<char>
    decreases s.len(),
{
    if p.len() > 0 && starts_with(s, p) {
        strip_all(s.subrange(p.len() as int, s.len() as int), p)
    } else {
        s
    }
}

/// The object path of the first block with this kernel name.
pub open spec fn block_by_kernel(bs: Seq<Block>, kernel: Seq<char>) -> Option<Seq<char>> {
    match crate::model::first_where(
        bs,
        |b: Block| after_last_slash(crate::model::device_path_spec(b)) == kernel,
    ) {
        Some(b) => Some(b.path@),
        None => None,
    }
}

/// The array members named by kernel name (with or without `/dev/`), or
/// nothing when one of them is not in the list.
pub open spec fn raid_members(bs: Seq<Block>, names: Seq<Seq<char>>) -> Option<Seq<Seq<char>>>
    decreases names.len(),
{
    if names.len() == 0 {
        Some(Seq::empty())
    } else {
        match raid_members(bs, names.drop_last()) {
            None => None,
            Some(ds) => match block_by_kernel(bs, strip_all(names.last(), "/dev/"@)) {
                Some(p) => Some(ds.push(p)),
                None => None,
            },
        }
    }
}

/// Some member is part of the running system.
pub open spec fn any_system(bs: Seq<Block>, devices: Seq<Seq<char>>) -> bool {
    exists|i: int| 0 <= i < devices.len() && is_system_tree_spec(bs, #[trigger] devices[i])
}

pub open spec fn raid_spec(m: Model, fs: Seq<FieldV>, chunk: Option<u64>) -> BuildV {
    let name = val_spec(fs, "Name"@);
    let devices = match raid_members(m.blocks@, words(val_spec(fs, "Devices"@))) {
        Some(ds) => ds,
        None => Seq::empty(),
    };
    if name.len() == 0 {
        BuildV::Error("Give the array a name."@)
    } else if devices.len() < 2 {
        BuildV::Error("Name at least two devices that are visible in the list."@)
    } else {
        BuildV::Confirm {
            title: "Create RAID"@,
            body: "Creating an array erases every member device. Type raid to confirm."@,
            op: OpV::RaidCreate {
                devices,
                level: val_spec(fs, "Level"@),
                name,
                chunk: match chunk {
                    Some(c) => c,
                    None => 0,
                },
            },
            kernel: "raid"@,
            system: any_system(m.blocks@, devices),
        }
    }
}

/// The share form as a draft for `plan_share`.
pub open spec fn share_draft(fs: Seq<FieldV>, uid: u32, gid: u32) -> DraftV {
    DraftV {
        id: val_spec(fs, "Id"@),
        protocol: if val_spec(fs, "Protocol"@) == "custom"@ {
            val_spec(fs, "Type"@)
        } else {
            val_spec(fs, "Protocol"@)
        },
        source: val_spec(fs, "Source"@),
        mount_point: val_spec(fs, "Mount point"@),
        guest: yes_spec(fs, "Guest"@),
        username: val_spec(fs, "Username"@),
        password: val_spec(fs, "Password"@),
        credentials_file: val_spec(fs, "Credentials file"@),
        identity_file: val_spec(fs, "SSH identity"@),
        extra: val_spec(fs, "Extra options"@),
        netdev: yes_spec(fs, "_netdev"@),
        nofail: yes_spec(fs, "nofail"@),
        automount: yes_spec(fs, "Automount"@),
        idle_timeout: val_spec(fs, "Idle timeout"@),
        vers: val_spec(fs, "SMB version"@),
        uid,
        gid,
    }
}

/// A share is planned, checked for the reserved marker, and written into
/// the fstab text by a root job.
pub open spec fn share_build_spec(fs: Seq<FieldV>, uid: u32, gid: u32, fstab: Seq<char>) -> BuildV {
    match plan_spec(share_draft(fs, uid, gid)) {
        Err(e) => BuildV::Error(e),
        Ok(plan) => {
            let marked = contains(plan.entry_line, "DISKTUI_"@) || match plan.credentials {
                Some(c) => contains(c.contents, "DISKTUI_"@),
                None => false,
            };
            if marked {
                BuildV::Error("A field contains a reserved marker."@)
            } else {
                BuildV::Sudo(
                    SudoJobV::ApplyFstab {
                        contents: transform_spec(
                            fstab,
                            ChangeV::Upsert {
                                id: plan.id,
                                source: plan.source,
                                target: plan.target,
                                line: plan.entry_line,
                            },
                        ),
                        creds: plan.credentials,
                        mount: if yes_spec(fs, "Mount now"@) {
                            Some(plan.target)
                        } else {
                            None
                        },
                    },
                )
            }
        },
    }
}

/// What a submitted form builds. `size` is the reading of the form's size
/// field (see `size_field`); `None` when it could not be read.
pub open spec fn build_spec(
    fs: Seq<FieldV>,
    id: FormIdV,
    m: Model,
    caps: Caps,
    uid: u32,
    gid: u32,
    fstab: Seq<char>,
    size: Option<u64>,
) -> BuildV {
    match id {
        FormIdV::Format { path } => format_spec(caps, path, fs),
        FormIdV::FormatDisk { path } => format_spec(caps, path, fs),
        FormIdV::Create { disk, offset, max, table } => create_spec(disk, offset, max, table, fs, size),
        FormIdV::Resize { path, current, filesystem, mounted, fstype } => resize_spec(
            caps,
            path,
            current,
            filesystem,
            mounted,
            fstype,
            size,
        ),
        FormIdV::Label { path, swap } => BuildV::Op(
            OpV::SetLabel { path: path, label: val_spec(fs, "Label"@), swap },
        ),
        FormIdV::MountOptions { path } => mount_options_spec(m, path, fs),
        FormIdV::Unlock { path } => BuildV::Op(
            OpV::Unlock { path: path, passphrase: val_spec(fs, "Passphrase"@) },
        ),
        FormIdV::ChangePass { path } => if val_spec(fs, "New"@) != val_spec(fs, "Repeat"@) {
            BuildV::Error("The new passphrases do not match."@)
        } else {
            BuildV::Op(
                OpV::ChangePassphrase {
                    path: path,
                    old: val_spec(fs, "Current"@),
                    new: val_spec(fs, "New"@),
                },
            )
        },
        FormIdV::EditPartition { path, table } => edit_partition_spec(m, path, table, fs),
        FormIdV::Image { path, size: bytes, restore } => {
            let file = val_spec(fs, "Image file"@);
            if file.len() == 0 {
                BuildV::Error("Choose an image file."@)
            } else if restore {
                confirm(
                    "Restore image"@,
                    "Restoring overwrites the device."@,
                    OpV::Restore { path: path, file, size: bytes },
                )
            } else {
                BuildV::Op(OpV::Backup { path: path, file, size: bytes })
            }
        },
        FormIdV::Benchmark { path, size: bytes } => {
            let write = val_spec(fs, "Mode"@) == "write"@;
            let op = OpV::Benchmark { path: path, write, size: bytes };
            if write {
                confirm(
                    "Write benchmark"@,
                    "A write benchmark destroys the contents of the device."@,
                    op,
                )
            } else {
                BuildV::Op(op)
            }
        },
        FormIdV::DriveSettings { path } => drive_settings_spec(m, path, fs),
        FormIdV::RaidCreate => raid_spec(m, fs, size),
        FormIdV::Share => share_build_spec(fs, uid, gid, fstab),
        FormIdV::LoopAttach => {
            let file = val_spec(fs, "Image file"@);
            if file.len() == 0 {
                BuildV::Error("Choose an image file."@)
            } else {
                BuildV::Op(OpV::LoopSetup { file, read_only: yes_spec(fs, "Read only"@) })
            }
        },
        FormIdV::Header { path, restore } => {
            let file = val_spec(fs, "File"@);
            if file.len() == 0 {
                BuildV::Error("Choose a file."@)
            } else if restore {
                confirm(
                    "Restore header"@,
                    "Restoring a header replaces the LUKS header on the device."@,
                    OpV::RestoreHeader { path: path, file },
                )
            } else {
                BuildV::Op(OpV::HeaderBackup { path: path, file })
            }
        },
        FormIdV::SmartTest { path, nvme } => BuildV::Op(
            OpV::SmartTest { path: path, kind: val_spec(fs, "Test"@), nvme },
        ),
        FormIdV::Sanitize { path } => confirm(
            "NVMe sanitize"@,
            "Sanitize destroys all data on the controller and cannot be cancelled."@,
            OpV::Sanitize { path: path, action: val_spec(fs, "Action"@) },
        ),
        FormIdV::SecureErase { path } => confirm(
            "Secure erase"@,
            "Secure erase destroys all data on the drive."@,
            OpV::SecureErase { path: path, enhanced: yes_spec(fs, "Enhanced erase"@) },
        ),
        FormIdV::Convert { path } => BuildV::Op(
            OpV::ConvertLuks { path: path, version: val_spec(fs, "Version"@) },
        ),
    }
}


// ---------------------------------------------------------------------------
// Building
// ---------------------------------------------------------------------------

fn s(text: &str) -> (r: String)
    ensures
        r@ == text@,
{
    String::from_str(text)
}

fn build_format(caps: &Caps, path: &String, form: &Form) -> (r: Build)
    ensures
        r@ == format_spec(*caps, path@, form@.fields),
{
    let kind = val(form, "Type");
    match caps.format.get(kind) {
        Some(t) => {
            if !t.available {
                return Build::Error(s("install ").concat(t.missing.as_str()));
            }
        },
        None => {},
    }
    Build::Confirm {
        title: s("Format"),
        body: s("Formatting erases what is on this device."),
        op: Op::Format(
            FormatReq {
                path: path.clone(),
                kind: s(kind),
                label: s(val(form, "Label")),
                erase: s(val(form, "Erase")),
                encrypt: yes(form, "Encrypt with LUKS2"),
                passphrase: s(val(form, "Passphrase")),
                take_ownership: yes(form, "Take ownership"),
            },
        ),
        kernel: String::new(),
        system: false,
    }
}

fn build_create(disk: &String, offset: u64, max: u64, table: &String, form: &Form, size: Option<u64>) -> (r: Build)
    ensures
        r@ == create_spec(disk@, offset, max, table@, form@.fields, size),
{
    let n = match size {
        None => return Build::Error(s("Could not read the size. Try 20G or max.")),
        Some(n) => n,
    };
    if n != 0 && n > max {
        return Build::TooBig(max);
    }
    let fstype = val(form, "Filesystem");
    let type_code = if same_str(fstype, "swap") {
        type_code_for(table.as_str(), "Linux swap")
    } else {
        type_code_for(table.as_str(), val(form, "Partition type"))
    };
    Build::Op(
        Op::CreatePartition(
            CreateReq {
                disk: disk.clone(),
                offset,
                size: n,
                type_code,
                name: s(val(form, "Name")),
                fstype: if same_str(fstype, "none") {
                    String::new()
                } else {
                    s(fstype)
                },
                label: s(val(form, "Label")),
                encrypt: yes(form, "Encrypt with LUKS2"),
                passphrase: s(val(form, "Passphrase")),
            },
        ),
    )
}

fn build_resize(
    caps: &Caps,
    path: &String,
    current: u64,
    filesystem: bool,
    mounted: bool,
    fstype: &String,
    size: Option<u64>,
) -> (r: Build)
    ensures
        r@ == resize_spec(*caps, path@, current, filesystem, mounted, fstype@, size),
{
    let n = match size {
        None => return Build::Error(s("Could not read the size.")),
        Some(n) => n,
    };
    let grow = n == 0 || n > current;
    match caps.resize.get(fstype.as_str()) {
        Some(c) => {
            if filesystem && !c.allows(mounted, grow) {
                let why = if c.missing.as_str().is_empty() {
                    s("this filesystem cannot be resized that way")
                } else {
                    s("install ").concat(c.missing.as_str())
                };
                return Build::Error(why);
            }
        },
        None => {},
    }
    Build::Op(Op::Resize { path: path.clone(), current, new_size: n, filesystem })
}

fn fstab_copies(block: &Block) -> (r: Vec<ConfigItem>)
    ensures
        item_views(r@) == item_views(fstab_filter(block.config@)),
{
    let items = block.fstab_items();
    let ghost want = fstab_filter(block.config@);
    let mut r: Vec<ConfigItem> = Vec::new();
    let mut i: usize = 0;
    while i < items.len()
        invariant
            i <= items@.len(),
            items@.map_values(|c: &ConfigItem| *c) == want,
            item_views(r@) == item_views(want.subrange(0, i as int)),
        decreases items@.len() - i,
    {
        let ghost pre = r@;
        let c = copy_item(items[i]);
        assert(want[i as int] == *items@[i as int]);
        r.push(c);
        assert(item_views(r@) =~= item_views(pre).push(c@));
        assert(item_views(want.subrange(0, i + 1)) =~= item_views(want.subrange(0, i as int)).push(
            want[i as int]@,
        ));
        i = i + 1;
    }
    assert(want.subrange(0, want.len() as int) =~= want);
    r
}

fn build_mount_options(model: &Model, path: &String, form: &Form) -> (r: Build)
    ensures
        r@ == mount_options_spec(*model, path@, form@.fields),
{
    let block = match model.block(path.as_str()) {
        None => return Build::Error(s("Device disappeared.")),
        Some(b) => b,
    };
    let existing = fstab_copies(block);
    if !yes(form, "Mount at startup") {
        return Build::Op(Op::ClearFstab { path: path.clone(), items: existing });
    }
    let dir = val(form, "Mount point");
    let dv = chars_of(dir);
    let slash = chars_of("/");
    if !starts_with_chars(dv.as_slice(), slash.as_slice()) {
        return Build::Error(s("Mount point must be an absolute path."));
    }
    let by_label = same_str(val(form, "Identify by"), "LABEL");
    let fsname = block.fstab_name(by_label);
    let pass = chars_of(val(form, "fsck pass"));
    let passno: i32 = match parse_i32_chars(pass.as_slice()) {
        Some(n) => n,
        None => 2,
    };
    let opts = val(form, "Options");
    Build::Op(
        Op::MountOptions(
            MountOptReq {
                path: path.clone(),
                existing,
                fsname,
                dir: s(dir),
                fstype: if block.id_type.as_str().is_empty() {
                    s("auto")
                } else {
                    block.id_type.clone()
                },
                opts: if opts.is_empty() {
                    s("defaults")
                } else {
                    s(opts)
                },
                passno,
            },
        ),
    )
}

fn set_bit(flags: u64, bit: u64, on: bool) -> (r: u64)
    requires
        bit < 64,
    ensures
        r == with_bit(flags, bit, on),
{
    let cleared = flags & !(1u64 << bit);
    if on {
        cleared | (1u64 << bit)
    } else {
        cleared
    }
}

fn build_edit_partition(model: &Model, path: &String, table: &String, form: &Form) -> (r: Build)
    ensures
        r@ == edit_partition_spec(*model, path@, table@, form@.fields),
{
    let block = match model.block(path.as_str()) {
        None => return Build::Error(s("Device disappeared.")),
        Some(b) => b,
    };
    let flags0: u64 = match &block.partition {
        Some(p) => p.flags,
        None => 0,
    };
    let flags = if same_str(table.as_str(), "dos") {
        set_bit(flags0, 7, yes(form, "Bootable"))
    } else {
        let f1 = set_bit(flags0, 0, yes(form, "System partition"));
        let f2 = set_bit(f1, 62, yes(form, "Hidden"));
        let f3 = set_bit(f2, 63, yes(form, "Do not automount"));
        set_bit(f3, 60, yes(form, "Read-only"))
    };
    Build::Op(
        Op::EditPartition {
            path: path.clone(),
            type_code: type_code_for(table.as_str(), val(form, "Type")),
            name: s(val(form, "Name")),
            flags,
        },
    )
}

fn build_drive_settings(model: &Model, path: &String, form: &Form) -> (r: Build)
    ensures
        r@ == drive_settings_spec(*model, path@, form@.fields),
{
    let drive = match model.drive(path.as_str()) {
        None => return Build::Error(s("Drive disappeared.")),
        Some(d) => d,
    };
    let mut pairs = copy_pairs(&drive.config);
    set_i32(&mut pairs, "ata-pm-standby", val(form, "Standby seconds"));
    set_i32(&mut pairs, "ata-apm-level", val(form, "APM level"));
    set_bool(&mut pairs, "ata-write-cache-enabled", yes(form, "Write cache"));
    set_bool(&mut pairs, "ata-read-lookahead-enabled", yes(form, "Read look-ahead"));
    Build::Op(Op::DriveConfig { path: path.clone(), pairs })
}

fn strip_dev(w: &Vec<char>) -> (r: Vec<char>)
    ensures
        r@ == strip_all(w@, "/dev/"@),
{
    let p = chars_of("/dev/");
    proof {
        reveal_strlit("/dev/");
    }
    let mut cur = slice_of(w.as_slice(), 0, w.len());
    assert(cur@ =~= w@);
    while cur.len() >= p.len() && starts_with_chars(cur.as_slice(), p.as_slice())
        invariant
            p@ == "/dev/"@,
            p@.len() == 5,
            strip_all(w@, "/dev/"@) == strip_all(cur@, "/dev/"@),
        decreases cur@.len(),
    {
        cur = slice_of(cur.as_slice(), p.len(), cur.len());
    }
    cur
}

fn kernel_lookup(model: &Model, kernel: &Vec<char>) -> (r: Option<String>)
    ensures
        crate::privilege::opt_string_view(r) == block_by_kernel(model.blocks@, kernel@),
{
    let ghost f = |b: Block| after_last_slash(crate::model::device_path_spec(b)) == kernel@;
    let mut i: usize = 0;
    while i < model.blocks.len()
        invariant
            i <= model.blocks@.len(),
            f == (|b: Block| after_last_slash(crate::model::device_path_spec(b)) == kernel@),
            forall|j: int| 0 <= j < i ==> !f(#[trigger] model.blocks@[j]),
        decreases model.blocks@.len() - i,
    {
        let b = &model.blocks[i];
        let k = chars_of(kernel_name(b.device_path()));
        if crate::text::eq_chars(k.as_slice(), kernel.as_slice()) {
            proof {
                crate::model::lemma_first_at(model.blocks@, f, i as int);
            }
            return Some(b.path.clone());
        }
        i = i + 1;
    }
    proof {
        crate::model::lemma_first_none(model.blocks@, f);
    }
    None
}

proof fn lemma_members_none(bs: Seq<Block>, names: Seq<Seq<char>>, i: int)
    requires
        0 <= i <= names.len(),
        raid_members(bs, names.subrange(0, i)) is None,
    ensures
        raid_members(bs, names) is None,
    decreases names.len() - i,
{
    if i < names.len() {
        let n = names.subrange(0, i + 1);
        assert(n.drop_last() =~= names.subrange(0, i));
        lemma_members_none(bs, names, i + 1);
    } else {
        assert(names.subrange(0, i) =~= names);
    }
}

fn raid_devices(model: &Model, text: &str) -> (r: Vec<String>)
    ensures
        crate::op::string_views(r@) == match raid_members(model.blocks@, words(text@)) {
            Some(ds) => ds,
            None => Seq::empty(),
        },
{
    let t = chars_of(text);
    let ws = words_chars(t.as_slice());
    let ghost wv = views(ws@);
    let mut devs: Vec<String> = Vec::new();
    let mut i: usize = 0;
    while i < ws.len()
        invariant
            i <= ws@.len(),
            wv == views(ws@),
            wv == words(text@),
            raid_members(model.blocks@, wv.subrange(0, i as int)) == Some(
                crate::op::string_views(devs@),
            ),
        decreases ws@.len() - i,
    {
        let ghost n = wv.subrange(0, i + 1);
        assert(n.drop_last() =~= wv.subrange(0, i as int));
        assert(n.last() == ws@[i as int]@);
        let k = strip_dev(&ws[i]);
        match kernel_lookup(model, &k) {
            Some(p) => {
                let ghost pre = devs@;
                devs.push(p);
                assert(crate::op::string_views(devs@) =~= crate::op::string_views(pre).push(
                    devs@.last()@,
                ));
            },
            None => {
                proof {
                    lemma_members_none(model.blocks@, wv, i + 1);
                }
                return Vec::new();
            },
        }
        i = i + 1;
    }
    assert(wv.subrange(0, wv.len() as int) =~= wv);
    devs
}

fn build_raid(model: &Model, form: &Form, chunk: Option<u64>) -> (r: Build)
    ensures
        r@ == raid_spec(*model, form@.fields, chunk),
{
    let name = val(form, "Name");
    if name.is_empty() {
        return Build::Error(s("Give the array a name."));
    }
    let devices = raid_devices(model, val(form, "Devices"));
    if devices.len() < 2 {
        return Build::Error(s("Name at least two devices that are visible in the list."));
    }
    let ghost dv = crate::op::string_views(devices@);
    let mut system = false;
    let mut i: usize = 0;
    while i < devices.len() && !system
        invariant
            i <= devices@.len(),
            dv == crate::op::string_views(devices@),
            system ==> exists|j: int| 0 <= j < dv.len() && is_system_tree_spec(model.blocks@, #[trigger] dv[j]),
            !system ==> forall|j: int| 0 <= j < i ==> !is_system_tree_spec(model.blocks@, #[trigger] dv[j]),
        decreases devices@.len() - i,
    {
        assert(dv[i as int] == devices@[i as int]@);
        if model.is_system_tree(devices[i].as_str()) {
            system = true;
        }
        i = i + 1;
    }
    let c: u64 = match chunk {
        Some(c) => c,
        None => 0,
    };
    assert(system == any_system(model.blocks@, dv));
    let level = s(val(form, "Level"));
    let nm = s(name);
    assert(dv == match raid_members(model.blocks@, words(val_spec(form@.fields, "Devices"@))) {
            Some(ds) => ds,
            None => Seq::empty(),
        });
    Build::Confirm {
        title: s("Create RAID"),
        body: s("Creating an array erases every member device. Type raid to confirm."),
        op: Op::RaidCreate { devices, level, name: nm, chunk: c },
        kernel: s("raid"),
        system,
    }
}

pub fn share_build(form: &Form, uid: u32, gid: u32, fstab_text: &str) -> (r: Build)
    ensures
        r@ == share_build_spec(form@.fields, uid, gid, fstab_text@),
{
    let protocol = if same_str(val(form, "Protocol"), "custom") {
        s(val(form, "Type"))
    } else {
        s(val(form, "Protocol"))
    };
    let draft = ShareDraft {
        id: s(val(form, "Id")),
        protocol,
        source: s(val(form, "Source")),
        mount_point: s(val(form, "Mount point")),
        guest: yes(form, "Guest"),
        username: s(val(form, "Username")),
        password: s(val(form, "Password")),
        credentials_file: s(val(form, "Credentials file")),
        identity_file: s(val(form, "SSH identity")),
        extra: s(val(form, "Extra options")),
        netdev: yes(form, "_netdev"),
        nofail: yes(form, "nofail"),
        automount: yes(form, "Automount"),
        idle_timeout: s(val(form, "Idle timeout")),
        vers: s(val(form, "SMB version")),
        uid,
        gid,
    };
    assert(draft@ == share_draft(form@.fields, uid, gid));
    let plan = match plan_share(&draft) {
        Ok(p) => p,
        Err(e) => return Build::Error(e),
    };
    let marker = chars_of("DISKTUI_");
    let line = chars_of(plan.entry_line.as_str());
    let in_creds = match &plan.credentials {
        Some(c) => {
            let cv = chars_of(c.contents.as_str());
            contains_chars(cv.as_slice(), marker.as_slice())
        },
        None => false,
    };
    if contains_chars(line.as_slice(), marker.as_slice()) || in_creds {
        return Build::Error(s("A field contains a reserved marker."));
    }
    let change = Change::Upsert {
        id: plan.id.clone(),
        source: plan.source.clone(),
        target: plan.target.clone(),
        line: plan.entry_line.clone(),
    };
    let contents = transform(fstab_text, &change);
    let mount = if yes(form, "Mount now") {
        Some(plan.target.clone())
    } else {
        None
    };
    Build::Sudo(SudoJob::ApplyFstab { contents, creds: plan.credentials, mount })
}

pub fn build(
    form: &Form,
    model: &Model,
    caps: &Caps,
    uid: u32,
    gid: u32,
    fstab_text: &str,
    size: Option<u64>,
) -> (r: Build)
    ensures
        r@ == build_spec(form@.fields, form@.id, *model, *caps, uid, gid, fstab_text@, size),
{
    match &form.id {
        FormId::Format { path } => build_format(caps, path, form),
        FormId::FormatDisk { path } => build_format(caps, path, form),
        FormId::Create { disk, offset, max, table } => build_create(disk, *offset, *max, table, form, size),
        FormId::Resize { path, current, filesystem, mounted, fstype } => build_resize(
            caps,
            path,
            *current,
            *filesystem,
            *mounted,
            fstype,
            size,
        ),
        FormId::Label { path, swap } => Build::Op(
            Op::SetLabel { path: path.clone(), label: s(val(form, "Label")), swap: *swap },
        ),
        FormId::MountOptions { path } => build_mount_options(model, path, form),
        FormId::Unlock { path } => Build::Op(
            Op::Unlock { path: path.clone(), passphrase: s(val(form, "Passphrase")) },
        ),
        FormId::ChangePass { path } => {
            let new = val(form, "New");
            if !same_str(new, val(form, "Repeat")) {
                return Build::Error(s("The new passphrases do not match."));
            }
            Build::Op(
                Op::ChangePassphrase { path: path.clone(), old: s(val(form, "Current")), new: s(new) },
            )
        },
        FormId::EditPartition { path, table } => build_edit_partition(model, path, table, form),
        FormId::Image { path, size: bytes, restore } => {
            let file = val(form, "Image file");
            if file.is_empty() {
                return Build::Error(s("Choose an image file."));
            }
            if *restore {
                Build::Confirm {
                    title: s("Restore image"),
                    body: s("Restoring overwrites the device."),
                    op: Op::Restore { path: path.clone(), file: s(file), size: *bytes },
                    kernel: String::new(),
                    system: false,
                }
            } else {
                Build::Op(Op::Backup { path: path.clone(), file: s(file), size: *bytes })
            }
        },
        FormId::Benchmark { path, size: bytes } => {
            let write = same_str(val(form, "Mode"), "write");
            let op = Op::Benchmark { path: path.clone(), write, size: *bytes };
            if write {
                Build::Confirm {
                    title: s("Write benchmark"),
                    body: s("A write benchmark destroys the contents of the device."),
                    op,
                    kernel: String::new(),
                    system: false,
                }
            } else {
                Build::Op(op)
            }
        },
        FormId::DriveSettings { path } => build_drive_settings(model, path, form),
        FormId::RaidCreate => build_raid(model, form, size),
        FormId::Share => share_build(form, uid, gid, fstab_text),
        FormId::LoopAttach => {
            let file = val(form, "Image file");
            if file.is_empty() {
                return Build::Error(s("Choose an image file."));
            }
            Build::Op(Op::LoopSetup { file: s(file), read_only: yes(form, "Read only") })
        },
        FormId::Header { path, restore } => {
            let file = val(form, "File");
            if file.is_empty() {
                return Build::Error(s("Choose a file."));
            }
            if *restore {
                Build::Confirm {
                    title: s("Restore header"),
                    body: s("Restoring a header replaces the LUKS header on the device."),
                    op: Op::RestoreHeader { path: path.clone(), file: s(file) },
                    kernel: String::new(),
                    system: false,
                }
            } else {
                Build::Op(Op::HeaderBackup { path: path.clone(), file: s(file) })
            }
        },
        FormId::SmartTest { path, nvme } => Build::Op(
            Op::SmartTest { path: path.clone(), kind: s(val(form, "Test")), nvme: *nvme },
        ),
        FormId::Sanitize { path } => Build::Confirm {
            title: s("NVMe sanitize"),
            body: s("Sanitize destroys all data on the controller and cannot be cancelled."),
            op: Op::Sanitize { path: path.clone(), action: s(val(form, "Action")) },
            kernel: String::new(),
            system: false,
        },
        FormId::SecureErase { path } => Build::Confirm {
            title: s("Secure erase"),
            body: s("Secure erase destroys all data on the drive."),
            op: Op::SecureErase { path: path.clone(), enhanced: yes(form, "Enhanced erase") },
            kernel: String::new(),
            system: false,
        },
        FormId::Convert { path } => Build::Op(
            Op::ConvertLuks { path: path.clone(), version: s(val(form, "Version")) },
        ),
    }
}

} // verus!
