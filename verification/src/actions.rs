//! The actions offered for the selected row, each enabled or dimmed with a
//! reason.

use vstd::prelude::*;

use crate::model::{
    act, deref_opt, Drive, action_views, is_set, is_set_spec, push, tool_ok, tool_ok_spec, Action, ActionId,
    ActionV, Block, Caps, Model, ResizeCap, RowKind, RowKindV,
};
use crate::select::{
    block_at, busy, cleartext_at, disk_pick, drive_at, raid_at, segments_for_spec,
};

verus! {

pub open spec fn none() -> Seq<char> {
    Seq::empty()
}

/// Benchmark and disk images, which need the device idle.
pub open spec fn image_actions_spec(b: Block) -> Seq<ActionV> {
    let idle = !busy(b);
    seq![
        act(ActionId::Benchmark, idle, "Unmount it first"@),
        act(ActionId::CreateImage, idle, "Unmount it first"@),
        act(
            ActionId::RestoreImage,
            idle && !b.read_only,
            if b.read_only {
                "Device is read-only"@
            } else {
                "Unmount it first"@
            },
        ),
    ]
}

/// Unlock while locked; the LUKS actions for any encrypted volume.
pub open spec fn luks_actions(bs: Seq<Block>, b: Block) -> Seq<ActionV> {
    let clear = cleartext_at(bs, b.path@);
    let mounted = b.mount_points@.len() > 0;
    let unlock = if b.encrypted && !is_set_spec(b.cleartext@) && clear is None {
        seq![act(ActionId::Unlock, true, none())]
    } else {
        Seq::empty()
    };
    let luks = if b.encrypted {
        seq![
            act(ActionId::Lock, clear is Some || is_set_spec(b.cleartext@), "Volume is locked"@),
            act(ActionId::ChangePassphrase, true, none()),
            act(ActionId::HeaderBackup, true, none()),
            act(ActionId::RestoreHeader, !mounted, "Unmount it first"@),
            act(ActionId::ConvertLuks, clear is None, "Lock the volume first"@),
        ]
    } else {
        Seq::empty()
    };
    unlock + luks
}

/// Why a check or repair cannot run: the missing tool, or else that the
/// filesystem is mounted.
pub open spec fn mounted_reason(tool: (bool, Seq<char>)) -> Seq<char> {
    if tool.0 {
        "Unmount it first"@
    } else {
        tool.1
    }
}

/// Mounting, labels, ownership and the check and repair tools of a
/// filesystem.
pub open spec fn fs_actions(caps: Caps, b: Block) -> Seq<ActionV> {
    let mounted = b.mount_points@.len() > 0;
    let check = tool_ok_spec(caps.check.lookup(b.id_type@));
    let repair = tool_ok_spec(caps.repair.lookup(b.id_type@));
    if b.filesystem {
        seq![
            act(ActionId::Mount, !mounted, "Already mounted"@),
            act(ActionId::Unmount, mounted, "Not mounted"@),
            act(ActionId::MountOptions, true, none()),
            act(ActionId::Label, true, none()),
            act(ActionId::TakeOwnership, mounted, "Mount the filesystem first"@),
            act(ActionId::Check, !mounted && check.0, mounted_reason(check)),
            act(ActionId::Repair, !mounted && repair.0, mounted_reason(repair)),
        ]
    } else {
        Seq::empty()
    }
}

pub open spec fn swap_actions(b: Block) -> Seq<ActionV> {
    if b.swap {
        seq![
            act(ActionId::SwapOn, !b.swap_active, "Swap is already on"@),
            act(ActionId::SwapOff, b.swap_active, "Swap is off"@),
            act(ActionId::MountOptions, true, none()),
            act(ActionId::Label, true, none()),
        ]
    } else {
        Seq::empty()
    }
}

pub open spec fn loop_actions(b: Block) -> Seq<ActionV> {
    if b.loopback {
        seq![act(ActionId::DetachLoop, b.mount_points@.len() == 0, "Unmount it first"@)]
    } else {
        Seq::empty()
    }
}

/// Format: refused while in use or read-only; a missing formatter for the
/// current type is only mentioned.
pub open spec fn format_action(caps: Caps, b: Block) -> ActionV {
    let mounted = b.mount_points@.len() > 0;
    let tool = if b.id_type@.len() == 0 {
        (true, none())
    } else {
        tool_ok_spec(caps.format.lookup(b.id_type@))
    };
    act(
        ActionId::Format,
        !b.read_only && !mounted && !b.swap_active,
        if mounted || b.swap_active {
            "Unmount it first"@
        } else if b.read_only {
            "Device is read-only"@
        } else if !tool.0 {
            "Formatting tools are missing"@
        } else {
            none()
        },
    )
}

/// Why resizing is dimmed.
pub open spec fn resize_reason(resize: Option<ResizeCap>, read_only: bool) -> Seq<char> {
    match resize {
        Some(c) if !c.available => if c.missing@.len() == 0 {
            "This filesystem cannot be resized"@
        } else {
            "install "@ + c.missing@
        },
        _ => if read_only {
            "Device is read-only"@
        } else {
            none()
        },
    }
}

/// Delete, edit and resize for a partition.
pub open spec fn part_actions(caps: Caps, b: Block) -> Seq<ActionV> {
    let mounted = b.mount_points@.len() > 0;
    let resize = caps.resize.lookup(b.id_type@);
    let can_resize = (b.filesystem && (resize is None || resize->0.available)) || !b.filesystem;
    if b.partition is Some {
        seq![
            act(ActionId::Delete, !mounted && !b.swap_active, "Unmount it first"@),
            act(ActionId::EditPartition, true, none()),
            act(ActionId::Resize, can_resize && !b.read_only, resize_reason(resize, b.read_only)),
        ]
    } else {
        Seq::empty()
    }
}

/// Everything offered for a volume, in menu order.
pub open spec fn volume_actions_spec(bs: Seq<Block>, caps: Caps, b: Block) -> Seq<ActionV> {
    luks_actions(bs, b) + fs_actions(caps, b) + swap_actions(b) + loop_actions(b) + seq![
        format_action(caps, b),
    ] + part_actions(caps, b) + image_actions_spec(b) + seq![act(ActionId::Rescan, true, none())]
}

/// The whole disk's part of a drive menu: a new partition needs a table
/// and free space; then the image actions.
pub open spec fn disk_section(m: Model, disk: Option<Block>) -> Seq<ActionV> {
    match disk {
        Some(d) => {
            let ss = segments_for_spec(m.blocks@, d.path@);
            let free = exists|i: int| 0 <= i < ss.len() && (#[trigger] ss[i]).free;
            let has_table = d.table is Some;
            seq![
                act(
                    ActionId::CreatePartition,
                    has_table && free,
                    if !has_table {
                        "Format the disk with a partition table first"@
                    } else {
                        "No free space"@
                    },
                ),
            ] + image_actions_spec(d)
        },
        None => Seq::empty(),
    }
}

/// The hardware part of a drive menu.
pub open spec fn hardware_section(drive: Option<Drive>) -> Seq<ActionV> {
    match drive {
        Some(dr) => {
            let smart = (dr.ata is Some && dr.ata->0.smart_supported) || dr.nvme;
            let pm = dr.ata is Some && dr.ata->0.pm_supported;
            seq![
                act(ActionId::Smart, smart, "This drive does not report SMART"@),
                act(ActionId::SmartTest, smart, "This drive does not report SMART"@),
                act(ActionId::DriveSettings, dr.ata is Some, "No ATA settings on this drive"@),
                act(ActionId::Standby, pm, "Power management is not available"@),
                act(ActionId::Wakeup, pm, "Power management is not available"@),
                act(
                    ActionId::SecureErase,
                    dr.ata is Some && dr.ata->0.secure_erase_minutes > 0,
                    "Secure erase is not available"@,
                ),
                act(ActionId::Sanitize, dr.nvme, "Not an NVMe controller"@),
                act(ActionId::PowerOff, dr.can_power_off, "This drive cannot be powered off"@),
                act(ActionId::Eject, dr.ejectable, "Nothing to eject"@),
            ]
        },
        None => Seq::empty(),
    }
}

/// What a drive row offers.
pub open spec fn drive_actions_spec(m: Model, drive: Seq<char>) -> Seq<ActionV> {
    let disk = disk_pick(m.blocks@, drive);
    let rescan = if disk is Some {
        seq![act(ActionId::Rescan, true, none())]
    } else {
        Seq::empty()
    };
    seq![act(ActionId::FormatDisk, disk is Some, "No whole-disk device"@)] + disk_section(m, disk)
        + hardware_section(drive_at(m.drives@, drive)) + seq![
        act(ActionId::AttachImage, true, none()),
        act(ActionId::RaidCreate, true, none()),
    ] + rescan
}

/// What a row offers, in menu order.
pub open spec fn actions_spec(m: Model, caps: Caps, row: RowKindV) -> Seq<ActionV> {
    match row {
        RowKindV::Shares => Seq::empty(),
        RowKindV::Raid { raid } => match raid_at(m.raids@, raid) {
            Some(r) => seq![
                act(ActionId::RaidStart, !r.running, "Already running"@),
                act(ActionId::RaidStop, r.running, "Array is stopped"@),
                act(ActionId::RaidDelete, true, none()),
                act(ActionId::Benchmark, r.running, "Array is stopped"@),
            ],
            None => Seq::empty(),
        },
        RowKindV::Free { .. } => seq![act(ActionId::CreatePartition, true, none())],
        RowKindV::Drive { drive } => drive_actions_spec(m, drive),
        RowKindV::Volume { block } => match block_at(m.blocks@, block) {
            Some(b) => volume_actions_spec(m.blocks@, caps, b),
            None => Seq::empty(),
        },
    }
}

fn image_actions(out: &mut Vec<Action>, block: &Block)
    ensures
        action_views(final(out)@) == action_views(old(out)@) + image_actions_spec(*block),
{
    let ghost pre = action_views(out@);
    let busy = !block.mount_points.is_empty() || block.swap_active;
    push(out, ActionId::Benchmark, !busy, "Unmount it first");
    push(out, ActionId::CreateImage, !busy, "Unmount it first");
    push(
        out,
        ActionId::RestoreImage,
        !busy && !block.read_only,
        if block.read_only {
            "Device is read-only"
        } else {
            "Unmount it first"
        },
    );
    assert(action_views(out@) =~= pre + image_actions_spec(*block));
}

fn luks_part(out: &mut Vec<Action>, model: &Model, block: &Block)
    ensures
        action_views(final(out)@) == action_views(old(out)@) + luks_actions(model.blocks@, *block),
{
    let ghost pre = action_views(out@);
    let mounted = !block.mount_points.is_empty();
    let clear = model.cleartext_of(block.path.as_str()).is_some();
    if block.encrypted && !is_set(block.cleartext.as_str()) && !clear {
        push(out, ActionId::Unlock, true, "");
    }
    if block.encrypted {
        push(out, ActionId::Lock, clear || is_set(block.cleartext.as_str()), "Volume is locked");
        push(out, ActionId::ChangePassphrase, true, "");
        push(out, ActionId::HeaderBackup, true, "");
        push(out, ActionId::RestoreHeader, !mounted, "Unmount it first");
        push(out, ActionId::ConvertLuks, !clear, "Lock the volume first");
    }
    assert(action_views(out@) =~= pre + luks_actions(model.blocks@, *block));
}

fn fs_part(out: &mut Vec<Action>, caps: &Caps, block: &Block)
    ensures
        action_views(final(out)@) == action_views(old(out)@) + fs_actions(*caps, *block),
{
    let ghost pre = action_views(out@);
    if block.filesystem {
        let mounted = !block.mount_points.is_empty();
        push(out, ActionId::Mount, !mounted, "Already mounted");
        push(out, ActionId::Unmount, mounted, "Not mounted");
        push(out, ActionId::MountOptions, true, "");
        push(out, ActionId::Label, true, "");
        push(out, ActionId::TakeOwnership, mounted, "Mount the filesystem first");
        let fs = block.id_type.as_str();
        let check = tool_ok(caps.check.get(fs));
        let why = if check.0 { "Unmount it first" } else { check.1.as_str() };
        push(out, ActionId::Check, !mounted && check.0, why);
        let repair = tool_ok(caps.repair.get(fs));
        let why = if repair.0 { "Unmount it first" } else { repair.1.as_str() };
        push(out, ActionId::Repair, !mounted && repair.0, why);
    }
    assert(action_views(out@) =~= pre + fs_actions(*caps, *block));
}

fn swap_loop_part(out: &mut Vec<Action>, block: &Block)
    ensures
        action_views(final(out)@) == action_views(old(out)@) + swap_actions(*block) + loop_actions(
            *block,
        ),
{
    let ghost pre = action_views(out@);
    if block.swap {
        push(out, ActionId::SwapOn, !block.swap_active, "Swap is already on");
        push(out, ActionId::SwapOff, block.swap_active, "Swap is off");
        push(out, ActionId::MountOptions, true, "");
        push(out, ActionId::Label, true, "");
    }
    if block.loopback {
        push(out, ActionId::DetachLoop, block.mount_points.is_empty(), "Unmount it first");
    }
    assert(action_views(out@) =~= pre + swap_actions(*block) + loop_actions(*block));
}

fn format_part(out: &mut Vec<Action>, caps: &Caps, block: &Block)
    ensures
        action_views(final(out)@) == action_views(old(out)@).push(format_action(*caps, *block)),
{
    let mounted = !block.mount_points.is_empty();
    let tool_usable = if block.id_type.as_str().is_empty() {
        true
    } else {
        tool_ok(caps.format.get(block.id_type.as_str())).0
    };
    push(
        out,
        ActionId::Format,
        !block.read_only && !mounted && !block.swap_active,
        if mounted || block.swap_active {
            "Unmount it first"
        } else if block.read_only {
            "Device is read-only"
        } else if !tool_usable {
            "Formatting tools are missing"
        } else {
            ""
        },
    );
}

fn partition_part(out: &mut Vec<Action>, caps: &Caps, block: &Block)
    ensures
        action_views(final(out)@) == action_views(old(out)@) + part_actions(*caps, *block),
{
    let ghost pre = action_views(out@);
    if block.partition.is_some() {
        let mounted = !block.mount_points.is_empty();
        push(out, ActionId::Delete, !mounted && !block.swap_active, "Unmount it first");
        push(out, ActionId::EditPartition, true, "");
        let resize = caps.resize.get(block.id_type.as_str());
        let usable = match resize {
            None => true,
            Some(c) => c.available,
        };
        let can_resize = block.filesystem && usable || !block.filesystem;
        let reason: String = match resize {
            Some(c) => if !c.available {
                if c.missing.as_str().is_empty() {
                    String::from_str("This filesystem cannot be resized")
                } else {
                    String::from_str("install ").concat(c.missing.as_str())
                }
            } else if block.read_only {
                String::from_str("Device is read-only")
            } else {
                String::new()
            },
            None => if block.read_only {
                String::from_str("Device is read-only")
            } else {
                String::new()
            },
        };
        push(out, ActionId::Resize, can_resize && !block.read_only, reason.as_str());
    }
    assert(action_views(out@) =~= pre + part_actions(*caps, *block));
}

fn volume_actions(out: &mut Vec<Action>, model: &Model, caps: &Caps, block: &Block)
    ensures
        action_views(final(out)@) == action_views(old(out)@) + volume_actions_spec(
            model.blocks@,
            *caps,
            *block,
        ),
{
    let ghost pre = action_views(out@);
    luks_part(out, model, block);
    fs_part(out, caps, block);
    swap_loop_part(out, block);
    format_part(out, caps, block);
    partition_part(out, caps, block);
    image_actions(out, block);
    push(out, ActionId::Rescan, true, "");
    assert(action_views(out@) =~= pre + volume_actions_spec(model.blocks@, *caps, *block));
}

fn disk_actions(out: &mut Vec<Action>, model: &Model, disk: Option<&Block>)
    ensures
        action_views(final(out)@) == action_views(old(out)@) + disk_section(*model, deref_opt(disk)),
{
    let ghost pre = action_views(out@);
    match disk {
        Some(d) => {
            let segs = model.segments_for(d.path.as_str());
            let mut i: usize = 0;
            while i < segs.len() && !segs[i].free
                invariant
                    i <= segs@.len(),
                    forall|j: int| 0 <= j < i ==> !(#[trigger] segs@[j]).free,
                decreases segs@.len() - i,
            {
                i = i + 1;
            }
            let free = i < segs.len();
            proof {
                let ss = segments_for_spec(model.blocks@, d.path@);
                assert(ss.len() == segs@.len());
                assert(forall|j: int| 0 <= j < ss.len() ==> ss[j].free == segs@[j].free);
                if free {
                    assert(ss[i as int].free);
                }
                assert(free == exists|j: int| 0 <= j < ss.len() && (#[trigger] ss[j]).free);
            }
            let has_table = d.table.is_some();
            push(
                out,
                ActionId::CreatePartition,
                has_table && free,
                if !has_table {
                    "Format the disk with a partition table first"
                } else {
                    "No free space"
                },
            );
            image_actions(out, d);
        },
        None => {},
    }
    assert(action_views(out@) =~= pre + disk_section(*model, deref_opt(disk)));
}

fn hardware_actions(out: &mut Vec<Action>, drive: Option<&Drive>)
    ensures
        action_views(final(out)@) == action_views(old(out)@) + hardware_section(deref_opt(drive)),
{
    let ghost pre = action_views(out@);
    match drive {
        Some(dr) => {
            let smart = match &dr.ata {
                Some(a) => a.smart_supported,
                None => false,
            } || dr.nvme;
            push(out, ActionId::Smart, smart, "This drive does not report SMART");
            push(out, ActionId::SmartTest, smart, "This drive does not report SMART");
            let has_ata = dr.ata.is_some();
            let pm = match &dr.ata {
                Some(a) => a.pm_supported,
                None => false,
            };
            let erase = match &dr.ata {
                Some(a) => a.secure_erase_minutes > 0,
                None => false,
            };
            push(out, ActionId::DriveSettings, has_ata, "No ATA settings on this drive");
            push(out, ActionId::Standby, pm, "Power management is not available");
            push(out, ActionId::Wakeup, pm, "Power management is not available");
            push(out, ActionId::SecureErase, erase, "Secure erase is not available");
            push(out, ActionId::Sanitize, dr.nvme, "Not an NVMe controller");
            push(out, ActionId::PowerOff, dr.can_power_off, "This drive cannot be powered off");
            push(out, ActionId::Eject, dr.ejectable, "Nothing to eject");
        },
        None => {},
    }
    assert(action_views(out@) =~= pre + hardware_section(deref_opt(drive)));
}

fn drive_actions(out: &mut Vec<Action>, model: &Model, drive: &str)
    ensures
        action_views(final(out)@) == action_views(old(out)@) + drive_actions_spec(*model, drive@),
{
    let ghost pre = action_views(out@);
    let drive_obj = model.drive(drive);
    let disk = model.disk_for_drive(drive);
    push(out, ActionId::FormatDisk, disk.is_some(), "No whole-disk device");
    disk_actions(out, model, disk);
    hardware_actions(out, drive_obj);
    push(out, ActionId::AttachImage, true, "");
    push(out, ActionId::RaidCreate, true, "");
    if disk.is_some() {
        push(out, ActionId::Rescan, true, "");
    }
    assert(action_views(out@) =~= pre + drive_actions_spec(*model, drive@));
}

impl Model {
    pub fn actions(&self, caps: &Caps, row: &RowKind) -> (r: Vec<Action>)
        ensures
            action_views(r@) == actions_spec(*self, *caps, row@),
    {
        let mut out: Vec<Action> = Vec::new();
        assert(action_views(out@) =~= Seq::<ActionV>::empty());
        match row {
            RowKind::Shares => {},
            RowKind::Raid { raid } => {
                match self.raid(raid.as_str()) {
                    Some(r) => {
                        push(&mut out, ActionId::RaidStart, !r.running, "Already running");
                        push(&mut out, ActionId::RaidStop, r.running, "Array is stopped");
                        push(&mut out, ActionId::RaidDelete, true, "");
                        push(&mut out, ActionId::Benchmark, r.running, "Array is stopped");
                    },
                    None => {},
                }
            },
            RowKind::Free { .. } => {
                push(&mut out, ActionId::CreatePartition, true, "");
            },
            RowKind::Drive { drive } => {
                drive_actions(&mut out, self, drive.as_str());
            },
            RowKind::Volume { block } => {
                match self.block(block.as_str()) {
                    Some(b) => volume_actions(&mut out, self, caps, b),
                    None => {},
                }
            },
        }
        assert(action_views(out@) =~= actions_spec(*self, *caps, row@));
        out
    }
}

} // verus!
