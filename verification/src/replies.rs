//! What the interface reports when an operation finishes, what a root job
//! reports, and how the theme list answers a key.

use vstd::prelude::*;

use crate::calls::creates_filesystem;
use crate::keys::Key;
use crate::op::{CreateReq, Op, OpV};
use crate::text::{same_str, trim, trim_str, string_from};

verus! {

/// What an operation's call gave back: a text (the mount point, the new
/// object, the size or amount in readable units), a yes/no answer, or
/// nothing.
pub enum Reply {
    Nothing,
    Text(String),
    Flag(bool),
}

pub enum ReplyV {
    Nothing,
    Text(Seq<char>),
    Flag(bool),
}

impl View for Reply {
    type V = ReplyV;

    open spec fn view(&self) -> ReplyV {
        match self {
            Reply::Nothing => ReplyV::Nothing,
            Reply::Text(t) => ReplyV::Text(t@),
            Reply::Flag(b) => ReplyV::Flag(*b),
        }
    }
}

pub open spec fn reply_text(r: ReplyV) -> Seq<char> {
    match r {
        ReplyV::Text(t) => t,
        _ => Seq::empty(),
    }
}

pub open spec fn reply_flag(r: ReplyV) -> bool {
    match r {
        ReplyV::Flag(b) => b,
        _ => false,
    }
}

/// The status line after an operation succeeded.
pub open spec fn done_text_spec(op: OpV, reply: ReplyV) -> Seq<char> {
    let t = reply_text(reply);
    let ok = reply_flag(reply);
    match op {
        OpV::Mount(_) => {
            "Mounted at "@ + t
        },
        OpV::Unmount { .. } => {
            "Unmounted."@
        },
        OpV::SetLabel { label, .. } => {
            "Label set to "@ + label + "."@
        },
        OpV::Format(req) => {
            "Formatted as "@ + req.kind + "."@
        },
        OpV::CreatePartition(req) => {
            if creates_filesystem(req) { "Partition created and formatted at "@ + t + "."@ } else { "Partition created at "@ + t + "."@ }
        },
        OpV::DeletePartition { .. } => {
            "Partition deleted."@
        },
        OpV::Resize { new_size, .. } => {
            "Resized to "@ + (if new_size == 0 { "maximum"@ } else { t }) + "."@
        },
        OpV::EditPartition { .. } => {
            "Partition updated."@
        },
        OpV::MountOptions(req) => {
            "fstab now mounts this volume at "@ + req.dir + "."@
        },
        OpV::ClearFstab { .. } => {
            "Removed the fstab entry."@
        },
        OpV::Check(_) => {
            if ok { "Filesystem is consistent."@ } else { "Filesystem reported problems."@ }
        },
        OpV::Repair(_) => {
            if ok { "Filesystem repaired."@ } else { "Repair finished, but the filesystem still reports problems."@ }
        },
        OpV::TakeOwnership(_) => {
            "Ownership updated."@
        },
        OpV::Unlock { .. } => {
            "Unlocked "@ + t + "."@
        },
        OpV::Lock(_) => {
            "Locked."@
        },
        OpV::ChangePassphrase { .. } => {
            "Passphrase changed."@
        },
        OpV::HeaderBackup { file, .. } => {
            "Header saved to "@ + file + "."@
        },
        OpV::RestoreHeader { .. } => {
            "LUKS header restored."@
        },
        OpV::ConvertLuks { version, .. } => {
            "Converted to "@ + version + "."@
        },
        OpV::ResizeLuks { .. } => {
            "LUKS container resized."@
        },
        OpV::SwapStart(_) => {
            "Swap enabled."@
        },
        OpV::SwapStop(_) => {
            "Swap disabled."@
        },
        OpV::LoopSetup { file, .. } => {
            "Attached "@ + file + "."@
        },
        OpV::LoopDelete(_) => {
            "Loop device detached."@
        },
        OpV::PowerOff(_) => {
            "Drive powered off."@
        },
        OpV::Eject(_) => {
            "Ejected."@
        },
        OpV::Standby(_) => {
            "Drive entering standby."@
        },
        OpV::Wakeup(_) => {
            "Drive waking up."@
        },
        OpV::DriveConfig { .. } => {
            "Drive settings saved."@
        },
        OpV::Smart { .. } => {
            "SMART data updated."@
        },
        OpV::SmartTest { kind, .. } => {
            kind + " self-test started."@
        },
        OpV::SmartAbort { .. } => {
            "Self-test aborted."@
        },
        OpV::SecureErase { .. } => {
            "Secure erase finished."@
        },
        OpV::Sanitize { action, .. } => {
            "NVMe sanitize ("@ + action + ") started. It cannot be cancelled."@
        },
        OpV::RaidCreate { .. } => {
            "RAID array created at "@ + t + "."@
        },
        OpV::RaidStart { .. } => {
            "RAID array started."@
        },
        OpV::RaidStop(_) => {
            "RAID array stopped."@
        },
        OpV::RaidDelete(_) => {
            "RAID array deleted."@
        },
        OpV::Benchmark { .. } => {
            "Benchmark finished, "@ + t + "."@
        },
        OpV::Backup { file, .. } => {
            "Image written to "@ + file + "."@
        },
        OpV::Restore { file, .. } => {
            "Restored "@ + file + "."@
        },
        OpV::Rescan(_) => {
            "Rescanned."@
        },
        OpV::CancelJob(_) => {
            "Cancel requested."@
        },
    }
}

fn s(text: &str) -> (r: String)
    ensures
        r@ == text@,
{
    String::from_str(text)
}

fn creates(req: &CreateReq) -> (r: bool)
    ensures
        r == creates_filesystem(req@),
{
    !req.fstype.as_str().is_empty() && !same_str(req.fstype.as_str(), "empty")
}

/// The status line after an operation succeeded.
pub fn done_text(op: &Op, reply: &Reply) -> (r: String)
    ensures
        r@ == done_text_spec(op@, reply@),
{
    let t: &str = match reply {
        Reply::Text(t) => t.as_str(),
        _ => {
            proof {
                reveal_strlit("");
            }
            ""
        },
    };
    let ok = match reply {
        Reply::Flag(b) => *b,
        _ => false,
    };
    proof {
        reveal_strlit("maximum");
        reveal_strlit("Resized to ");
        reveal_strlit(".");
        reveal_strlit("Resized to maximum.");
        assert("Resized to maximum."@ =~= "Resized to "@ + "maximum"@ + "."@);
    }
    match op {
        Op::Mount(_) => {
            s("Mounted at ").concat(t)
        },
        Op::Unmount { .. } => {
            s("Unmounted.")
        },
        Op::SetLabel { label, .. } => {
            s("Label set to ").concat(label.as_str()).concat(".")
        },
        Op::Format(req) => {
            s("Formatted as ").concat(req.kind.as_str()).concat(".")
        },
        Op::CreatePartition(req) => {
            if creates(req) { s("Partition created and formatted at ").concat(t).concat(".") } else { s("Partition created at ").concat(t).concat(".") }
        },
        Op::DeletePartition { .. } => {
            s("Partition deleted.")
        },
        Op::Resize { new_size, .. } => {
            if *new_size == 0 { s("Resized to maximum.") } else { s("Resized to ").concat(t).concat(".") }
        },
        Op::EditPartition { .. } => {
            s("Partition updated.")
        },
        Op::MountOptions(req) => {
            s("fstab now mounts this volume at ").concat(req.dir.as_str()).concat(".")
        },
        Op::ClearFstab { .. } => {
            s("Removed the fstab entry.")
        },
        Op::Check(_) => {
            if ok { s("Filesystem is consistent.") } else { s("Filesystem reported problems.") }
        },
        Op::Repair(_) => {
            if ok { s("Filesystem repaired.") } else { s("Repair finished, but the filesystem still reports problems.") }
        },
        Op::TakeOwnership(_) => {
            s("Ownership updated.")
        },
        Op::Unlock { .. } => {
            s("Unlocked ").concat(t).concat(".")
        },
        Op::Lock(_) => {
            s("Locked.")
        },
        Op::ChangePassphrase { .. } => {
            s("Passphrase changed.")
        },
        Op::HeaderBackup { file, .. } => {
            s("Header saved to ").concat(file.as_str()).concat(".")
        },
        Op::RestoreHeader { .. } => {
            s("LUKS header restored.")
        },
        Op::ConvertLuks { version, .. } => {
            s("Converted to ").concat(version.as_str()).concat(".")
        },
        Op::ResizeLuks { .. } => {
            s("LUKS container resized.")
        },
        Op::SwapStart(_) => {
            s("Swap enabled.")
        },
        Op::SwapStop(_) => {
            s("Swap disabled.")
        },
        Op::LoopSetup { file, .. } => {
            s("Attached ").concat(file.as_str()).concat(".")
        },
        Op::LoopDelete(_) => {
            s("Loop device detached.")
        },
        Op::PowerOff(_) => {
            s("Drive powered off.")
        },
        Op::Eject(_) => {
            s("Ejected.")
        },
        Op::Standby(_) => {
            s("Drive entering standby.")
        },
        Op::Wakeup(_) => {
            s("Drive waking up.")
        },
        Op::DriveConfig { .. } => {
            s("Drive settings saved.")
        },
        Op::Smart { .. } => {
            s("SMART data updated.")
        },
        Op::SmartTest { kind, .. } => {
            kind.clone().concat(" self-test started.")
        },
        Op::SmartAbort { .. } => {
            s("Self-test aborted.")
        },
        Op::SecureErase { .. } => {
            s("Secure erase finished.")
        },
        Op::Sanitize { action, .. } => {
            s("NVMe sanitize (").concat(action.as_str()).concat(") started. It cannot be cancelled.")
        },
        Op::RaidCreate { .. } => {
            s("RAID array created at ").concat(t).concat(".")
        },
        Op::RaidStart { .. } => {
            s("RAID array started.")
        },
        Op::RaidStop(_) => {
            s("RAID array stopped.")
        },
        Op::RaidDelete(_) => {
            s("RAID array deleted.")
        },
        Op::Benchmark { .. } => {
            s("Benchmark finished, ").concat(t).concat(".")
        },
        Op::Backup { file, .. } => {
            s("Image written to ").concat(file.as_str()).concat(".")
        },
        Op::Restore { file, .. } => {
            s("Restored ").concat(file.as_str()).concat(".")
        },
        Op::Rescan(_) => {
            s("Rescanned.")
        },
        Op::CancelJob(_) => {
            s("Cancel requested.")
        },
    }
}

// ---------------------------------------------------------------------------
// Root jobs
// ---------------------------------------------------------------------------

/// What a root job reports: its trimmed output when sudo succeeded, else
/// its trimmed error output, or the exit status when that is blank.
pub open spec fn sudo_result_spec(success: bool, stdout: Seq<char>, stderr: Seq<char>, status: Seq<char>) -> Result<Seq<char>, Seq<char>> {
    if success {
        Ok(trim(stdout))
    } else if trim(stderr).len() == 0 {
        Err("sudo exited with "@ + status)
    } else {
        Err(trim(stderr))
    }
}

pub fn sudo_result(success: bool, stdout: &str, stderr: &str, status: &str) -> (r: Result<String, String>)
    ensures
        match r {
            Ok(t) => sudo_result_spec(success, stdout@, stderr@, status@) == Ok::<Seq<char>, Seq<char>>(t@),
            Err(e) => sudo_result_spec(success, stdout@, stderr@, status@) == Err::<Seq<char>, Seq<char>>(e@),
        },
{
    if success {
        let o = trim_str(stdout);
        Ok(string_from(o.as_slice()))
    } else {
        let e = trim_str(stderr);
        if e.len() == 0 {
            Err(s("sudo exited with ").concat(status))
        } else {
            Err(string_from(e.as_slice()))
        }
    }
}

// ---------------------------------------------------------------------------
// The theme list
// ---------------------------------------------------------------------------

/// What a key does in the theme list.
pub enum ThemeStep {
    Close,
    Move(usize),
    Apply(usize),
    Stay,
}

/// Esc or `q` closes the list, `j`/Down and `k`/Up move within it, and
/// Enter applies the marked theme.
pub open spec fn theme_step_spec(index: usize, len: usize, key: Key) -> ThemeStep {
    match key {
        Key::Esc | Key::Char('q') => ThemeStep::Close,
        Key::Char('j') | Key::Down => ThemeStep::Move(crate::form::slide_spec(index, len, 1i32)),
        Key::Char('k') | Key::Up => ThemeStep::Move(crate::form::slide_spec(index, len, -1i32)),
        Key::Enter => if index < len {
            ThemeStep::Apply(index)
        } else {
            ThemeStep::Stay
        },
        _ => ThemeStep::Stay,
    }
}

pub fn theme_step(index: usize, len: usize, key: Key) -> (r: ThemeStep)
    requires
        index < usize::MAX,
    ensures
        r == theme_step_spec(index, len, key),
{
    match key {
        Key::Esc | Key::Char('q') => ThemeStep::Close,
        Key::Char('j') | Key::Down => ThemeStep::Move(crate::form::slide(index, len, 1)),
        Key::Char('k') | Key::Up => ThemeStep::Move(crate::form::slide(index, len, -1)),
        Key::Enter => if index < len {
            ThemeStep::Apply(index)
        } else {
            ThemeStep::Stay
        },
        _ => ThemeStep::Stay,
    }
}

/// Whether a theme can be applied: the live and custom themes need their
/// files; the error says what is missing.
pub open spec fn theme_check_spec(id: Seq<char>, has_omarchy: bool, has_custom: bool) -> Option<Seq<char>> {
    if id == "omarchy"@ && !has_omarchy {
        Some("Omarchy theme was not found."@)
    } else if id == "custom"@ && !has_custom {
        Some("No ~/.config/disktui/theme.toml yet."@)
    } else {
        None
    }
}

pub fn theme_check(id: &str, has_omarchy: bool, has_custom: bool) -> (r: Option<String>)
    ensures
        match r {
            Some(e) => theme_check_spec(id@, has_omarchy, has_custom) == Some(e@),
            None => theme_check_spec(id@, has_omarchy, has_custom) is None,
        },
{
    if same_str(id, "omarchy") && !has_omarchy {
        Some(s("Omarchy theme was not found."))
    } else if same_str(id, "custom") && !has_custom {
        Some(s("No ~/.config/disktui/theme.toml yet."))
    } else {
        None
    }
}

} // verus!
