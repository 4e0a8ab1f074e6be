//! Disk objects and which actions apply to the current selection.
//!
//! Destructive work is not refused here; the confirm dialog stands between the user and it.
//! This module only decides what is possible and why something is dimmed.

use vstd::prelude::*;
use vstd::string::*;

use crate::text::{
    chars_of, dec, dec_chars, eq_chars, eq_str, join, join_chars, lower_chars, lower_seq, push_all,
    push_str, same_str, slice_of, starts_with, starts_with_chars, string_from, trim, words,
    words_chars,
};
use crate::util::{after_last_slash, c_string, kernel_name, last_slash_end, lossy_utf8, before_nul};

verus! {

pub const MIB: u64 = 1048576;

// ---------------------------------------------------------------------------
// Objects reported by UDisks
// ---------------------------------------------------------------------------

#[derive(Clone, Debug)]
pub struct Model {
    pub drives: Vec<Drive>,
    pub blocks: Vec<Block>,
    pub raids: Vec<Raid>,
    pub jobs: Vec<Job>,
}

#[derive(Clone, Debug)]
pub struct Drive {
    pub path: String,
    pub vendor: String,
    pub model: String,
    pub revision: String,
    pub serial: String,
    pub size: u64,
    pub connection: String,
    pub media: String,
    pub removable: bool,
    pub ejectable: bool,
    pub optical: bool,
    pub can_power_off: bool,
    pub sort_key: String,
    pub rotation: i32,
    pub config: Vec<(String, PropVal)>,
    pub ata: Option<Ata>,
    pub nvme: bool,
    pub nvme_path: String,
}

#[derive(Clone, Debug, Default)]
pub struct Ata {
    pub smart_supported: bool,
    pub smart_enabled: bool,
    pub smart_failing: bool,
    pub pm_supported: bool,
    pub apm_supported: bool,
    pub write_cache_supported: bool,
    pub write_cache_enabled: bool,
    pub lookahead_supported: bool,
    pub lookahead_enabled: bool,
    pub secure_erase_minutes: i32,
    pub secure_erase_enhanced_minutes: i32,
    pub security_frozen: bool,
}

#[derive(Clone, Debug)]
pub struct Block {
    pub path: String,
    pub device: String,
    pub preferred: String,
    pub id_usage: String,
    pub id_type: String,
    pub id_label: String,
    pub id_uuid: String,
    pub size: u64,
    pub read_only: bool,
    pub hint_system: bool,
    pub hint_ignore: bool,
    pub drive: String,
    pub crypto_backing: String,
    pub mdraid: String,
    pub mdraid_member: String,
    pub symlinks: Vec<String>,
    pub partition: Option<Partition>,
    pub table: Option<PartTable>,
    pub filesystem: bool,
    pub mount_points: Vec<String>,
    pub swap: bool,
    pub swap_active: bool,
    pub encrypted: bool,
    pub cleartext: String,
    pub hint_encryption: String,
    pub loopback: bool,
    pub backing_file: String,
    pub loop_autoclear: bool,
    pub config: Vec<ConfigItem>,
}

#[derive(Clone, Debug)]
pub struct Partition {
    pub number: u32,
    pub type_code: String,
    pub name: String,
    pub flags: u64,
    pub offset: u64,
    pub size: u64,
    pub uuid: String,
    pub table: String,
    pub container: bool,
    pub contained: bool,
}

#[derive(Clone, Debug)]
pub struct PartTable {
    pub kind: String,
}

#[derive(Clone, Debug)]
pub struct ConfigItem {
    pub kind: String,
    pub fields: Vec<(String, PropVal)>,
}

/// An MD RAID array. The sync fraction is kept as the bits of the `f64`
/// that UDisks reports (`f64::to_bits`); nothing here computes with it.
#[derive(Clone, Debug)]
pub struct Raid {
    pub path: String,
    pub uuid: String,
    pub name: String,
    pub level: String,
    pub size: u64,
    pub running: bool,
    pub degraded: bool,
    pub sync_action: String,
    pub sync_completed_bits: u64,
    pub members: Vec<String>,
}

/// A UDisks job. The progress fraction is kept as the bits of the `f64`
/// (`f64::to_bits`); nothing here computes with it.
#[derive(Clone, Debug)]
pub struct Job {
    pub path: String,
    pub operation: String,
    pub progress_bits: u64,
    pub progress_valid: bool,
    pub cancelable: bool,
    pub objects: Vec<String>,
}

/// Values we can round-trip back into an UDisks configuration dict.
#[derive(Clone, Debug)]
pub enum PropVal {
    Bool(bool),
    I32(i32),
    U32(u32),
    U64(u64),
    I64(i64),
    Str(String),
    Bytes(Vec<u8>),
    Path(String),
}

// ---------------------------------------------------------------------------
// Tool capabilities
// ---------------------------------------------------------------------------

/// Entries keyed by filesystem type; the first entry with a key is the one
/// that counts, and `insert` keeps one entry per key.
#[derive(Clone, Debug)]
pub struct Table<T> {
    pub entries: Vec<(String, T)>,
}

pub open spec fn table_lookup<T>(es: Seq<(String, T)>, key: Seq<char>) -> Option<T>
    decreases es.len(),
{
    if es.len() == 0 {
        None
    } else if es[0].0@ == key {
        Some(es[0].1)
    } else {
        table_lookup(es.drop_first(), key)
    }
}

proof fn lemma_lookup_index<T>(es: Seq<(String, T)>, key: Seq<char>, i: int)
    requires
        0 <= i < es.len(),
        es[i].0@ == key,
        forall|j: int| 0 <= j < i ==> es[j].0@ != key,
    ensures
        table_lookup(es, key) == Some(es[i].1),
    decreases i,
{
    if i > 0 {
        let r = es.drop_first();
        assert forall|j: int| 0 <= j < i - 1 implies r[j].0@ != key by {
            assert(r[j] == es[j + 1]);
        }
        lemma_lookup_index(r, key, i - 1);
    }
}

proof fn lemma_lookup_none<T>(es: Seq<(String, T)>, key: Seq<char>)
    requires
        forall|j: int| 0 <= j < es.len() ==> es[j].0@ != key,
    ensures
        table_lookup(es, key) is None,
    decreases es.len(),
{
    if es.len() > 0 {
        let r = es.drop_first();
        assert forall|j: int| 0 <= j < r.len() implies r[j].0@ != key by {
            assert(r[j] == es[j + 1]);
        }
        lemma_lookup_none(r, key);
    }
}

/// No key occurs twice among the entries.
pub open spec fn keys_unique<T>(es: Seq<(String, T)>) -> bool {
    forall|i: int, j: int| 0 <= i < j < es.len() ==> es[i].0@ != es[j].0@
}

impl<T> Table<T> {
    pub open spec fn lookup(&self, key: Seq<char>) -> Option<T> {
        table_lookup(self.entries@, key)
    }

    /// The invariant of a table: one entry per key.
    pub open spec fn wf(&self) -> bool {
        keys_unique(self.entries@)
    }

    pub fn new() -> (t: Self)
        ensures
            t.entries@.len() == 0,
            t.wf(),
    {
        Table { entries: Vec::new() }
    }

    fn position(&self, key: &str) -> (r: Option<usize>)
        ensures
            match r {
                Some(i) => i < self.entries@.len() && self.entries@[i as int].0@ == key@ && forall|
                    j: int,
                | 0 <= j < i ==> self.entries@[j].0@ != key@,
                None => forall|j: int| 0 <= j < self.entries@.len() ==> self.entries@[j].0@ != key@,
            },
    {
        let k = chars_of(key);
        let mut i: usize = 0;
        while i < self.entries.len()
            invariant
                k@ == key@,
                i <= self.entries@.len(),
                forall|j: int| 0 <= j < i ==> self.entries@[j].0@ != key@,
            decreases self.entries@.len() - i,
        {
            let e = chars_of(self.entries[i].0.as_str());
            if eq_chars(e.as_slice(), k.as_slice()) {
                return Some(i);
            }
            i = i + 1;
        }
        None
    }

    /// `HashMap::get`.
    pub fn get(&self, key: &str) -> (r: Option<&T>)
        ensures
            match r {
                Some(v) => self.lookup(key@) == Some(*v),
                None => self.lookup(key@) is None,
            },
    {
        match self.position(key) {
            Some(i) => {
                proof {
                    lemma_lookup_index(self.entries@, key@, i as int);
                }
                Some(&self.entries[i].1)
            },
            None => {
                proof {
                    lemma_lookup_none(self.entries@, key@);
                }
                None
            },
        }
    }

    /// `HashMap::insert`: the key now maps to `value`; every other key keeps
    /// its entry. Returns the value that was replaced.
    pub fn insert(&mut self, key: String, value: T) -> (r: Option<T>)
        ensures
            final(self).lookup(key@) == Some(value),
            forall|k: Seq<char>| k != key@ ==> final(self).lookup(k) == old(self).lookup(k),
            r == old(self).lookup(key@),
            old(self).wf() ==> final(self).wf(),
    {
        let ghost kv = key@;
        match self.position(key.as_str()) {
            Some(i) => {
                proof {
                    lemma_lookup_index(self.entries@, kv, i as int);
                }
                let ghost before = self.entries@;
                let old_entry = self.entries.remove(i);
                self.entries.insert(i, (key, value));
                assert(self.entries@ =~= before.update(i as int, self.entries@[i as int]));
                assert(self.entries@[i as int].0@ == before[i as int].0@);
                assert(keys_unique(before) ==> keys_unique(self.entries@)) by {
                    if keys_unique(before) {
                        assert forall|a: int, b: int| 0 <= a < b < self.entries@.len() implies
                            self.entries@[a].0@ != self.entries@[b].0@ by {
                            assert(self.entries@[a].0@ == before[a].0@);
                            assert(self.entries@[b].0@ == before[b].0@);
                        }
                    }
                }
                proof {
                    lemma_lookup_index(self.entries@, kv, i as int);
                    assert forall|k: Seq<char>| k != kv implies table_lookup(self.entries@, k)
                        == table_lookup(before, k) by {
                        lemma_lookup_update(before, i as int, self.entries@[i as int], k);
                    }
                }
                Some(old_entry.1)
            },
            None => {
                proof {
                    lemma_lookup_none(self.entries@, kv);
                }
                let ghost before = self.entries@;
                self.entries.push((key, value));
                proof {
                    assert(self.entries@ == before.push(self.entries@.last()));
                    assert(keys_unique(before) ==> keys_unique(self.entries@)) by {
                        if keys_unique(before) {
                            assert forall|a: int, b: int| 0 <= a < b < self.entries@.len() implies
                                self.entries@[a].0@ != self.entries@[b].0@ by {
                                if b == before.len() {
                                    assert(self.entries@[a] == before[a]);
                                } else {
                                    assert(self.entries@[a] == before[a]);
                                    assert(self.entries@[b] == before[b]);
                                }
                            }
                        }
                    }
                    lemma_lookup_index(self.entries@, kv, before.len() as int);
                    assert forall|k: Seq<char>| k != kv implies table_lookup(self.entries@, k)
                        == table_lookup(before, k) by {
                        lemma_lookup_push(before, self.entries@.last(), k);
                    }
                }
                None
            },
        }
    }
}

proof fn lemma_lookup_update<T>(es: Seq<(String, T)>, i: int, e: (String, T), k: Seq<char>)
    requires
        0 <= i < es.len(),
        e.0@ == es[i].0@,
        k != e.0@,
    ensures
        table_lookup(es.update(i, e), k) == table_lookup(es, k),
    decreases es.len(),
{
    if i > 0 {
        let r = es.drop_first();
        lemma_lookup_update(r, i - 1, e, k);
        assert(es.update(i, e).drop_first() =~= r.update(i - 1, e));
    } else {
        assert(es.update(0, e).drop_first() =~= es.drop_first());
    }
}

proof fn lemma_lookup_push<T>(es: Seq<(String, T)>, e: (String, T), k: Seq<char>)
    requires
        k != e.0@,
    ensures
        table_lookup(es.push(e), k) == table_lookup(es, k),
    decreases es.len(),
{
    let p = es.push(e);
    if es.len() > 0 {
        lemma_lookup_push(es.drop_first(), e, k);
        assert(p[0] == es[0]);
        assert(p.drop_first() =~= es.drop_first().push(e));
        if es[0].0@ == k {
            assert(table_lookup(p, k) == Some(es[0].1));
        } else {
            assert(table_lookup(p, k) == table_lookup(p.drop_first(), k));
            assert(table_lookup(es, k) == table_lookup(es.drop_first(), k));
        }
    } else {
        assert(p[0] == e);
        assert(p.drop_first() =~= Seq::<(String, T)>::empty());
        assert(table_lookup(p, k) == table_lookup(p.drop_first(), k));
        assert(table_lookup(p.drop_first(), k) is None);
    }
}

impl<T> Default for Table<T> {
    fn default() -> (t: Self)
        ensures
            t.entries@.len() == 0,
            t.wf(),
    {
        Table { entries: Vec::new() }
    }
}

#[derive(Clone, Debug)]
pub struct Caps {
    pub format: Table<Tool>,
    pub resize: Table<ResizeCap>,
    pub check: Table<Tool>,
    pub repair: Table<Tool>,
}

#[derive(Clone, Debug)]
pub struct Tool {
    pub available: bool,
    pub missing: String,
}

#[derive(Clone, Debug)]
pub struct ResizeCap {
    pub available: bool,
    pub mode: u32,
    pub missing: String,
}

/// The UDisks resize-mode bit for the situation: offline shrink 2, offline
/// grow 4, online shrink 8, online grow 16.
pub open spec fn resize_bit(mounted: bool, grow: bool) -> u32 {
    if !mounted && !grow {
        2
    } else if !mounted && grow {
        4
    } else if mounted && !grow {
        8
    } else {
        16
    }
}

impl ResizeCap {
    pub fn allows(&self, mounted: bool, grow: bool) -> (r: bool)
        ensures
            r == (self.available && (self.mode & resize_bit(mounted, grow)) != 0),
    {
        if !self.available {
            return false;
        }
        let bit: u32 = match (mounted, grow) {
            (false, false) => 2,
            (false, true) => 4,
            (true, false) => 8,
            (true, true) => 16,
        };
        self.mode & bit != 0
    }
}


// ---------------------------------------------------------------------------
// Actions
// ---------------------------------------------------------------------------

#[derive(Clone, Copy, Debug, PartialEq, Eq, Structural)]
pub enum ActionId {
    Mount,
    Unmount,
    MountOptions,
    Label,
    Format,
    FormatDisk,
    Delete,
    CreatePartition,
    Resize,
    EditPartition,
    Check,
    Repair,
    TakeOwnership,
    Unlock,
    Lock,
    ChangePassphrase,
    HeaderBackup,
    RestoreHeader,
    ConvertLuks,
    SwapOn,
    SwapOff,
    Smart,
    SmartTest,
    Benchmark,
    CreateImage,
    RestoreImage,
    DriveSettings,
    Standby,
    Wakeup,
    PowerOff,
    Eject,
    AttachImage,
    DetachLoop,
    SecureErase,
    Sanitize,
    RaidCreate,
    RaidStart,
    RaidStop,
    RaidDelete,
    Rescan,
}

/// The shortcut key of an action; empty when it has none.
pub open spec fn key_spec(id: ActionId) -> Seq<char> {
    match id {
        ActionId::Mount | ActionId::Unlock | ActionId::SwapOn => "m"@,
        ActionId::Unmount | ActionId::SwapOff => "u"@,
        ActionId::MountOptions => "e"@,
        ActionId::Label => "l"@,
        ActionId::Format | ActionId::FormatDisk => "f"@,
        ActionId::Delete | ActionId::RaidDelete => "d"@,
        ActionId::CreatePartition => "n"@,
        ActionId::Resize => "r"@,
        ActionId::EditPartition => "P"@,
        ActionId::Check | ActionId::Repair => ""@,
        ActionId::Smart | ActionId::SmartTest => "s"@,
        ActionId::Benchmark => "b"@,
        ActionId::CreateImage => "i"@,
        ActionId::RestoreImage => "I"@,
        ActionId::PowerOff => "p"@,
        ActionId::AttachImage => "a"@,
        ActionId::DriveSettings => "g"@,
        ActionId::Eject => "E"@,
        ActionId::Sanitize | ActionId::SecureErase => "X"@,
        _ => ""@,
    }
}

pub open spec fn label_spec(id: ActionId) -> Seq<char> {
    match id {
        ActionId::Mount => "Mount"@,
        ActionId::Unmount => "Unmount"@,
        ActionId::MountOptions => "Mount options"@,
        ActionId::Label => "Edit label"@,
        ActionId::Format => "Format"@,
        ActionId::FormatDisk => "Format disk"@,
        ActionId::Delete => "Delete partition"@,
        ActionId::CreatePartition => "Create partition"@,
        ActionId::Resize => "Resize"@,
        ActionId::EditPartition => "Edit partition"@,
        ActionId::Check => "Check filesystem"@,
        ActionId::Repair => "Repair filesystem"@,
        ActionId::TakeOwnership => "Take ownership"@,
        ActionId::Unlock => "Unlock"@,
        ActionId::Lock => "Lock"@,
        ActionId::ChangePassphrase => "Change passphrase"@,
        ActionId::HeaderBackup => "Back up LUKS header"@,
        ActionId::RestoreHeader => "Restore LUKS header"@,
        ActionId::ConvertLuks => "Convert LUKS version"@,
        ActionId::SwapOn => "Enable swap"@,
        ActionId::SwapOff => "Disable swap"@,
        ActionId::Smart => "SMART data"@,
        ActionId::SmartTest => "SMART self-test"@,
        ActionId::Benchmark => "Benchmark"@,
        ActionId::CreateImage => "Create disk image"@,
        ActionId::RestoreImage => "Restore disk image"@,
        ActionId::DriveSettings => "Drive settings"@,
        ActionId::Standby => "Standby"@,
        ActionId::Wakeup => "Wake up"@,
        ActionId::PowerOff => "Power off"@,
        ActionId::Eject => "Eject"@,
        ActionId::AttachImage => "Attach disk image"@,
        ActionId::DetachLoop => "Detach loop"@,
        ActionId::SecureErase => "Secure erase"@,
        ActionId::Sanitize => "NVMe sanitize"@,
        ActionId::RaidCreate => "Create RAID"@,
        ActionId::RaidStart => "Start RAID"@,
        ActionId::RaidStop => "Stop RAID"@,
        ActionId::RaidDelete => "Delete RAID"@,
        ActionId::Rescan => "Rescan"@,
    }
}

impl ActionId {
    pub fn key(self) -> (r: &'static str)
        ensures
            r@ == key_spec(self),
    {
        match self {
            ActionId::Mount | ActionId::Unlock | ActionId::SwapOn => "m",
            ActionId::Unmount | ActionId::SwapOff => "u",
            ActionId::MountOptions => "e",
            ActionId::Label => "l",
            ActionId::Format | ActionId::FormatDisk => "f",
            ActionId::Delete | ActionId::RaidDelete => "d",
            ActionId::CreatePartition => "n",
            ActionId::Resize => "r",
            ActionId::EditPartition => "P",
            ActionId::Check | ActionId::Repair => "",
            ActionId::Smart | ActionId::SmartTest => "s",
            ActionId::Benchmark => "b",
            ActionId::CreateImage => "i",
            ActionId::RestoreImage => "I",
            ActionId::PowerOff => "p",
            ActionId::AttachImage => "a",
            ActionId::DriveSettings => "g",
            ActionId::Eject => "E",
            ActionId::Sanitize | ActionId::SecureErase => "X",
            _ => "",
        }
    }

    pub fn label(self) -> (r: &'static str)
        ensures
            r@ == label_spec(self),
    {
        match self {
            ActionId::Mount => "Mount",
            ActionId::Unmount => "Unmount",
            ActionId::MountOptions => "Mount options",
            ActionId::Label => "Edit label",
            ActionId::Format => "Format",
            ActionId::FormatDisk => "Format disk",
            ActionId::Delete => "Delete partition",
            ActionId::CreatePartition => "Create partition",
            ActionId::Resize => "Resize",
            ActionId::EditPartition => "Edit partition",
            ActionId::Check => "Check filesystem",
            ActionId::Repair => "Repair filesystem",
            ActionId::TakeOwnership => "Take ownership",
            ActionId::Unlock => "Unlock",
            ActionId::Lock => "Lock",
            ActionId::ChangePassphrase => "Change passphrase",
            ActionId::HeaderBackup => "Back up LUKS header",
            ActionId::RestoreHeader => "Restore LUKS header",
            ActionId::ConvertLuks => "Convert LUKS version",
            ActionId::SwapOn => "Enable swap",
            ActionId::SwapOff => "Disable swap",
            ActionId::Smart => "SMART data",
            ActionId::SmartTest => "SMART self-test",
            ActionId::Benchmark => "Benchmark",
            ActionId::CreateImage => "Create disk image",
            ActionId::RestoreImage => "Restore disk image",
            ActionId::DriveSettings => "Drive settings",
            ActionId::Standby => "Standby",
            ActionId::Wakeup => "Wake up",
            ActionId::PowerOff => "Power off",
            ActionId::Eject => "Eject",
            ActionId::AttachImage => "Attach disk image",
            ActionId::DetachLoop => "Detach loop",
            ActionId::SecureErase => "Secure erase",
            ActionId::Sanitize => "NVMe sanitize",
            ActionId::RaidCreate => "Create RAID",
            ActionId::RaidStart => "Start RAID",
            ActionId::RaidStop => "Stop RAID",
            ActionId::RaidDelete => "Delete RAID",
            ActionId::Rescan => "Rescan",
        }
    }
}

#[derive(Clone, Debug)]
pub struct Action {
    pub id: ActionId,
    pub enabled: bool,
    pub reason: String,
}

pub struct ActionV {
    pub id: ActionId,
    pub enabled: bool,
    pub reason: Seq<char>,
}

impl View for Action {
    type V = ActionV;

    open spec fn view(&self) -> ActionV {
        ActionV { id: self.id, enabled: self.enabled, reason: self.reason@ }
    }
}

pub open spec fn action_views(v: Seq<Action>) -> Seq<ActionV> {
    v.map_values(|a: Action| a@)
}

/// An action as offered: the reason is kept only when it is dimmed.
pub open spec fn act(id: ActionId, enabled: bool, reason: Seq<char>) -> ActionV {
    ActionV {
        id,
        enabled,
        reason: if enabled {
            Seq::empty()
        } else {
            reason
        },
    }
}

pub(crate) fn push(out: &mut Vec<Action>, id: ActionId, enabled: bool, reason: &str)
    ensures
        action_views(final(out)@) == action_views(old(out)@).push(act(id, enabled, reason@)),
{
    let ghost pre = action_views(out@);
    let a = Action {
        id,
        enabled,
        reason: if enabled {
            String::new()
        } else {
            String::from_str(reason)
        },
    };
    out.push(a);
    assert(action_views(out@) =~= pre.push(act(id, enabled, reason@)));
}

/// Whether a tool is usable, and the hint when it is not.
pub open spec fn tool_ok_spec(tool: Option<Tool>) -> (bool, Seq<char>) {
    match tool {
        None => (true, Seq::empty()),
        Some(t) => if t.available {
            (true, Seq::empty())
        } else if t.missing@.len() == 0 {
            (false, "Tool is not installed"@)
        } else {
            (false, "install "@ + t.missing@)
        },
    }
}

pub(crate) fn tool_ok(tool: Option<&Tool>) -> (r: (bool, String))
    ensures
        r.0 == tool_ok_spec(opt_tool(tool)).0,
        r.1@ == tool_ok_spec(opt_tool(tool)).1,
{
    match tool {
        None => (true, String::new()),
        Some(t) => {
            if t.available {
                (true, String::new())
            } else if t.missing.as_str().is_empty() {
                (false, String::from_str("Tool is not installed"))
            } else {
                let s = String::from_str("install ");
                (false, s.concat(t.missing.as_str()))
            }
        },
    }
}

pub open spec fn opt_tool(t: Option<&Tool>) -> Option<Tool> {
    match t {
        Some(x) => Some(*x),
        None => None,
    }
}

/// The confirm dialog accepts when the kernel name was typed and, for a
/// system disk, `system` too.
pub open spec fn confirm_ok_spec(kernel: Seq<char>, typed: Seq<char>, system: bool, ack: Seq<char>) -> bool {
    kernel.len() > 0 && typed == kernel && (!system || ack == "system"@)
}

pub fn confirm_ok(kernel: &str, typed: &str, system: bool, ack: &str) -> (r: bool)
    ensures
        r == confirm_ok_spec(kernel@, typed@, system, ack@),
{
    let k = chars_of(kernel);
    let t = chars_of(typed);
    let a = chars_of(ack);
    k.len() > 0 && eq_chars(t.as_slice(), k.as_slice()) && (!system || eq_str(a.as_slice(), "system"))
}

pub open spec fn is_system_mount_spec(path: Seq<char>) -> bool {
    path == "/"@ || path == "/home"@ || path == "/boot"@ || starts_with(path, "/boot/"@)
}

/// `/`, `/home`, `/boot` and what lies under `/boot/`.
pub fn is_system_mount(path: &str) -> (r: bool)
    ensures
        r == is_system_mount_spec(path@),
{
    let p = chars_of(path);
    let bs = chars_of("/boot/");
    eq_str(p.as_slice(), "/") || eq_str(p.as_slice(), "/home") || eq_str(p.as_slice(), "/boot")
        || starts_with_chars(p.as_slice(), bs.as_slice())
}

pub open spec fn is_set_spec(path: Seq<char>) -> bool {
    path.len() > 0 && path != "/"@
}

/// An object path that points somewhere (UDisks writes `/` for none).
pub fn is_set(path: &str) -> (r: bool)
    ensures
        r == is_set_spec(path@),
{
    let p = chars_of(path);
    p.len() > 0 && !eq_str(p.as_slice(), "/")
}


// ---------------------------------------------------------------------------
// The partition map
// ---------------------------------------------------------------------------

#[derive(Clone, Debug)]
pub struct Segment {
    pub label: String,
    pub start: u64,
    pub size: u64,
    pub free: bool,
    pub block: Option<String>,
}

pub struct SegV {
    pub label: Seq<char>,
    pub start: u64,
    pub size: u64,
    pub free: bool,
    pub block: Option<Seq<char>>,
}

impl View for Segment {
    type V = SegV;

    open spec fn view(&self) -> SegV {
        SegV {
            label: self.label@,
            start: self.start,
            size: self.size,
            free: self.free,
            block: match self.block {
                Some(b) => Some(b@),
                None => None,
            },
        }
    }
}

pub open spec fn seg_views(v: Seq<Segment>) -> Seq<SegV> {
    v.map_values(|s: Segment| s@)
}

/// A partition as `segments` takes it: offset, size, block path, label.
pub type PartSpec = (u64, u64, String, String);

pub type PartV = (u64, u64, Seq<char>, Seq<char>);

pub open spec fn part_view(p: PartSpec) -> PartV {
    (p.0, p.1, p.2@, p.3@)
}

pub open spec fn part_views(v: Seq<PartSpec>) -> Seq<PartV> {
    v.map_values(|p: PartSpec| part_view(p))
}

/// Stable insertion by offset: after every element whose offset is not larger.
pub open spec fn ins_off(s: Seq<PartV>, x: PartV) -> Seq<PartV>
    decreases s.len(),
{
    if s.len() == 0 {
        seq![x]
    } else if s.last().0 <= x.0 {
        s.push(x)
    } else {
        ins_off(s.drop_last(), x).push(s.last())
    }
}

/// `sort_by_key` on the offset: a stable sort.
pub open spec fn sort_off(s: Seq<PartV>) -> Seq<PartV>
    decreases s.len(),
{
    if s.len() == 0 {
        s
    } else {
        ins_off(sort_off(s.drop_last()), s.last())
    }
}

/// A gap that only covers the alignment space before the first MiB.
pub open spec fn alignment_prefix_spec(start: int, size: int) -> bool {
    start < MIB && start + size <= MIB
}

pub fn alignment_prefix(start: u64, size: u64) -> (r: bool)
    ensures
        r == alignment_prefix_spec(start as int, size as int),
{
    start < MIB && size <= MIB - start
}

pub open spec fn free_seg(start: u64, size: u64) -> SegV {
    SegV { label: "free"@, start, size, free: true, block: None }
}

pub open spec fn sat_add(a: u64, b: u64) -> u64 {
    if a + b > u64::MAX {
        u64::MAX
    } else {
        (a + b) as u64
    }
}

/// One partition: the free gap before it (when at least a MiB and not the
/// alignment prefix), then the partition; the cursor moves to its end.
pub open spec fn seg_step(st: (Seq<SegV>, u64), p: PartV) -> (Seq<SegV>, u64) {
    let (out, cursor) = st;
    let (offset, size, path, label) = p;
    let with_gap = if offset > cursor && offset - cursor >= MIB && !alignment_prefix_spec(
        cursor as int,
        offset - cursor,
    ) {
        out.push(free_seg(cursor, (offset - cursor) as u64))
    } else {
        out
    };
    let end = sat_add(offset, size);
    (
        with_gap.push(SegV { label, start: offset, size, free: false, block: Some(path) }),
        if cursor >= end {
            cursor
        } else {
            end
        },
    )
}

pub open spec fn seg_fold(ps: Seq<PartV>, n: int) -> (Seq<SegV>, u64)
    decreases n,
{
    if n <= 0 {
        (Seq::empty(), 0)
    } else {
        seg_step(seg_fold(ps, n - 1), ps[n - 1])
    }
}

/// The map of a disk: partitions in offset order with the free space of a
/// MiB or more between and after them.
pub open spec fn segments_spec(disk_size: u64, parts: Seq<PartV>) -> Seq<SegV> {
    let sorted = sort_off(parts);
    let (out, cursor) = seg_fold(sorted, sorted.len() as int);
    if disk_size > cursor && disk_size - cursor >= MIB {
        out.push(free_seg(cursor, (disk_size - cursor) as u64))
    } else {
        out
    }
}

proof fn lemma_ins_off_at(s: Seq<PartV>, x: PartV, p: int)
    requires
        0 <= p <= s.len(),
        forall|j: int| p <= j < s.len() ==> s[j].0 > x.0,
        p == 0 || s[p - 1].0 <= x.0,
    ensures
        ins_off(s, x) == s.subrange(0, p).push(x) + s.subrange(p, s.len() as int),
    decreases s.len(),
{
    if s.len() == 0 {
        assert(s.subrange(0, p).push(x) + s.subrange(p, s.len() as int) =~= seq![x]);
    } else if p == s.len() {
        assert(s.subrange(0, p) =~= s);
        assert(s.subrange(0, p).push(x) + s.subrange(p, s.len() as int) =~= s.push(x));
    } else {
        assert(s.last().0 > x.0);
        lemma_ins_off_at(s.drop_last(), x, p);
        assert(s.drop_last().subrange(0, p) =~= s.subrange(0, p));
        assert((s.subrange(0, p).push(x) + s.drop_last().subrange(p, s.len() - 1)).push(s.last())
            =~= s.subrange(0, p).push(x) + s.subrange(p, s.len() as int));
    }
}

proof fn lemma_ins_off_sorted(s: Seq<PartV>, x: PartV)
    requires
        forall|i: int, j: int| 0 <= i <= j < s.len() ==> s[i].0 <= s[j].0,
    ensures
        forall|i: int, j: int| 0 <= i <= j < ins_off(s, x).len() ==> ins_off(s, x)[i].0 <= ins_off(s, x)[j].0,
        ins_off(s, x).len() == s.len() + 1,
    decreases s.len(),
{
    if s.len() > 0 && s.last().0 > x.0 {
        let t = s.drop_last();
        lemma_ins_off_sorted(t, x);
        let r = ins_off(t, x);
        assert forall|i: int, j: int| 0 <= i <= j < r.push(s.last()).len() implies r.push(s.last())[i].0
            <= r.push(s.last())[j].0 by {
            if j == r.len() {
                if i < r.len() {
                    // every element of r is an element of t or x, both not above s.last()
                    lemma_ins_off_bound(t, x, s.last().0, i);
                }
            }
        }
    } else if s.len() > 0 {
        assert forall|i: int, j: int| 0 <= i <= j < s.push(x).len() implies s.push(x)[i].0 <= s.push(
            x,
        )[j].0 by {
            if j == s.len() && i < s.len() {
                assert(s[i].0 <= s[s.len() - 1].0);
            }
        }
    }
}

proof fn lemma_ins_off_bound(t: Seq<PartV>, x: PartV, b: u64, i: int)
    requires
        forall|k: int| 0 <= k < t.len() ==> t[k].0 <= b,
        x.0 <= b,
        0 <= i < ins_off(t, x).len(),
    ensures
        ins_off(t, x)[i].0 <= b,
    decreases t.len(),
{
    if t.len() > 0 {
        if t.last().0 <= x.0 {
            if i < t.len() {
                assert(t.push(x)[i] == t[i]);
            }
        } else {
            let u = t.drop_last();
            lemma_ins_off_len(u, x);
            if i < ins_off(u, x).len() {
                assert forall|k: int| 0 <= k < u.len() implies u[k].0 <= b by {
                    assert(u[k] == t[k]);
                }
                lemma_ins_off_bound(u, x, b, i);
            } else {
                assert(t.last() == t[t.len() - 1]);
            }
        }
    }
}

pub(crate) proof fn lemma_ins_off_len(s: Seq<PartV>, x: PartV)
    ensures
        ins_off(s, x).len() == s.len() + 1,
    decreases s.len(),
{
    if s.len() > 0 && s.last().0 > x.0 {
        lemma_ins_off_len(s.drop_last(), x);
    }
}

pub(crate) proof fn lemma_sort_off_sorted(s: Seq<PartV>)
    ensures
        forall|i: int, j: int| 0 <= i <= j < sort_off(s).len() ==> sort_off(s)[i].0 <= sort_off(s)[j].0,
        sort_off(s).len() == s.len(),
    decreases s.len(),
{
    if s.len() > 0 {
        lemma_sort_off_sorted(s.drop_last());
        lemma_ins_off_sorted(sort_off(s.drop_last()), s.last());
    }
}

fn clone_part(p: &PartSpec) -> (r: PartSpec)
    ensures
        part_view(r) == part_view(*p),
{
    (p.0, p.1, p.2.clone(), p.3.clone())
}

/// `sort_by_key` on the offset.
fn sort_parts(parts: &[PartSpec]) -> (r: Vec<PartSpec>)
    ensures
        part_views(r@) == sort_off(part_views(parts@)),
{
    let mut r: Vec<PartSpec> = Vec::new();
    let mut i: usize = 0;
    while i < parts.len()
        invariant
            i <= parts@.len(),
            part_views(r@) == sort_off(part_views(parts@.subrange(0, i as int))),
        decreases parts@.len() - i,
    {
        let x = clone_part(&parts[i]);
        let ghost xv = part_view(x);
        let ghost sv = part_views(r@);
        proof {
            lemma_sort_off_sorted(part_views(parts@.subrange(0, i as int)));
        }
        let mut p = r.len();
        while p > 0 && r[p - 1].0 > x.0
            invariant
                p <= r@.len(),
                sv == part_views(r@),
                forall|j: int| p <= j < r@.len() ==> r@[j].0 > xv.0,
                xv == part_view(x),
            decreases p,
        {
            p = p - 1;
        }
        proof {
            assert(forall|j: int| 0 <= j < sv.len() ==> sv[j].0 == r@[j].0);
            lemma_ins_off_at(sv, xv, p as int);
        }
        r.insert(p, x);
        proof {
            let pv = parts@.subrange(0, i + 1);
            assert(part_views(pv).drop_last() =~= part_views(parts@.subrange(0, i as int)));
            assert(part_views(pv).last() == xv);
            assert(part_views(r@) =~= sv.subrange(0, p as int).push(xv) + sv.subrange(
                p as int,
                sv.len() as int,
            ));
        }
        i = i + 1;
    }
    assert(parts@.subrange(0, parts@.len() as int) =~= parts@);
    r
}

fn free_segment(start: u64, size: u64) -> (s: Segment)
    ensures
        s@ == free_seg(start, size),
{
    Segment { label: String::from_str("free"), start, size, free: true, block: None }
}

pub fn segments(disk_size: u64, parts: &[PartSpec]) -> (r: Vec<Segment>)
    ensures
        seg_views(r@) == segments_spec(disk_size, part_views(parts@)),
{
    let sorted = sort_parts(parts);
    let ghost sv = part_views(sorted@);
    let mut out: Vec<Segment> = Vec::new();
    let mut cursor: u64 = 0;
    let mut i: usize = 0;
    while i < sorted.len()
        invariant
            sv == part_views(sorted@),
            i <= sorted@.len(),
            seg_fold(sv, i as int) == (seg_views(out@), cursor),
        decreases sorted@.len() - i,
    {
        let offset = sorted[i].0;
        let size = sorted[i].1;
        assert(sv[i as int] == part_view(sorted@[i as int]));
        let ghost pre = seg_views(out@);
        if offset > cursor {
            let gap = offset - cursor;
            if gap >= MIB && !alignment_prefix(cursor, gap) {
                out.push(free_segment(cursor, gap));
            }
        }
        let end = offset.saturating_add(size);
        let seg = Segment {
            label: sorted[i].3.clone(),
            start: offset,
            size,
            free: false,
            block: Some(sorted[i].2.clone()),
        };
        out.push(seg);
        if end > cursor {
            cursor = end;
        }
        proof {
            let st = seg_step(seg_fold(sv, i as int), sv[i as int]);
            assert(seg_fold(sv, i + 1) == st);
            assert(seg_views(out@) =~= st.0);
        }
        i = i + 1;
    }
    if disk_size > cursor {
        let gap = disk_size - cursor;
        if gap >= MIB {
            out.push(free_segment(cursor, gap));
        }
    }
    out
}


// ---------------------------------------------------------------------------
// Partition types
// ---------------------------------------------------------------------------

#[derive(Clone, Copy, Debug)]
pub struct PartType {
    pub label: &'static str,
    pub gpt: &'static str,
    pub dos: &'static str,
}

/// The known partition types: label, GPT type GUID, MBR type code.
pub open spec fn part_type_spec(i: int) -> (Seq<char>, Seq<char>, Seq<char>) {
    if i == 0 {
        ("Linux filesystem"@, "0fc63daf-8483-4772-8e79-3d69d8477de4"@, "0x83"@)
    } else if i == 1 {
        ("Linux home"@, "933ac7e1-2eb4-4f13-b844-0e14e2aef915"@, "0x83"@)
    } else if i == 2 {
        ("Linux swap"@, "0657fd6d-a4ab-43c4-84e5-0933c84b4f4f"@, "0x82"@)
    } else if i == 3 {
        ("EFI system"@, "c12a7328-f81f-11d2-ba4b-00a0c93ec93b"@, "0xef"@)
    } else if i == 4 {
        ("BIOS boot"@, "21686148-6449-6e6f-744e-656564454649"@, "0x00"@)
    } else if i == 5 {
        ("Microsoft basic data"@, "ebd0a0a2-b9e5-4433-87c0-68b6b72699c7"@, "0x07"@)
    } else if i == 6 {
        ("Linux LVM"@, "e6d6d379-f507-44c2-a23c-238f2a3df928"@, "0x8e"@)
    } else {
        ("Linux RAID"@, "a19d880f-05fc-4d3b-a006-743f0f84911e"@, "0xfd"@)
    }
}

pub open spec fn part_type_view(t: PartType) -> (Seq<char>, Seq<char>, Seq<char>) {
    (t.label@, t.gpt@, t.dos@)
}

fn part_type(i: usize) -> (t: PartType)
    requires
        i < 8,
    ensures
        part_type_view(t) == part_type_spec(i as int),
{
    if i == 0 {
        PartType { label: "Linux filesystem", gpt: "0fc63daf-8483-4772-8e79-3d69d8477de4", dos: "0x83" }
    } else if i == 1 {
        PartType { label: "Linux home", gpt: "933ac7e1-2eb4-4f13-b844-0e14e2aef915", dos: "0x83" }
    } else if i == 2 {
        PartType { label: "Linux swap", gpt: "0657fd6d-a4ab-43c4-84e5-0933c84b4f4f", dos: "0x82" }
    } else if i == 3 {
        PartType { label: "EFI system", gpt: "c12a7328-f81f-11d2-ba4b-00a0c93ec93b", dos: "0xef" }
    } else if i == 4 {
        PartType { label: "BIOS boot", gpt: "21686148-6449-6e6f-744e-656564454649", dos: "0x00" }
    } else if i == 5 {
        PartType {
            label: "Microsoft basic data",
            gpt: "ebd0a0a2-b9e5-4433-87c0-68b6b72699c7",
            dos: "0x07",
        }
    } else if i == 6 {
        PartType { label: "Linux LVM", gpt: "e6d6d379-f507-44c2-a23c-238f2a3df928", dos: "0x8e" }
    } else {
        PartType { label: "Linux RAID", gpt: "a19d880f-05fc-4d3b-a006-743f0f84911e", dos: "0xfd" }
    }
}

/// The partition types, in menu order.
pub fn part_types() -> (r: Vec<PartType>)
    ensures
        r@.len() == 8,
        forall|i: int| 0 <= i < 8 ==> part_type_view(#[trigger] r@[i]) == part_type_spec(i),
{
    let mut r: Vec<PartType> = Vec::new();
    let mut i: usize = 0;
    while i < 8
        invariant
            i <= 8,
            r@.len() == i,
            forall|k: int| 0 <= k < i ==> part_type_view(#[trigger] r@[k]) == part_type_spec(k),
        decreases 8 - i,
    {
        r.push(part_type(i));
        i = i + 1;
    }
    r
}

/// The filesystem types offered by the format form.
pub open spec fn fs_type_spec(i: int) -> Seq<char> {
    if i == 0 {
        "ext4"@
    } else if i == 1 {
        "btrfs"@
    } else if i == 2 {
        "xfs"@
    } else if i == 3 {
        "f2fs"@
    } else if i == 4 {
        "vfat"@
    } else if i == 5 {
        "exfat"@
    } else if i == 6 {
        "ntfs"@
    } else if i == 7 {
        "udf"@
    } else if i == 8 {
        "swap"@
    } else {
        "empty"@
    }
}

pub fn fs_types() -> (r: Vec<&'static str>)
    ensures
        r@.len() == 10,
        forall|i: int| 0 <= i < 10 ==> (#[trigger] r@[i])@ == fs_type_spec(i),
{
    let mut r: Vec<&'static str> = Vec::new();
    r.push("ext4");
    r.push("btrfs");
    r.push("xfs");
    r.push("f2fs");
    r.push("vfat");
    r.push("exfat");
    r.push("ntfs");
    r.push("udf");
    r.push("swap");
    r.push("empty");
    r
}

/// The first known type whose GUID or MBR code matches, from `i` on.
pub open spec fn type_label_from(code: Seq<char>, i: int) -> Option<Seq<char>>
    decreases 8 - i,
{
    if i < 0 || i >= 8 {
        None
    } else if code == part_type_spec(i).1 || code == part_type_spec(i).2 {
        Some(part_type_spec(i).0)
    } else {
        type_label_from(code, i + 1)
    }
}

/// The label of a partition type code; the code itself when unknown.
pub open spec fn partition_type_label_spec(code: Seq<char>) -> Seq<char> {
    let c = lower_seq(trim(code));
    match type_label_from(c, 0) {
        Some(l) => l,
        None => if c.len() == 0 {
            "unknown"@
        } else {
            c
        },
    }
}

pub fn partition_type_label(code: &str) -> (r: String)
    ensures
        r@ == partition_type_label_spec(code@),
{
    let t = crate::text::trim_str(code);
    let c = lower_chars(t.as_slice());
    let kinds = part_types();
    let mut i: usize = 0;
    while i < 8
        invariant
            i <= 8,
            kinds@.len() == 8,
            forall|k: int| 0 <= k < 8 ==> part_type_view(#[trigger] kinds@[k]) == part_type_spec(k),
            type_label_from(c@, 0) == type_label_from(c@, i as int),
            c@ == lower_seq(trim(code@)),
        decreases 8 - i,
    {
        let k = kinds[i];
        assert(part_type_view(kinds@[i as int]) == part_type_spec(i as int));
        if eq_str(c.as_slice(), k.gpt) || eq_str(c.as_slice(), k.dos) {
            assert(type_label_from(c@, i as int) == Some(part_type_spec(i as int).0));
            return String::from_str(k.label);
        }
        i = i + 1;
    }
    if c.len() == 0 {
        String::from_str("unknown")
    } else {
        string_from(c.as_slice())
    }
}

/// The first type index with this label, from `i` on.
pub open spec fn type_index_from(label: Seq<char>, i: int) -> int
    decreases 8 - i,
{
    if i < 0 || i >= 8 {
        0
    } else if part_type_spec(i).0 == label {
        i
    } else {
        type_index_from(label, i + 1)
    }
}

/// The type code for a label in a partition table: the MBR code for `dos`,
/// the GUID otherwise; an unknown label means the first type.
pub open spec fn type_code_for_spec(table: Seq<char>, label: Seq<char>) -> Seq<char> {
    let k = part_type_spec(type_index_from(label, 0));
    if table == "dos"@ {
        k.2
    } else {
        k.1
    }
}

pub fn type_code_for(table: &str, label: &str) -> (r: String)
    ensures
        r@ == type_code_for_spec(table@, label@),
{
    let kinds = part_types();
    let l = chars_of(label);
    let mut i: usize = 0;
    while i < 8 && !eq_str(l.as_slice(), kinds[i].label)
        invariant
            i <= 8,
            kinds@.len() == 8,
            forall|k: int| 0 <= k < 8 ==> part_type_view(#[trigger] kinds@[k]) == part_type_spec(k),
            type_index_from(l@, 0) == type_index_from(l@, i as int),
        decreases 8 - i,
    {
        assert(part_type_view(kinds@[i as int]) == part_type_spec(i as int));
        i = i + 1;
    }
    let found: usize = if i < 8 {
        assert(part_type_view(kinds@[i as int]) == part_type_spec(i as int));
        i
    } else {
        0
    };
    assert(found == type_index_from(l@, 0));
    let k = kinds[found];
    assert(part_type_view(kinds@[found as int]) == part_type_spec(found as int));
    let t = chars_of(table);
    if eq_str(t.as_slice(), "dos") {
        String::from_str(k.dos)
    } else {
        String::from_str(k.gpt)
    }
}


// ---------------------------------------------------------------------------
// Finding things in a list
// ---------------------------------------------------------------------------

/// The first element that satisfies `f`.
pub open spec fn first_where<T>(s: Seq<T>, f: spec_fn(T) -> bool) -> Option<T>
    decreases s.len(),
{
    if s.len() == 0 {
        None
    } else if f(s[0]) {
        Some(s[0])
    } else {
        first_where(s.drop_first(), f)
    }
}

pub proof fn lemma_first_at<T>(s: Seq<T>, f: spec_fn(T) -> bool, i: int)
    requires
        0 <= i < s.len(),
        f(s[i]),
        forall|j: int| 0 <= j < i ==> !f(#[trigger] s[j]),
    ensures
        first_where(s, f) == Some(s[i]),
    decreases i,
{
    if i > 0 {
        let r = s.drop_first();
        assert(!f(s[0]));
        assert forall|j: int| 0 <= j < i - 1 implies !f(#[trigger] r[j]) by {
            assert(r[j] == s[j + 1]);
        }
        lemma_first_at(r, f, i - 1);
    }
}

pub proof fn lemma_first_none<T>(s: Seq<T>, f: spec_fn(T) -> bool)
    requires
        forall|j: int| 0 <= j < s.len() ==> !f(#[trigger] s[j]),
    ensures
        first_where(s, f) is None,
    decreases s.len(),
{
    if s.len() > 0 {
        let r = s.drop_first();
        assert(!f(s[0]));
        assert forall|j: int| 0 <= j < r.len() implies !f(#[trigger] r[j]) by {
            assert(r[j] == s[j + 1]);
        }
        lemma_first_none(r, f);
    }
}

pub open spec fn deref_opt<T>(o: Option<&T>) -> Option<T> {
    match o {
        Some(x) => Some(*x),
        None => None,
    }
}

// ---------------------------------------------------------------------------
// Names and labels
// ---------------------------------------------------------------------------

/// The preferred device node, else the plain one.
pub open spec fn device_path_spec(b: Block) -> Seq<char> {
    if b.preferred@.len() > 0 {
        b.preferred@
    } else {
        b.device@
    }
}

/// How fstab names a block: `LABEL=` when asked and labelled, else `UUID=`
/// when it has one, else the device node.
pub open spec fn fstab_name_spec(b: Block, by_label: bool) -> Seq<char> {
    if by_label && b.id_label@.len() > 0 {
        "LABEL="@ + b.id_label@
    } else if b.id_uuid@.len() > 0 {
        "UUID="@ + b.id_uuid@
    } else {
        device_path_spec(b)
    }
}

/// The configuration items of kind `fstab`, in order.
pub open spec fn fstab_filter(s: Seq<ConfigItem>) -> Seq<ConfigItem>
    decreases s.len(),
{
    if s.len() == 0 {
        Seq::empty()
    } else if s.last().kind@ == "fstab"@ {
        fstab_filter(s.drop_last()).push(s.last())
    } else {
        fstab_filter(s.drop_last())
    }
}

impl Block {
    pub fn device_path(&self) -> (r: &str)
        ensures
            r@ == device_path_spec(*self),
    {
        if !self.preferred.as_str().is_empty() {
            self.preferred.as_str()
        } else {
            self.device.as_str()
        }
    }

    pub fn fstab_name(&self, by_label: bool) -> (r: String)
        ensures
            r@ == fstab_name_spec(*self, by_label),
    {
        if by_label && !self.id_label.as_str().is_empty() {
            String::from_str("LABEL=").concat(self.id_label.as_str())
        } else if !self.id_uuid.as_str().is_empty() {
            String::from_str("UUID=").concat(self.id_uuid.as_str())
        } else {
            String::from_str(self.device_path())
        }
    }

    pub fn fstab_items(&self) -> (r: Vec<&ConfigItem>)
        ensures
            r@.map_values(|c: &ConfigItem| *c) == fstab_filter(self.config@),
    {
        let mut r: Vec<&ConfigItem> = Vec::new();
        let mut i: usize = 0;
        while i < self.config.len()
            invariant
                i <= self.config@.len(),
                r@.map_values(|c: &ConfigItem| *c) == fstab_filter(self.config@.subrange(0, i as int)),
            decreases self.config@.len() - i,
        {
            let ghost pre = r@;
            let ghost n = self.config@.subrange(0, i + 1);
            assert(n.drop_last() =~= self.config@.subrange(0, i as int));
            assert(n.last() == self.config@[i as int]);
            let c = &self.config[i];
            if same_str(c.kind.as_str(), "fstab") {
                r.push(c);
                assert(r@.map_values(|c: &ConfigItem| *c) =~= pre.map_values(|c: &ConfigItem| *c).push(*c));
            }
            i = i + 1;
        }
        assert(self.config@.subrange(0, self.config@.len() as int) =~= self.config@);
        r
    }
}

/// A field of an fstab configuration item as text: bytes up to the first
/// NUL, or a string; empty when absent or of another type.
pub open spec fn fstab_field_spec(item: ConfigItem, key: Seq<char>) -> Seq<char> {
    match first_where(item.fields@, |e: (String, PropVal)| e.0@ == key) {
        Some(e) => match e.1 {
            PropVal::Bytes(b) => lossy_utf8(before_nul(b@)),
            PropVal::Str(s) => s@,
            _ => Seq::empty(),
        },
        None => Seq::empty(),
    }
}

pub fn fstab_field(item: &ConfigItem, key: &str) -> (r: String)
    ensures
        r@ == fstab_field_spec(*item, key@),
{
    let ghost f = |e: (String, PropVal)| e.0@ == key@;
    let mut i: usize = 0;
    while i < item.fields.len()
        invariant
            i <= item.fields@.len(),
            f == (|e: (String, PropVal)| e.0@ == key@),
            forall|j: int| 0 <= j < i ==> !f(#[trigger] item.fields@[j]),
        decreases item.fields@.len() - i,
    {
        if same_str(item.fields[i].0.as_str(), key) {
            proof {
                lemma_first_at(item.fields@, f, i as int);
            }
            return match &item.fields[i].1 {
                PropVal::Bytes(b) => c_string(b.as_slice()),
                PropVal::Str(s) => s.clone(),
                _ => String::new(),
            };
        }
        i = i + 1;
    }
    proof {
        lemma_first_none(item.fields@, f);
    }
    String::new()
}

/// The name a partition shows: its own name, the filesystem label, `LUKS`
/// for an encrypted one, the content type, or `partition`.
pub open spec fn part_name_spec(b: Block, part: Partition) -> Seq<char> {
    if part.name@.len() > 0 {
        part.name@
    } else if b.id_label@.len() > 0 {
        b.id_label@
    } else if b.encrypted {
        "LUKS"@
    } else if b.id_type@.len() > 0 {
        b.id_type@
    } else {
        "partition"@
    }
}

/// The label of a volume in the device tree: `p<number> <name>` for a
/// partition, `loop <file>` for a loop device, else its label or kernel name.
pub open spec fn volume_label_spec(b: Block) -> Seq<char> {
    match b.partition {
        Some(part) => seq!['p'] + dec(part.number as nat) + seq![' '] + part_name_spec(b, part),
        None => if b.loopback {
            "loop "@ + after_last_slash(b.backing_file@)
        } else if b.id_label@.len() > 0 {
            b.id_label@
        } else {
            after_last_slash(device_path_spec(b))
        },
    }
}

pub fn volume_label(block: &Block) -> (r: String)
    ensures
        r@ == volume_label_spec(*block),
{
    match &block.partition {
        Some(part) => {
            let name: &str = if !part.name.as_str().is_empty() {
                part.name.as_str()
            } else if !block.id_label.as_str().is_empty() {
                block.id_label.as_str()
            } else if block.encrypted {
                "LUKS"
            } else if !block.id_type.as_str().is_empty() {
                block.id_type.as_str()
            } else {
                "partition"
            };
            let mut v: Vec<char> = Vec::new();
            v.push('p');
            let d = dec_chars(part.number as u64);
            push_all(&mut v, d.as_slice());
            v.push(' ');
            push_str(&mut v, name);
            assert(v@ =~= seq!['p'] + dec(part.number as nat) + seq![' '] + part_name_spec(*block, *part));
            string_from(v.as_slice())
        },
        None => {
            if block.loopback {
                let f = chars_of(block.backing_file.as_str());
                let k = last_slash_end(f.as_slice());
                let file = slice_of(f.as_slice(), k, f.len());
                let mut v = chars_of("loop ");
                push_all(&mut v, file.as_slice());
                string_from(v.as_slice())
            } else if !block.id_label.as_str().is_empty() {
                block.id_label.clone()
            } else {
                String::from_str(kernel_name(block.device_path()))
            }
        },
    }
}

pub(crate) fn short_part(block: &Block) -> (r: String)
    ensures
        r@ == volume_label_spec(*block),
{
    volume_label(block)
}

/// An array's name, or the first eight characters of its UUID.
pub open spec fn raid_name_spec(r: Raid) -> Seq<char> {
    if r.name@.len() > 0 {
        r.name@
    } else if r.uuid@.len() <= 8 {
        r.uuid@
    } else {
        r.uuid@.subrange(0, 8)
    }
}

pub(crate) fn raid_name(raid: &Raid) -> (r: String)
    ensures
        r@ == raid_name_spec(*raid),
{
    if !raid.name.as_str().is_empty() {
        raid.name.clone()
    } else {
        let u = chars_of(raid.uuid.as_str());
        let n: usize = if u.len() <= 8 {
            u.len()
        } else {
            8
        };
        let t = slice_of(u.as_slice(), 0, n);
        assert(u@.len() <= 8 ==> t@ =~= u@);
        string_from(t.as_slice())
    }
}

/// A drive's vendor and model with runs of whitespace made single, or
/// `Drive` when both are blank.
pub open spec fn drive_label_spec(d: Drive) -> Seq<char> {
    let name = join(words(d.vendor@ + seq![' '] + d.model@), seq![' ']);
    if name.len() == 0 {
        "Drive"@
    } else {
        name
    }
}

pub(crate) fn drive_label(drive: &Drive) -> (r: String)
    ensures
        r@ == drive_label_spec(*drive),
{
    let mut all = chars_of(drive.vendor.as_str());
    all.push(' ');
    push_str(&mut all, drive.model.as_str());
    assert(all@ =~= drive.vendor@ + seq![' '] + drive.model@);
    let ws = words_chars(all.as_slice());
    let mut sep: Vec<char> = Vec::new();
    sep.push(' ');
    let name = join_chars(&ws, sep.as_slice());
    assert(sep@ =~= seq![' ']);
    if name.len() == 0 {
        String::from_str("Drive")
    } else {
        string_from(name.as_slice())
    }
}


// ---------------------------------------------------------------------------
// Rows of the device tree
// ---------------------------------------------------------------------------

#[derive(Clone, Debug)]
pub enum RowKind {
    Drive { drive: String },
    Volume { block: String },
    Free { disk: String, start: u64, size: u64 },
    Raid { raid: String },
    Shares,
}

pub enum RowKindV {
    Drive { drive: Seq<char> },
    Volume { block: Seq<char> },
    Free { disk: Seq<char>, start: u64, size: u64 },
    Raid { raid: Seq<char> },
    Shares,
}

impl View for RowKind {
    type V = RowKindV;

    open spec fn view(&self) -> RowKindV {
        match self {
            RowKind::Drive { drive } => RowKindV::Drive { drive: drive@ },
            RowKind::Volume { block } => RowKindV::Volume { block: block@ },
            RowKind::Free { disk, start, size } => RowKindV::Free { disk: disk@, start: *start, size: *size },
            RowKind::Raid { raid } => RowKindV::Raid { raid: raid@ },
            RowKind::Shares => RowKindV::Shares,
        }
    }
}

/// One line of the device tree. `size` is the byte count the size column
/// shows (the front end prints it in readable units); `None` leaves it blank.
#[derive(Clone, Debug)]
pub struct Row {
    pub kind: RowKind,
    pub depth: u8,
    pub label: String,
    pub size: Option<u64>,
    pub mounted: bool,
}

pub struct RowV {
    pub kind: RowKindV,
    pub depth: u8,
    pub label: Seq<char>,
    pub size: Option<u64>,
    pub mounted: bool,
}

impl View for Row {
    type V = RowV;

    open spec fn view(&self) -> RowV {
        RowV { kind: self.kind@, depth: self.depth, label: self.label@, size: self.size, mounted: self.mounted }
    }
}

pub open spec fn row_views(v: Seq<Row>) -> Seq<RowV> {
    v.map_values(|r: Row| r@)
}


// ---------------------------------------------------------------------------
// Configuration values as plain values
// ---------------------------------------------------------------------------

pub enum PropValV {
    Bool(bool),
    I32(i32),
    U32(u32),
    U64(u64),
    I64(i64),
    Str(Seq<char>),
    Bytes(Seq<u8>),
    Path(Seq<char>),
}

impl View for PropVal {
    type V = PropValV;

    open spec fn view(&self) -> PropValV {
        match self {
            PropVal::Bool(b) => PropValV::Bool(*b),
            PropVal::I32(n) => PropValV::I32(*n),
            PropVal::U32(n) => PropValV::U32(*n),
            PropVal::U64(n) => PropValV::U64(*n),
            PropVal::I64(n) => PropValV::I64(*n),
            PropVal::Str(s) => PropValV::Str(s@),
            PropVal::Bytes(b) => PropValV::Bytes(b@),
            PropVal::Path(s) => PropValV::Path(s@),
        }
    }
}

pub type PairV = (Seq<char>, PropValV);

pub open spec fn pair_views(v: Seq<(String, PropVal)>) -> Seq<PairV> {
    v.map_values(|p: (String, PropVal)| (p.0@, p.1@))
}

pub struct ConfigItemV {
    pub kind: Seq<char>,
    pub fields: Seq<PairV>,
}

impl View for ConfigItem {
    type V = ConfigItemV;

    open spec fn view(&self) -> ConfigItemV {
        ConfigItemV { kind: self.kind@, fields: pair_views(self.fields@) }
    }
}

pub open spec fn item_views(v: Seq<ConfigItem>) -> Seq<ConfigItemV> {
    v.map_values(|c: ConfigItem| c@)
}

fn copy_bytes(b: &Vec<u8>) -> (r: Vec<u8>)
    ensures
        r@ == b@,
{
    let mut r: Vec<u8> = Vec::new();
    let mut i: usize = 0;
    while i < b.len()
        invariant
            i <= b@.len(),
            r@ == b@.subrange(0, i as int),
        decreases b@.len() - i,
    {
        r.push(b[i]);
        i = i + 1;
        assert(r@ =~= b@.subrange(0, i as int));
    }
    assert(b@.subrange(0, b@.len() as int) =~= b@);
    r
}

pub fn copy_prop(p: &PropVal) -> (r: PropVal)
    ensures
        r@ == p@,
{
    match p {
        PropVal::Bool(b) => PropVal::Bool(*b),
        PropVal::I32(n) => PropVal::I32(*n),
        PropVal::U32(n) => PropVal::U32(*n),
        PropVal::U64(n) => PropVal::U64(*n),
        PropVal::I64(n) => PropVal::I64(*n),
        PropVal::Str(s) => PropVal::Str(s.clone()),
        PropVal::Bytes(b) => PropVal::Bytes(copy_bytes(b)),
        PropVal::Path(s) => PropVal::Path(s.clone()),
    }
}

/// A copy of a configuration dict with the same keys and values.
pub fn copy_pairs(v: &Vec<(String, PropVal)>) -> (r: Vec<(String, PropVal)>)
    ensures
        pair_views(r@) == pair_views(v@),
{
    let mut r: Vec<(String, PropVal)> = Vec::new();
    let mut i: usize = 0;
    while i < v.len()
        invariant
            i <= v@.len(),
            pair_views(r@) == pair_views(v@.subrange(0, i as int)),
        decreases v@.len() - i,
    {
        let ghost pre = r@;
        let e = (v[i].0.clone(), copy_prop(&v[i].1));
        assert(e.0@ == v@[i as int].0@ && e.1@ == v@[i as int].1@);
        r.push(e);
        assert(r@ == pre.push(e));
        assert(v@.subrange(0, i + 1) =~= v@.subrange(0, i as int).push(v@[i as int]));
        assert(pair_views(r@) =~= pair_views(pre).push((e.0@, e.1@)));
        assert(pair_views(v@.subrange(0, i + 1)) =~= pair_views(v@.subrange(0, i as int)).push(
            (v@[i as int].0@, v@[i as int].1@),
        ));
        i = i + 1;
    }
    assert(v@.subrange(0, v@.len() as int) =~= v@);
    r
}

pub fn copy_item(c: &ConfigItem) -> (r: ConfigItem)
    ensures
        r@ == c@,
{
    ConfigItem { kind: c.kind.clone(), fields: copy_pairs(&c.fields) }
}


impl Default for Model {
    fn default() -> (m: Self)
        ensures
            m.drives@.len() == 0,
            m.blocks@.len() == 0,
            m.raids@.len() == 0,
            m.jobs@.len() == 0,
    {
        Model { drives: Vec::new(), blocks: Vec::new(), raids: Vec::new(), jobs: Vec::new() }
    }
}

impl Caps {
    /// Each table holds one entry per filesystem type.
    pub open spec fn wf(&self) -> bool {
        self.format.wf() && self.resize.wf() && self.check.wf() && self.repair.wf()
    }
}

impl Default for Caps {
    fn default() -> (c: Self)
        ensures
            c.format.entries@.len() == 0,
            c.resize.entries@.len() == 0,
            c.check.entries@.len() == 0,
            c.repair.entries@.len() == 0,
            c.wf(),
    {
        Caps { format: Table::new(), resize: Table::new(), check: Table::new(), repair: Table::new() }
    }
}

/// The index of the first element that satisfies `f`, from `i` on.
pub open spec fn index_from<T>(s: Seq<T>, f: spec_fn(T) -> bool, i: int) -> Option<int>
    decreases s.len() - i,
{
    if i < 0 || i >= s.len() {
        None
    } else if f(s[i]) {
        Some(i)
    } else {
        index_from(s, f, i + 1)
    }
}

pub proof fn lemma_index_at<T>(s: Seq<T>, f: spec_fn(T) -> bool, i: int, k: int)
    requires
        0 <= i <= k < s.len(),
        f(s[k]),
        forall|j: int| i <= j < k ==> !f(#[trigger] s[j]),
    ensures
        index_from(s, f, i) == Some(k),
    decreases k - i,
{
    if i < k {
        lemma_index_at(s, f, i + 1, k);
    }
}

pub proof fn lemma_index_none<T>(s: Seq<T>, f: spec_fn(T) -> bool, i: int)
    requires
        0 <= i <= s.len(),
        forall|j: int| i <= j < s.len() ==> !f(#[trigger] s[j]),
    ensures
        index_from(s, f, i) is None,
    decreases s.len() - i,
{
    if i < s.len() {
        lemma_index_none(s, f, i + 1);
    }
}

pub fn copy_kind(k: &RowKind) -> (r: RowKind)
    ensures
        r@ == k@,
{
    match k {
        RowKind::Drive { drive } => RowKind::Drive { drive: drive.clone() },
        RowKind::Volume { block } => RowKind::Volume { block: block.clone() },
        RowKind::Free { disk, start, size } => RowKind::Free { disk: disk.clone(), start: *start, size: *size },
        RowKind::Raid { raid } => RowKind::Raid { raid: raid.clone() },
        RowKind::Shares => RowKind::Shares,
    }
}

} // verus!
