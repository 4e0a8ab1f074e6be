//! The operations the interface asks UDisks to run.
//!
//! Long copies (benchmark, image backup and restore) are cancelled through a
//! flag that the front end attaches when it starts them.

use vstd::prelude::*;

use crate::model::{item_views, pair_views, ConfigItem, ConfigItemV, PairV, PropVal};

verus! {

#[derive(Clone, Debug)]
pub enum Op {
    Mount(String),
    Unmount { path: String, force: bool },
    SetLabel { path: String, label: String, swap: bool },
    Format(FormatReq),
    CreatePartition(CreateReq),
    DeletePartition { path: String },
    Resize { path: String, current: u64, new_size: u64, filesystem: bool },
    EditPartition { path: String, type_code: String, name: String, flags: u64 },
    MountOptions(MountOptReq),
    ClearFstab { path: String, items: Vec<ConfigItem> },
    Check(String),
    Repair(String),
    TakeOwnership(String),
    Unlock { path: String, passphrase: String },
    Lock(String),
    ChangePassphrase { path: String, old: String, new: String },
    HeaderBackup { path: String, file: String },
    RestoreHeader { path: String, file: String },
    ConvertLuks { path: String, version: String },
    ResizeLuks { path: String, size: u64, passphrase: String },
    SwapStart(String),
    SwapStop(String),
    LoopSetup { file: String, read_only: bool },
    LoopDelete(String),
    PowerOff(String),
    Eject(String),
    Standby(String),
    Wakeup(String),
    DriveConfig { path: String, pairs: Vec<(String, PropVal)> },
    Smart { path: String, nvme: bool },
    SmartTest { path: String, kind: String, nvme: bool },
    SmartAbort { path: String, nvme: bool },
    SecureErase { path: String, enhanced: bool },
    Sanitize { path: String, action: String },
    RaidCreate { devices: Vec<String>, level: String, name: String, chunk: u64 },
    RaidStart { path: String, degraded: bool },
    RaidStop(String),
    RaidDelete(String),
    Benchmark { path: String, write: bool, size: u64 },
    Backup { path: String, file: String, size: u64 },
    Restore { path: String, file: String, size: u64 },
    Rescan(String),
    CancelJob(String),
}

#[derive(Clone, Debug)]
pub struct FormatReq {
    pub path: String,
    pub kind: String,
    pub label: String,
    pub erase: String,
    pub encrypt: bool,
    pub passphrase: String,
    pub take_ownership: bool,
}

#[derive(Clone, Debug)]
pub struct CreateReq {
    pub disk: String,
    pub offset: u64,
    pub size: u64,
    pub type_code: String,
    pub name: String,
    pub fstype: String,
    pub label: String,
    pub encrypt: bool,
    pub passphrase: String,
}

#[derive(Clone, Debug)]
pub struct MountOptReq {
    pub path: String,
    pub existing: Vec<ConfigItem>,
    pub fsname: String,
    pub dir: String,
    pub fstype: String,
    pub opts: String,
    pub passno: i32,
}

pub struct FormatReqV {
    pub path: Seq<char>,
    pub kind: Seq<char>,
    pub label: Seq<char>,
    pub erase: Seq<char>,
    pub encrypt: bool,
    pub passphrase: Seq<char>,
    pub take_ownership: bool,
}

pub struct CreateReqV {
    pub disk: Seq<char>,
    pub offset: u64,
    pub size: u64,
    pub type_code: Seq<char>,
    pub name: Seq<char>,
    pub fstype: Seq<char>,
    pub label: Seq<char>,
    pub encrypt: bool,
    pub passphrase: Seq<char>,
}

pub struct MountOptReqV {
    pub path: Seq<char>,
    pub existing: Seq<ConfigItemV>,
    pub fsname: Seq<char>,
    pub dir: Seq<char>,
    pub fstype: Seq<char>,
    pub opts: Seq<char>,
    pub passno: i32,
}

impl View for FormatReq {
    type V = FormatReqV;

    open spec fn view(&self) -> FormatReqV {
        FormatReqV {
            path: self.path@,
            kind: self.kind@,
            label: self.label@,
            erase: self.erase@,
            encrypt: self.encrypt,
            passphrase: self.passphrase@,
            take_ownership: self.take_ownership,
        }
    }
}

impl View for CreateReq {
    type V = CreateReqV;

    open spec fn view(&self) -> CreateReqV {
        CreateReqV {
            disk: self.disk@,
            offset: self.offset,
            size: self.size,
            type_code: self.type_code@,
            name: self.name@,
            fstype: self.fstype@,
            label: self.label@,
            encrypt: self.encrypt,
            passphrase: self.passphrase@,
        }
    }
}

impl View for MountOptReq {
    type V = MountOptReqV;

    open spec fn view(&self) -> MountOptReqV {
        MountOptReqV {
            path: self.path@,
            existing: item_views(self.existing@),
            fsname: self.fsname@,
            dir: self.dir@,
            fstype: self.fstype@,
            opts: self.opts@,
            passno: self.passno,
        }
    }
}

pub enum OpV {
    Mount(Seq<char>),
    Unmount { path: Seq<char>, force: bool },
    SetLabel { path: Seq<char>, label: Seq<char>, swap: bool },
    Format(FormatReqV),
    CreatePartition(CreateReqV),
    DeletePartition { path: Seq<char> },
    Resize { path: Seq<char>, current: u64, new_size: u64, filesystem: bool },
    EditPartition { path: Seq<char>, type_code: Seq<char>, name: Seq<char>, flags: u64 },
    MountOptions(MountOptReqV),
    ClearFstab { path: Seq<char>, items: Seq<ConfigItemV> },
    Check(Seq<char>),
    Repair(Seq<char>),
    TakeOwnership(Seq<char>),
    Unlock { path: Seq<char>, passphrase: Seq<char> },
    Lock(Seq<char>),
    ChangePassphrase { path: Seq<char>, old: Seq<char>, new: Seq<char> },
    HeaderBackup { path: Seq<char>, file: Seq<char> },
    RestoreHeader { path: Seq<char>, file: Seq<char> },
    ConvertLuks { path: Seq<char>, version: Seq<char> },
    ResizeLuks { path: Seq<char>, size: u64, passphrase: Seq<char> },
    SwapStart(Seq<char>),
    SwapStop(Seq<char>),
    LoopSetup { file: Seq<char>, read_only: bool },
    LoopDelete(Seq<char>),
    PowerOff(Seq<char>),
    Eject(Seq<char>),
    Standby(Seq<char>),
    Wakeup(Seq<char>),
    DriveConfig { path: Seq<char>, pairs: Seq<PairV> },
    Smart { path: Seq<char>, nvme: bool },
    SmartTest { path: Seq<char>, kind: Seq<char>, nvme: bool },
    SmartAbort { path: Seq<char>, nvme: bool },
    SecureErase { path: Seq<char>, enhanced: bool },
    Sanitize { path: Seq<char>, action: Seq<char> },
    RaidCreate { devices: Seq<Seq<char>>, level: Seq<char>, name: Seq<char>, chunk: u64 },
    RaidStart { path: Seq<char>, degraded: bool },
    RaidStop(Seq<char>),
    RaidDelete(Seq<char>),
    Benchmark { path: Seq<char>, write: bool, size: u64 },
    Backup { path: Seq<char>, file: Seq<char>, size: u64 },
    Restore { path: Seq<char>, file: Seq<char>, size: u64 },
    Rescan(Seq<char>),
    CancelJob(Seq<char>),
}

pub open spec fn string_views(v: Seq<String>) -> Seq<Seq<char>> {
    v.map_values(|s: String| s@)
}

impl View for Op {
    type V = OpV;

    open spec fn view(&self) -> OpV {
        match self {
            Op::Mount(p) => OpV::Mount(p@),
            Op::Unmount { path, force } => OpV::Unmount { path: path@, force: *force },
            Op::SetLabel { path, label, swap } => OpV::SetLabel { path: path@, label: label@, swap: *swap },
            Op::Format(r) => OpV::Format(r@),
            Op::CreatePartition(r) => OpV::CreatePartition(r@),
            Op::DeletePartition { path } => OpV::DeletePartition { path: path@ },
            Op::Resize { path, current, new_size, filesystem } => OpV::Resize {
                path: path@,
                current: *current,
                new_size: *new_size,
                filesystem: *filesystem,
            },
            Op::EditPartition { path, type_code, name, flags } => OpV::EditPartition {
                path: path@,
                type_code: type_code@,
                name: name@,
                flags: *flags,
            },
            Op::MountOptions(r) => OpV::MountOptions(r@),
            Op::ClearFstab { path, items } => OpV::ClearFstab { path: path@, items: item_views(items@) },
            Op::Check(p) => OpV::Check(p@),
            Op::Repair(p) => OpV::Repair(p@),
            Op::TakeOwnership(p) => OpV::TakeOwnership(p@),
            Op::Unlock { path, passphrase } => OpV::Unlock { path: path@, passphrase: passphrase@ },
            Op::Lock(p) => OpV::Lock(p@),
            Op::ChangePassphrase { path, old, new } => OpV::ChangePassphrase {
                path: path@,
                old: old@,
                new: new@,
            },
            Op::HeaderBackup { path, file } => OpV::HeaderBackup { path: path@, file: file@ },
            Op::RestoreHeader { path, file } => OpV::RestoreHeader { path: path@, file: file@ },
            Op::ConvertLuks { path, version } => OpV::ConvertLuks { path: path@, version: version@ },
            Op::ResizeLuks { path, size, passphrase } => OpV::ResizeLuks {
                path: path@,
                size: *size,
                passphrase: passphrase@,
            },
            Op::SwapStart(p) => OpV::SwapStart(p@),
            Op::SwapStop(p) => OpV::SwapStop(p@),
            Op::LoopSetup { file, read_only } => OpV::LoopSetup { file: file@, read_only: *read_only },
            Op::LoopDelete(p) => OpV::LoopDelete(p@),
            Op::PowerOff(p) => OpV::PowerOff(p@),
            Op::Eject(p) => OpV::Eject(p@),
            Op::Standby(p) => OpV::Standby(p@),
            Op::Wakeup(p) => OpV::Wakeup(p@),
            Op::DriveConfig { path, pairs } => OpV::DriveConfig { path: path@, pairs: pair_views(pairs@) },
            Op::Smart { path, nvme } => OpV::Smart { path: path@, nvme: *nvme },
            Op::SmartTest { path, kind, nvme } => OpV::SmartTest { path: path@, kind: kind@, nvme: *nvme },
            Op::SmartAbort { path, nvme } => OpV::SmartAbort { path: path@, nvme: *nvme },
            Op::SecureErase { path, enhanced } => OpV::SecureErase { path: path@, enhanced: *enhanced },
            Op::Sanitize { path, action } => OpV::Sanitize { path: path@, action: action@ },
            Op::RaidCreate { devices, level, name, chunk } => OpV::RaidCreate {
                devices: string_views(devices@),
                level: level@,
                name: name@,
                chunk: *chunk,
            },
            Op::RaidStart { path, degraded } => OpV::RaidStart { path: path@, degraded: *degraded },
            Op::RaidStop(p) => OpV::RaidStop(p@),
            Op::RaidDelete(p) => OpV::RaidDelete(p@),
            Op::Benchmark { path, write, size } => OpV::Benchmark { path: path@, write: *write, size: *size },
            Op::Backup { path, file, size } => OpV::Backup { path: path@, file: file@, size: *size },
            Op::Restore { path, file, size } => OpV::Restore { path: path@, file: file@, size: *size },
            Op::Rescan(p) => OpV::Rescan(p@),
            Op::CancelJob(p) => OpV::CancelJob(p@),
        }
    }
}

} // verus!
