//! What the D-Bus calls of an operation carry: option dictionaries, the
//! order of the resize steps, and which fstab items are touched.

use vstd::prelude::*;
use vstd::string::*;
use vstd::utf8::*;

use crate::model::{pair_views, ConfigItem, ConfigItemV, PairV, PropVal, PropValV};
use crate::op::{CreateReq, CreateReqV, FormatReq, FormatReqV, MountOptReq, MountOptReqV, Op, OpV};
use crate::text::same_str;
use crate::util::with_nul;

verus! {

// ---------------------------------------------------------------------------
// Option dictionaries
// ---------------------------------------------------------------------------

pub open spec fn flag(key: Seq<char>) -> Seq<PairV> {
    seq![(key, PropValV::Bool(true))]
}

pub open spec fn when(c: bool, s: Seq<PairV>) -> Seq<PairV> {
    if c {
        s
    } else {
        Seq::empty()
    }
}

pub open spec fn luks_options(encrypt: bool, passphrase: Seq<char>) -> Seq<PairV> {
    when(
        encrypt,
        seq![
            ("encrypt.passphrase"@, PropValV::Str(passphrase)),
            ("encrypt.type"@, PropValV::Str("luks2"@)),
        ],
    )
}

/// The options of `Block.Format`: tear down what is on the device, update
/// the partition type, and the label, erase mode, ownership and LUKS
/// settings that the request asks for.
pub open spec fn format_options_spec(r: FormatReqV) -> Seq<PairV> {
    flag("tear-down"@) + flag("update-partition-type"@) + when(
        r.label.len() > 0 && r.kind != "empty"@,
        seq![("label"@, PropValV::Str(r.label))],
    ) + when(r.erase.len() > 0 && r.erase != "none"@, seq![("erase"@, PropValV::Str(r.erase))])
        + when(r.take_ownership, flag("take-ownership"@)) + luks_options(r.encrypt, r.passphrase)
}

fn push_pair(out: &mut Vec<(String, PropVal)>, key: &str, value: PropVal)
    ensures
        pair_views(final(out)@) == pair_views(old(out)@).push((key@, value@)),
{
    let ghost pre = out@;
    let e = (String::from_str(key), value);
    out.push(e);
    assert(out@ == pre.push(e));
    assert(pair_views(out@) =~= pair_views(pre).push((key@, value@)));
}

fn push_luks(out: &mut Vec<(String, PropVal)>, encrypt: bool, passphrase: &String)
    ensures
        pair_views(final(out)@) == pair_views(old(out)@) + luks_options(encrypt, passphrase@),
{
    let ghost pre = pair_views(out@);
    if encrypt {
        push_pair(out, "encrypt.passphrase", PropVal::Str(passphrase.clone()));
        push_pair(out, "encrypt.type", PropVal::Str(String::from_str("luks2")));
        assert(pair_views(out@) =~= pre + luks_options(encrypt, passphrase@));
    } else {
        assert(pair_views(out@) =~= pre + luks_options(encrypt, passphrase@));
    }
}

pub fn format_options(req: &FormatReq) -> (r: Vec<(String, PropVal)>)
    ensures
        pair_views(r@) == format_options_spec(req@),
{
    let mut out: Vec<(String, PropVal)> = Vec::new();
    push_pair(&mut out, "tear-down", PropVal::Bool(true));
    push_pair(&mut out, "update-partition-type", PropVal::Bool(true));
    let ghost a = pair_views(out@);
    assert(a =~= flag("tear-down"@) + flag("update-partition-type"@));
    let label_on = !req.label.as_str().is_empty() && !same_str(req.kind.as_str(), "empty");
    if label_on {
        push_pair(&mut out, "label", PropVal::Str(req.label.clone()));
    }
    let ghost b = pair_views(out@);
    assert(b =~= a + when(
        req@.label.len() > 0 && req@.kind != "empty"@,
        seq![("label"@, PropValV::Str(req@.label))],
    ));
    let erase_on = !req.erase.as_str().is_empty() && !same_str(req.erase.as_str(), "none");
    if erase_on {
        push_pair(&mut out, "erase", PropVal::Str(req.erase.clone()));
    }
    let ghost c = pair_views(out@);
    assert(c =~= b + when(
        req@.erase.len() > 0 && req@.erase != "none"@,
        seq![("erase"@, PropValV::Str(req@.erase))],
    ));
    if req.take_ownership {
        push_pair(&mut out, "take-ownership", PropVal::Bool(true));
    }
    let ghost d = pair_views(out@);
    assert(d =~= c + when(req@.take_ownership, flag("take-ownership"@)));
    push_luks(&mut out, req.encrypt, &req.passphrase);
    assert(pair_views(out@) =~= format_options_spec(req@));
    out
}

/// How a new partition is made: the options of the partition call and,
/// when a filesystem is asked for, the type and options of the format that
/// follows in the same call.
pub struct CreateCall {
    pub options: Vec<(String, PropVal)>,
    pub format: Option<(String, Vec<(String, PropVal)>)>,
}

/// MBR type codes (`0x..`) ask for a primary partition.
pub open spec fn create_options_spec(r: CreateReqV) -> Seq<PairV> {
    when(
        r.type_code.len() >= 2 && r.type_code.subrange(0, 2) == "0x"@,
        seq![("partition-type"@, PropValV::Str("primary"@))],
    )
}

pub open spec fn create_format_spec(r: CreateReqV) -> Seq<PairV> {
    flag("update-partition-type"@) + flag("take-ownership"@) + when(
        r.label.len() > 0,
        seq![("label"@, PropValV::Str(r.label))],
    ) + luks_options(r.encrypt, r.passphrase)
}

/// No filesystem is made when the type is empty or `empty`.
pub open spec fn creates_filesystem(r: CreateReqV) -> bool {
    r.fstype.len() > 0 && r.fstype != "empty"@
}

pub fn create_call(req: &CreateReq) -> (c: CreateCall)
    ensures
        pair_views(c.options@) == create_options_spec(req@),
        match c.format {
            Some((fstype, opts)) => creates_filesystem(req@) && fstype@ == req@.fstype && pair_views(
                opts@,
            ) == create_format_spec(req@),
            None => !creates_filesystem(req@),
        },
{
    let mut options: Vec<(String, PropVal)> = Vec::new();
    let t = crate::text::chars_of(req.type_code.as_str());
    let mbr = t.len() >= 2 && t[0] == '0' && t[1] == 'x';
    proof {
        if t@.len() >= 2 {
            assert(("0x"@).len() == 2) by {
                reveal_strlit("0x");
            }
            assert(t@.subrange(0, 2) == "0x"@ <==> (t@[0] == '0' && t@[1] == 'x')) by {
                reveal_strlit("0x");
                if t@[0] == '0' && t@[1] == 'x' {
                    assert(t@.subrange(0, 2) =~= "0x"@);
                }
                if t@.subrange(0, 2) == "0x"@ {
                    assert(t@.subrange(0, 2)[0] == t@[0]);
                    assert(t@.subrange(0, 2)[1] == t@[1]);
                }
            }
        }
    }
    if mbr {
        push_pair(&mut options, "partition-type", PropVal::Str(String::from_str("primary")));
    }
    assert(pair_views(options@) =~= create_options_spec(req@));
    let plain = req.fstype.as_str().is_empty() || same_str(req.fstype.as_str(), "empty");
    if plain {
        return CreateCall { options, format: None };
    }
    let mut fmt: Vec<(String, PropVal)> = Vec::new();
    push_pair(&mut fmt, "update-partition-type", PropVal::Bool(true));
    push_pair(&mut fmt, "take-ownership", PropVal::Bool(true));
    let ghost a = pair_views(fmt@);
    assert(a =~= flag("update-partition-type"@) + flag("take-ownership"@));
    if !req.label.as_str().is_empty() {
        push_pair(&mut fmt, "label", PropVal::Str(req.label.clone()));
    }
    assert(pair_views(fmt@) =~= a + when(
        req@.label.len() > 0,
        seq![("label"@, PropValV::Str(req@.label))],
    ));
    push_luks(&mut fmt, req.encrypt, &req.passphrase);
    assert(pair_views(fmt@) =~= create_format_spec(req@));
    CreateCall { options, format: Some((req.fstype.clone(), fmt)) }
}

// ---------------------------------------------------------------------------
// Resizing
// ---------------------------------------------------------------------------

/// The resize calls in order, each as (filesystem?, size). A new size of 0
/// means as large as possible. When a filesystem shrinks it goes first, so
/// that the partition never cuts it; when it grows, the partition goes
/// first and the filesystem then fills it.
pub open spec fn resize_steps_spec(current: u64, new_size: u64, filesystem: bool) -> Seq<(bool, u64)> {
    let grow = new_size == 0 || new_size > current;
    if filesystem && !grow {
        seq![(true, new_size), (false, new_size)]
    } else if filesystem {
        seq![(false, new_size), (true, 0u64)]
    } else {
        seq![(false, new_size)]
    }
}

pub fn resize_steps(current: u64, new_size: u64, filesystem: bool) -> (r: Vec<(bool, u64)>)
    ensures
        r@ == resize_steps_spec(current, new_size, filesystem),
{
    let grow = new_size == 0 || new_size > current;
    let mut r: Vec<(bool, u64)> = Vec::new();
    if filesystem && !grow {
        r.push((true, new_size));
        r.push((false, new_size));
    } else if filesystem {
        r.push((false, new_size));
        r.push((true, 0));
    } else {
        r.push((false, new_size));
    }
    assert(r@ =~= resize_steps_spec(current, new_size, filesystem));
    r
}

// ---------------------------------------------------------------------------
// fstab configuration items
// ---------------------------------------------------------------------------

/// The positions of the items of kind `fstab`, in order.
pub open spec fn fstab_positions(items: Seq<ConfigItemV>) -> Seq<usize>
    decreases items.len(),
{
    if items.len() == 0 {
        Seq::empty()
    } else {
        fstab_positions(items.drop_last()) + if items.last().kind == "fstab"@ {
            seq![(items.len() - 1) as usize]
        } else {
            Seq::empty()
        }
    }
}

pub fn fstab_indices(items: &Vec<ConfigItem>) -> (r: Vec<usize>)
    ensures
        r@ == fstab_positions(crate::model::item_views(items@)),
{
    let ghost all = crate::model::item_views(items@);
    let mut r: Vec<usize> = Vec::new();
    let mut i: usize = 0;
    while i < items.len()
        invariant
            i <= items@.len(),
            all == crate::model::item_views(items@),
            r@ == fstab_positions(all.subrange(0, i as int)),
        decreases items@.len() - i,
    {
        let ghost n = all.subrange(0, i + 1);
        assert(n.drop_last() =~= all.subrange(0, i as int));
        assert(n.last() == items@[i as int]@);
        if same_str(items[i].kind.as_str(), "fstab") {
            r.push(i);
        }
        assert(r@ =~= fstab_positions(n));
        i = i + 1;
    }
    assert(all.subrange(0, items@.len() as int) =~= all);
    r
}

/// The details of the fstab item that `Block.AddConfigurationItem` writes:
/// the four text fields as NUL-terminated bytes, no dump, the pass number,
/// and `track-parents`.
pub open spec fn mount_details_spec(r: MountOptReqV) -> Seq<PairV> {
    seq![
        ("fsname"@, PropValV::Bytes(encode_utf8(r.fsname).push(0))),
        ("dir"@, PropValV::Bytes(encode_utf8(r.dir).push(0))),
        ("type"@, PropValV::Bytes(encode_utf8(r.fstype).push(0))),
        ("opts"@, PropValV::Bytes(encode_utf8(r.opts).push(0))),
        ("freq"@, PropValV::I32(0)),
        ("passno"@, PropValV::I32(r.passno)),
        ("track-parents"@, PropValV::Bool(true)),
    ]
}

pub fn mount_details(req: &MountOptReq) -> (r: Vec<(String, PropVal)>)
    ensures
        pair_views(r@) == mount_details_spec(req@),
{
    let mut out: Vec<(String, PropVal)> = Vec::new();
    push_pair(&mut out, "fsname", PropVal::Bytes(with_nul(req.fsname.as_str())));
    push_pair(&mut out, "dir", PropVal::Bytes(with_nul(req.dir.as_str())));
    push_pair(&mut out, "type", PropVal::Bytes(with_nul(req.fstype.as_str())));
    push_pair(&mut out, "opts", PropVal::Bytes(with_nul(req.opts.as_str())));
    push_pair(&mut out, "freq", PropVal::I32(0));
    push_pair(&mut out, "passno", PropVal::I32(req.passno));
    push_pair(&mut out, "track-parents", PropVal::Bool(true));
    assert(pair_views(out@) =~= mount_details_spec(req@));
    out
}

} // verus!

verus! {

// ---------------------------------------------------------------------------
// Calls on one object with an option dictionary
// ---------------------------------------------------------------------------

/// What a call gives back.
#[derive(Clone, Copy, Debug, PartialEq, Eq, Structural)]
pub enum Answer {
    Unit,
    Text,
    Flag,
    Path,
}

/// A D-Bus call on the operation's object: its interface, its method, the
/// arguments before its option dictionary, the dictionary, and what it
/// gives back.
pub struct PlainCall {
    pub path: String,
    pub iface: &'static str,
    pub method: &'static str,
    pub args: Vec<PropVal>,
    pub options: Vec<(String, PropVal)>,
    pub answer: Answer,
}

pub struct PlainCallV {
    pub path: Seq<char>,
    pub iface: Seq<char>,
    pub method: Seq<char>,
    pub args: Seq<PropValV>,
    pub options: Seq<PairV>,
    pub answer: Answer,
}

pub open spec fn val_views(v: Seq<PropVal>) -> Seq<PropValV> {
    v.map_values(|p: PropVal| p@)
}

impl View for PlainCall {
    type V = PlainCallV;

    open spec fn view(&self) -> PlainCallV {
        PlainCallV {
            path: self.path@,
            iface: self.iface@,
            method: self.method@,
            args: val_views(self.args@),
            options: pair_views(self.options@),
            answer: self.answer,
        }
    }
}

pub open spec fn pca(
    path: Seq<char>,
    iface: Seq<char>,
    method: Seq<char>,
    args: Seq<PropValV>,
    options: Seq<PairV>,
    answer: Answer,
) -> PlainCallV {
    PlainCallV { path, iface, method, args, options, answer }
}

pub open spec fn pc(path: Seq<char>, iface: Seq<char>, method: Seq<char>, options: Seq<PairV>, answer: Answer) -> Option<PlainCallV> {
    Some(pca(path, iface, method, Seq::empty(), options, answer))
}

/// A call whose only argument before an empty dictionary is one string.
pub open spec fn str_call(path: Seq<char>, iface: Seq<char>, method: Seq<char>, arg: Seq<char>) -> Option<PlainCallV> {
    Some(pca(path, iface, method, seq![PropValV::Str(arg)], Seq::empty(), Answer::Unit))
}

/// The call for each operation that is one method on its object; `None`
/// for the others (several calls, a file descriptor, a list of devices,
/// or no call at all).
pub open spec fn plain_call_spec(op: OpV) -> Option<PlainCallV> {
    let fs = "org.freedesktop.UDisks2.Filesystem"@;
    let ata = "org.freedesktop.UDisks2.Drive.Ata"@;
    let nvme = "org.freedesktop.UDisks2.NVMe.Controller"@;
    let drive = "org.freedesktop.UDisks2.Drive"@;
    let raid = "org.freedesktop.UDisks2.MDRaid"@;
    let enc = "org.freedesktop.UDisks2.Encrypted"@;
    match op {
        OpV::SetLabel { path, label, swap } => str_call(
            path,
            if swap { "org.freedesktop.UDisks2.Swapspace"@ } else { fs },
            "SetLabel"@,
            label,
        ),
        OpV::Unlock { path, passphrase } => Some(
            pca(path, enc, "Unlock"@, seq![PropValV::Str(passphrase)], Seq::empty(), Answer::Path),
        ),
        OpV::ChangePassphrase { path, old, new } => Some(
            pca(
                path,
                enc,
                "ChangePassphrase"@,
                seq![PropValV::Str(old), PropValV::Str(new)],
                Seq::empty(),
                Answer::Unit,
            ),
        ),
        OpV::HeaderBackup { path, file } => str_call(path, enc, "HeaderBackup"@, file),
        OpV::RestoreHeader { path, file } => str_call(
            path,
            "org.freedesktop.UDisks2.Block"@,
            "RestoreEncryptedHeader"@,
            file,
        ),
        OpV::ConvertLuks { path, version } => str_call(path, enc, "Convert"@, version),
        OpV::ResizeLuks { path, size, passphrase } => Some(
            pca(
                path,
                enc,
                "Resize"@,
                seq![PropValV::U64(size)],
                seq![("passphrase"@, PropValV::Str(passphrase))],
                Answer::Unit,
            ),
        ),
        OpV::SmartTest { path, kind, nvme: n } => str_call(
            path,
            if n { nvme } else { ata },
            "SmartSelftestStart"@,
            kind,
        ),
        OpV::Sanitize { path, action } => str_call(path, nvme, "SanitizeStart"@, action),
        OpV::Mount(p) => pc(p, fs, "Mount"@, Seq::empty(), Answer::Text),
        OpV::Unmount { path, force } => pc(path, fs, "Unmount"@, when(force, flag("force"@)), Answer::Unit),
        OpV::DeletePartition { path } => pc(path, "org.freedesktop.UDisks2.Partition"@, "Delete"@, flag("tear-down"@), Answer::Unit),
        OpV::Check(p) => pc(p, fs, "Check"@, Seq::empty(), Answer::Flag),
        OpV::Repair(p) => pc(p, fs, "Repair"@, Seq::empty(), Answer::Flag),
        OpV::TakeOwnership(p) => pc(p, fs, "TakeOwnership"@, flag("recursive"@), Answer::Unit),
        OpV::Lock(p) => pc(p, "org.freedesktop.UDisks2.Encrypted"@, "Lock"@, Seq::empty(), Answer::Unit),
        OpV::SwapStart(p) => pc(p, "org.freedesktop.UDisks2.Swapspace"@, "Start"@, Seq::empty(), Answer::Unit),
        OpV::SwapStop(p) => pc(p, "org.freedesktop.UDisks2.Swapspace"@, "Stop"@, Seq::empty(), Answer::Unit),
        OpV::LoopDelete(p) => pc(p, "org.freedesktop.UDisks2.Loop"@, "Delete"@, Seq::empty(), Answer::Unit),
        OpV::PowerOff(p) => pc(p, drive, "PowerOff"@, Seq::empty(), Answer::Unit),
        OpV::Eject(p) => pc(p, drive, "Eject"@, Seq::empty(), Answer::Unit),
        OpV::Standby(p) => pc(p, ata, "PmStandby"@, Seq::empty(), Answer::Unit),
        OpV::Wakeup(p) => pc(p, ata, "PmWakeup"@, Seq::empty(), Answer::Unit),
        OpV::SmartAbort { path, nvme: n } => pc(path, if n { nvme } else { ata }, "SmartSelftestAbort"@, Seq::empty(), Answer::Unit),
        OpV::SecureErase { path, enhanced } => pc(path, ata, "SecurityEraseUnit"@, seq![("enhanced"@, PropValV::Bool(enhanced))], Answer::Unit),
        OpV::RaidStart { path, degraded } => pc(path, raid, "Start"@, when(degraded, flag("start-degraded"@)), Answer::Unit),
        OpV::RaidStop(p) => pc(p, raid, "Stop"@, Seq::empty(), Answer::Unit),
        OpV::RaidDelete(p) => pc(p, raid, "Delete"@, flag("tear-down"@), Answer::Unit),
        OpV::Rescan(p) => pc(p, "org.freedesktop.UDisks2.Block"@, "Rescan"@, Seq::empty(), Answer::Unit),
        OpV::CancelJob(p) => pc(p, "org.freedesktop.UDisks2.Job"@, "Cancel"@, Seq::empty(), Answer::Unit),
        _ => None,
    }
}

fn call_with(
    path: &String,
    iface: &'static str,
    method: &'static str,
    args: Vec<PropVal>,
    options: Vec<(String, PropVal)>,
    answer: Answer,
) -> (r: PlainCall)
    ensures
        r@ == pca(path@, iface@, method@, val_views(args@), pair_views(options@), answer),
{
    PlainCall { path: path.clone(), iface, method, args, options, answer }
}

fn call(path: &String, iface: &'static str, method: &'static str, options: Vec<(String, PropVal)>, answer: Answer) -> (r: Option<PlainCall>)
    ensures
        r matches Some(c) && c@ == pca(path@, iface@, method@, Seq::empty(), pair_views(options@), answer),
{
    let args: Vec<PropVal> = Vec::new();
    assert(val_views(args@) =~= Seq::<PropValV>::empty());
    Some(call_with(path, iface, method, args, options, answer))
}

/// One string argument, its view the string's.
fn str_arg(s: &String) -> (r: Vec<PropVal>)
    ensures
        val_views(r@) == seq![PropValV::Str(s@)],
{
    let mut r: Vec<PropVal> = Vec::new();
    r.push(PropVal::Str(s.clone()));
    assert(val_views(r@) =~= seq![PropValV::Str(s@)]);
    r
}

fn str_call_exec(path: &String, iface: &'static str, method: &'static str, arg: &String) -> (r: Option<PlainCall>)
    ensures
        r matches Some(c) && Some(c@) == str_call(path@, iface@, method@, arg@),
{
    Some(call_with(path, iface, method, str_arg(arg), no_options(), Answer::Unit))
}

fn no_options() -> (r: Vec<(String, PropVal)>)
    ensures
        pair_views(r@) == Seq::<PairV>::empty(),
{
    let r: Vec<(String, PropVal)> = Vec::new();
    assert(pair_views(r@) =~= Seq::<PairV>::empty());
    r
}

fn flag_if(c: bool, key: &str) -> (r: Vec<(String, PropVal)>)
    ensures
        pair_views(r@) == when(c, flag(key@)),
{
    let mut r: Vec<(String, PropVal)> = Vec::new();
    if c {
        push_pair(&mut r, key, PropVal::Bool(true));
    }
    assert(pair_views(r@) =~= when(c, flag(key@)));
    r
}

fn fs_call(op: &Op) -> (r: Option<PlainCall>)
    ensures
        match r {
            Some(c) => plain_call_spec(op@) == Some(c@),
            None => !(op@ is Mount || op@ is Unmount || op@ is DeletePartition || op@ is Check || op@ is Repair || op@ is TakeOwnership || op@ is Lock),
        },
{
    let fs = "org.freedesktop.UDisks2.Filesystem";
    match op {
        Op::Mount(p) => call(p, fs, "Mount", no_options(), Answer::Text),
        Op::Unmount { path, force } => call(path, fs, "Unmount", flag_if(*force, "force"), Answer::Unit),
        Op::DeletePartition { path } => call(path, "org.freedesktop.UDisks2.Partition", "Delete", flag_if(true, "tear-down"), Answer::Unit),
        Op::Check(p) => call(p, fs, "Check", no_options(), Answer::Flag),
        Op::Repair(p) => call(p, fs, "Repair", no_options(), Answer::Flag),
        Op::TakeOwnership(p) => call(p, fs, "TakeOwnership", flag_if(true, "recursive"), Answer::Unit),
        Op::Lock(p) => call(p, "org.freedesktop.UDisks2.Encrypted", "Lock", no_options(), Answer::Unit),
        _ => None,
    }
}

fn device_call(op: &Op) -> (r: Option<PlainCall>)
    ensures
        match r {
            Some(c) => plain_call_spec(op@) == Some(c@),
            None => !(op@ is SwapStart || op@ is SwapStop || op@ is LoopDelete || op@ is PowerOff || op@ is Eject || op@ is Standby || op@ is Wakeup),
        },
{
    let ata = "org.freedesktop.UDisks2.Drive.Ata";
    let drive = "org.freedesktop.UDisks2.Drive";
    match op {
        Op::SwapStart(p) => call(p, "org.freedesktop.UDisks2.Swapspace", "Start", no_options(), Answer::Unit),
        Op::SwapStop(p) => call(p, "org.freedesktop.UDisks2.Swapspace", "Stop", no_options(), Answer::Unit),
        Op::LoopDelete(p) => call(p, "org.freedesktop.UDisks2.Loop", "Delete", no_options(), Answer::Unit),
        Op::PowerOff(p) => call(p, drive, "PowerOff", no_options(), Answer::Unit),
        Op::Eject(p) => call(p, drive, "Eject", no_options(), Answer::Unit),
        Op::Standby(p) => call(p, ata, "PmStandby", no_options(), Answer::Unit),
        Op::Wakeup(p) => call(p, ata, "PmWakeup", no_options(), Answer::Unit),
        _ => None,
    }
}

fn array_call(op: &Op) -> (r: Option<PlainCall>)
    ensures
        match r {
            Some(c) => plain_call_spec(op@) == Some(c@),
            None => !(op@ is SmartAbort || op@ is SecureErase || op@ is RaidStart || op@ is RaidStop || op@ is RaidDelete || op@ is Rescan || op@ is CancelJob),
        },
{
    let ata = "org.freedesktop.UDisks2.Drive.Ata";
    let nvme = "org.freedesktop.UDisks2.NVMe.Controller";
    let raid = "org.freedesktop.UDisks2.MDRaid";
    match op {
        Op::SmartAbort { path, nvme: n } => call(path, if *n { nvme } else { ata }, "SmartSelftestAbort", no_options(), Answer::Unit),
        Op::SecureErase { path, enhanced } => {
            let mut o: Vec<(String, PropVal)> = Vec::new();
            push_pair(&mut o, "enhanced", PropVal::Bool(*enhanced));
            assert(pair_views(o@) =~= seq![("enhanced"@, PropValV::Bool(*enhanced))]);
            call(path, ata, "SecurityEraseUnit", o, Answer::Unit)
        },
        Op::RaidStart { path, degraded } => call(path, raid, "Start", flag_if(*degraded, "start-degraded"), Answer::Unit),
        Op::RaidStop(p) => call(p, raid, "Stop", no_options(), Answer::Unit),
        Op::RaidDelete(p) => call(p, raid, "Delete", flag_if(true, "tear-down"), Answer::Unit),
        Op::Rescan(p) => call(p, "org.freedesktop.UDisks2.Block", "Rescan", no_options(), Answer::Unit),
        Op::CancelJob(p) => call(p, "org.freedesktop.UDisks2.Job", "Cancel", no_options(), Answer::Unit),
        _ => None,
    }
}

fn argument_call(op: &Op) -> (r: Option<PlainCall>)
    ensures
        match r {
            Some(c) => plain_call_spec(op@) == Some(c@),
            None => !(op@ is SetLabel || op@ is Unlock || op@ is ChangePassphrase || op@ is HeaderBackup || op@ is RestoreHeader || op@ is ConvertLuks || op@ is ResizeLuks || op@ is SmartTest || op@ is Sanitize),
        },
{
    let enc = "org.freedesktop.UDisks2.Encrypted";
    let nvme = "org.freedesktop.UDisks2.NVMe.Controller";
    match op {
        Op::SetLabel { path, label, swap } => str_call_exec(
            path,
            if *swap { "org.freedesktop.UDisks2.Swapspace" } else { "org.freedesktop.UDisks2.Filesystem" },
            "SetLabel",
            label,
        ),
        Op::Unlock { path, passphrase } => Some(call_with(path, enc, "Unlock", str_arg(passphrase), no_options(), Answer::Path)),
        Op::ChangePassphrase { path, old, new } => {
            let mut args = str_arg(old);
            let ghost pre = args@;
            let second = PropVal::Str(new.clone());
            assert(second@ == PropValV::Str(new@));
            args.push(second);
            assert(args@ == pre.push(second));
            assert(val_views(args@) =~= val_views(pre).push(second@));
            assert(val_views(args@) =~= seq![PropValV::Str(old@), PropValV::Str(new@)]);
            Some(call_with(path, enc, "ChangePassphrase", args, no_options(), Answer::Unit))
        },
        Op::HeaderBackup { path, file } => str_call_exec(path, enc, "HeaderBackup", file),
        Op::RestoreHeader { path, file } => str_call_exec(path, "org.freedesktop.UDisks2.Block", "RestoreEncryptedHeader", file),
        Op::ConvertLuks { path, version } => str_call_exec(path, enc, "Convert", version),
        Op::ResizeLuks { path, size, passphrase } => {
            let mut args: Vec<PropVal> = Vec::new();
            args.push(PropVal::U64(*size));
            assert(val_views(args@) =~= seq![PropValV::U64(*size)]);
            let mut o: Vec<(String, PropVal)> = Vec::new();
            push_pair(&mut o, "passphrase", PropVal::Str(passphrase.clone()));
            assert(pair_views(o@) =~= seq![("passphrase"@, PropValV::Str(passphrase@))]);
            Some(call_with(path, enc, "Resize", args, o, Answer::Unit))
        },
        Op::SmartTest { path, kind, nvme: n } => str_call_exec(
            path,
            if *n { nvme } else { "org.freedesktop.UDisks2.Drive.Ata" },
            "SmartSelftestStart",
            kind,
        ),
        Op::Sanitize { path, action } => str_call_exec(path, nvme, "SanitizeStart", action),
        _ => None,
    }
}

pub fn plain_call(op: &Op) -> (r: Option<PlainCall>)
    ensures
        match r {
            Some(c) => plain_call_spec(op@) == Some(c@),
            None => plain_call_spec(op@) is None,
        },
{
    match fs_call(op) {
        Some(c) => return Some(c),
        None => {},
    }
    match device_call(op) {
        Some(c) => return Some(c),
        None => {},
    }
    match argument_call(op) {
        Some(c) => return Some(c),
        None => {},
    }
    array_call(op)
}

pub open spec fn call_views(v: Seq<PlainCall>) -> Seq<PlainCallV> {
    v.map_values(|c: PlainCall| c@)
}

/// The calls that edit a partition, in order: its type, its name, its
/// flags, each with an empty option dictionary.
pub open spec fn partition_edit_spec(path: Seq<char>, type_code: Seq<char>, name: Seq<char>, flags: u64) -> Seq<PlainCallV> {
    let part = "org.freedesktop.UDisks2.Partition"@;
    seq![
        pca(path, part, "SetType"@, seq![PropValV::Str(type_code)], Seq::empty(), Answer::Unit),
        pca(path, part, "SetName"@, seq![PropValV::Str(name)], Seq::empty(), Answer::Unit),
        pca(path, part, "SetFlags"@, seq![PropValV::U64(flags)], Seq::empty(), Answer::Unit),
    ]
}

pub fn partition_edit_calls(path: &String, type_code: &String, name: &String, flags: u64) -> (r: Vec<PlainCall>)
    ensures
        call_views(r@) == partition_edit_spec(path@, type_code@, name@, flags),
{
    let part = "org.freedesktop.UDisks2.Partition";
    let mut r: Vec<PlainCall> = Vec::new();
    let a = call_with(path, part, "SetType", str_arg(type_code), no_options(), Answer::Unit);
    r.push(a);
    let b = call_with(path, part, "SetName", str_arg(name), no_options(), Answer::Unit);
    r.push(b);
    let mut n: Vec<PropVal> = Vec::new();
    n.push(PropVal::U64(flags));
    assert(val_views(n@) =~= seq![PropValV::U64(flags)]);
    let c = call_with(path, part, "SetFlags", n, no_options(), Answer::Unit);
    r.push(c);
    assert(r@ == seq![a, b, c]);
    assert(call_views(r@) =~= seq![a@, b@, c@]);
    r
}

} // verus!
