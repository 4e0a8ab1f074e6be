//! What the interface does when an action is chosen, a form or a
//! confirmation is submitted, or a share is edited, mounted or removed.

use vstd::prelude::*;

use crate::dialogs::{benchmark_form_spec, convert_form_spec, create_form_spec, drive_form_spec, edit_form_spec, form_v, format_form_spec, header_form_spec, image_form_spec, label_form_spec, loop_form_spec, mount_options_form_spec, pass_form_spec, raid_form_spec, resize_form_spec, sanitize_form_spec, secure_erase_form_spec, smart_test_form_spec, unlock_form_spec, with_form};
use crate::form::{choice, choice_field, field_views, opt_of, opt_of_spec, secret, secret_field, string_seq, text, text_field, toggle, toggle_field, Field, FieldV, Form, FormId, FormIdV};
use crate::fstab::{missing_helper, missing_helper_spec, transform, transform_spec, Change, ChangeV, ShareV};
use crate::model::{confirm_ok, confirm_ok_spec, first_where, ActionId, Job, RowKind, RowKindV};
use crate::op::{Op, OpV};
use crate::privilege::{SudoJob, SudoJobV};
use crate::select::{confirm_name_spec, row_is_system_spec};
use crate::session::{confirm_op_spec, current_block_spec, current_drive_spec, current_kind_spec, queue_spec, with_error, Confirm, ConfirmV, Dialog, DialogV, Effect, EffectV, App, AppV};
use crate::submit::{build, build_spec, Build, BuildV};
use crate::text::{chars_of, contains, contains_chars, same_str, split_chars, split_on, views};

verus! {

/// What the front end reads for the library before a key press: the size
/// field of an open form as `parse_size` reads it, the free space of an open
/// create form in readable units, and whether the mount helper of the
/// selected share's type is installed.
pub struct Facts {
    pub size: Option<u64>,
    pub free_space: String,
    pub helper_installed: bool,
}

// ---------------------------------------------------------------------------
// Specifications
// ---------------------------------------------------------------------------

pub open spec fn selected_share(s: AppV) -> Option<ShareV> {
    if s.share_index < s.shares.len() {
        Some(s.shares[s.share_index as int])
    } else {
        None
    }
}

pub open spec fn known_protocol(p: Seq<char>) -> bool {
    p == "cifs"@ || p == "nfs"@ || p == "nfs4"@ || p == "fuse.sshfs"@
}

pub open spec fn or_empty(o: Option<Seq<char>>) -> Seq<char> {
    match o {
        Some(v) => v,
        None => Seq::empty(),
    }
}

/// The share form, filled from the selected share unless a new one is
/// added.
pub open spec fn share_protocol(share: Option<ShareV>) -> Seq<char> {
    match share {
        Some(x) => x.fstype,
        None => "cifs"@,
    }
}

pub open spec fn share_extra(share: Option<ShareV>) -> Seq<char> {
    match share {
        Some(x) => x.options,
        None => Seq::empty(),
    }
}

/// Protocol, source, target and login of the share form.
pub open spec fn share_fields_head(share: Option<ShareV>) -> Seq<FieldV> {
    let protocol = share_protocol(share);
    let extra = share_extra(share);
    seq![
        choice_field(
            "Protocol"@,
            seq!["cifs"@, "nfs"@, "nfs4"@, "fuse.sshfs"@, "custom"@],
            if known_protocol(protocol) {
                protocol
            } else {
                "custom"@
            },
        ),
        text_field(
            "Type"@,
            if known_protocol(protocol) {
                ""@
            } else {
                protocol
            },
        ),
        text_field(
            "Source"@,
            match share {
                Some(x) => x.source,
                None => ""@,
            },
        ),
        text_field(
            "Mount point"@,
            match share {
                Some(x) => x.target,
                None => "/mnt/"@,
            },
        ),
        toggle_field("Guest"@, split_on(extra, ',').contains("guest"@)),
        text_field("Username"@, ""@),
        secret_field("Password"@),
        text_field("Credentials file"@, or_empty(opt_of_spec(extra, "credentials"@))),
    ]
}

/// The mount options of the share form, and its id.
pub open spec fn share_fields_tail(share: Option<ShareV>, fresh: bool) -> Seq<FieldV> {
    let extra = share_extra(share);
    seq![
        text_field("SSH identity"@, or_empty(opt_of_spec(extra, "IdentityFile"@))),
        text_field("Extra options"@, extra),
        toggle_field("_netdev"@, contains(extra, "_netdev"@) || fresh),
        toggle_field("nofail"@, contains(extra, "nofail"@) || fresh),
        toggle_field("Automount"@, contains(extra, "x-systemd.automount"@)),
        text_field("Idle timeout"@, or_empty(opt_of_spec(extra, "x-systemd.idle-timeout"@))),
        choice_field(
            "SMB version"@,
            seq!["default"@, "3.1.1"@, "3.0"@, "2.1"@],
            match opt_of_spec(extra, "vers"@) {
                Some(v) => v,
                None => "default"@,
            },
        ),
        toggle_field("Mount now"@, false),
        text_field(
            "Id"@,
            match share {
                Some(x) => x.id,
                None => ""@,
            },
        ),
    ]
}

/// The share form, filled from the selected share unless a new one is
/// added.
pub open spec fn share_fields(share: Option<ShareV>, fresh: bool) -> Seq<FieldV> {
    share_fields_head(share) + share_fields_tail(share, fresh)
}

pub open spec fn share_form_spec(s: AppV, fresh: bool) -> AppV {
    let share = if fresh {
        None
    } else {
        selected_share(s)
    };
    with_form(
        s,
        form_v(
            if fresh {
                "Add network share"@
            } else {
                "Edit network share"@
            },
            "The password is stored in a root-only credentials file, not in fstab."@,
            Seq::empty(),
            share_fields(share, fresh),
            FormIdV::Share,
        ),
    )
}

/// Removing a share rewrites fstab without it, through a root job.
pub open spec fn delete_share_spec(s: AppV) -> AppV {
    match selected_share(s) {
        None => with_error(s, "No share selected."@),
        Some(x) => AppV {
            pending: EffectV::Sudo(
                SudoJobV::ApplyFstab {
                    contents: transform_spec(
                        s.fstab,
                        ChangeV::Delete { id: x.id, source: x.source, target: x.target },
                    ),
                    creds: None,
                    mount: None,
                },
            ),
            info: "Removing "@ + x.target,
            ..s
        },
    }
}

/// Mounting a share needs its helper; unmounting does not.
pub open spec fn mount_share_spec(s: AppV, mount: bool, installed: bool) -> AppV {
    match selected_share(s) {
        None => s,
        Some(x) => if mount {
            match missing_helper_spec(x.fstype, installed) {
                Some(m) => with_error(s, m),
                None => AppV { pending: EffectV::Sudo(SudoJobV::Mount(x.target)), ..s },
            }
        } else {
            AppV { pending: EffectV::Sudo(SudoJobV::Umount(x.target)), ..s }
        },
    }
}

pub open spec fn force_unmount_spec(s: AppV) -> AppV {
    match current_block_spec(s) {
        None => s,
        Some(b) => queue_spec(s, OpV::Unmount { path: b.path@, force: true }),
    }
}

/// A job UDisks can cancel is cancelled; otherwise a running copy is
/// asked to stop.
pub open spec fn cancel_job_spec(s: AppV) -> AppV {
    match first_where(s.model.jobs@, |j: Job| j.cancelable) {
        Some(j) => queue_spec(s, OpV::CancelJob(j.path@)),
        None => if s.running {
            AppV { cancel: true, ..s }
        } else {
            s
        },
    }
}

pub open spec fn open_smart_spec(s: AppV) -> AppV {
    match current_drive_spec(s) {
        None => with_error(s, "Select a drive."@),
        Some(d) => queue_spec(
            AppV { smart_target: Some((d.path@, d.nvme)), ..s },
            OpV::Smart { path: d.nvme_path@, nvme: d.nvme },
        ),
    }
}

pub open spec fn confirm_current_spec(s: AppV, id: ActionId) -> AppV {
    if id == ActionId::Delete {
        match current_block_spec(s) {
            None => s,
            Some(b) => confirm_op_spec(
                s,
                "Delete"@,
                "This destroys the data on the selection."@,
                OpV::DeletePartition { path: b.path@ },
            ),
        }
    } else if id == ActionId::RaidDelete {
        match current_kind_spec(s) {
            Some(RowKindV::Raid { raid }) => confirm_op_spec(
                s,
                "Delete"@,
                "This destroys the data on the selection."@,
                OpV::RaidDelete(raid),
            ),
            _ => s,
        }
    } else {
        s
    }
}

/// The confirm dialog queues its operation only once the kernel name (and,
/// for a system row, `system`) was typed; otherwise it says what to type.
pub open spec fn submit_confirm_spec(s: AppV) -> AppV {
    match s.dialog {
        DialogV::Confirm(c) => if confirm_ok_spec(c.kernel, c.typed, c.system, c.ack) {
            queue_spec(AppV { dialog: DialogV::Closed, ..s }, c.op)
        } else {
            with_error(
                s,
                if c.system {
                    "Type "@ + c.kernel + " and then system."@
                } else {
                    "Type "@ + c.kernel + " to confirm."@
                },
            )
        },
        _ => s,
    }
}

pub struct FactsV {
    pub size: Option<u64>,
    pub free_space: Seq<char>,
    pub helper_installed: bool,
}

impl View for Facts {
    type V = FactsV;

    open spec fn view(&self) -> FactsV {
        FactsV { size: self.size, free_space: self.free_space@, helper_installed: self.helper_installed }
    }
}

/// A confirmation built by a form names the selected row (or keeps its own
/// name); `raid` keeps the form's own system flag, anything else adds the
/// row's.
pub open spec fn form_confirm_spec(
    s: AppV,
    title: Seq<char>,
    body: Seq<char>,
    op: OpV,
    kernel: Seq<char>,
    system: bool,
) -> AppV {
    let kind = current_kind_spec(s);
    let k1 = if kernel.len() == 0 {
        match kind {
            Some(k) => confirm_name_spec(s.model, k),
            None => Seq::empty(),
        }
    } else {
        kernel
    };
    let sys = if k1 == "raid"@ {
        system
    } else {
        (match kind {
            Some(k) => row_is_system_spec(s.model, k),
            None => false,
        }) || system
    };
    AppV {
        dialog: DialogV::Confirm(
            ConfirmV {
                title,
                body,
                kernel: if k1.len() == 0 {
                    "confirm"@
                } else {
                    k1
                },
                system: sys,
                typed: Seq::empty(),
                ack: Seq::empty(),
                which: 0,
                op,
            },
        ),
        ..s
    }
}

pub open spec fn submit_form_spec(s: AppV, facts: FactsV) -> AppV {
    match s.dialog {
        DialogV::Form(f) => match build_spec(
            f.fields,
            f.id,
            s.model,
            s.caps,
            s.uid,
            s.gid,
            s.fstab,
            facts.size,
        ) {
            BuildV::Error(t) => with_error(s, t),
            BuildV::TooBig(_) => with_error(
                s,
                "Size is larger than the free space ("@ + facts.free_space + ")."@,
            ),
            BuildV::Op(op) => queue_spec(AppV { dialog: DialogV::Closed, ..s }, op),
            BuildV::Confirm { title, body, op, kernel, system } => form_confirm_spec(
                s,
                title,
                body,
                op,
                kernel,
                system,
            ),
            BuildV::Sudo(job) => AppV { dialog: DialogV::Closed, pending: EffectV::Sudo(job), ..s },
        },
        _ => s,
    }
}

/// Queues an operation on the selected block, when there is one.
pub open spec fn on_block(s: AppV, op: spec_fn(Seq<char>) -> OpV) -> AppV {
    match current_block_spec(s) {
        Some(b) => queue_spec(s, op(b.path@)),
        None => s,
    }
}

/// Queues an operation on the selected drive, when there is one.
pub open spec fn on_drive(s: AppV, op: spec_fn(Seq<char>) -> OpV) -> AppV {
    match current_drive_spec(s) {
        Some(d) => queue_spec(s, op(d.path@)),
        None => s,
    }
}

/// Queues an operation on the selected array, when an array is selected.
pub open spec fn on_raid(s: AppV, op: spec_fn(Seq<char>) -> OpV) -> AppV {
    match current_kind_spec(s) {
        Some(RowKindV::Raid { raid }) => queue_spec(s, op(raid)),
        _ => s,
    }
}

/// What choosing an action does: a direct operation, a confirmation, or a
/// form. Nothing starts while another operation runs.
pub open spec fn open_action_spec(s: AppV, id: ActionId) -> AppV {
    if s.busy {
        with_error(s, "Wait for the current operation to finish."@)
    } else {
        match id {
            ActionId::Mount => on_block(s, |p: Seq<char>| OpV::Mount(p)),
            ActionId::Unmount => on_block(s, |p: Seq<char>| OpV::Unmount { path: p, force: false }),
            ActionId::SwapOn => on_block(s, |p: Seq<char>| OpV::SwapStart(p)),
            ActionId::SwapOff => on_block(s, |p: Seq<char>| OpV::SwapStop(p)),
            ActionId::Lock => on_block(s, |p: Seq<char>| OpV::Lock(p)),
            ActionId::TakeOwnership => on_block(s, |p: Seq<char>| OpV::TakeOwnership(p)),
            ActionId::Check => on_block(s, |p: Seq<char>| OpV::Check(p)),
            ActionId::Repair => match current_block_spec(s) {
                Some(b) => confirm_op_spec(
                    s,
                    "Repair filesystem"@,
                    "Repair can change data on the filesystem."@,
                    OpV::Repair(b.path@),
                ),
                None => s,
            },
            ActionId::Standby => on_drive(s, |p: Seq<char>| OpV::Standby(p)),
            ActionId::Wakeup => on_drive(s, |p: Seq<char>| OpV::Wakeup(p)),
            ActionId::Eject => on_drive(s, |p: Seq<char>| OpV::Eject(p)),
            ActionId::Rescan => on_block(s, |p: Seq<char>| OpV::Rescan(p)),
            ActionId::DetachLoop => on_block(s, |p: Seq<char>| OpV::LoopDelete(p)),
            ActionId::RaidStart => on_raid(s, |p: Seq<char>| OpV::RaidStart { path: p, degraded: true }),
            ActionId::RaidStop => on_raid(s, |p: Seq<char>| OpV::RaidStop(p)),
            ActionId::PowerOff => match current_drive_spec(s) {
                Some(d) => confirm_op_spec(
                    s,
                    "Power off"@,
                    "The drive disappears until it is plugged in again."@,
                    OpV::PowerOff(d.path@),
                ),
                None => s,
            },
            ActionId::Delete => confirm_current_spec(s, id),
            ActionId::RaidDelete => confirm_current_spec(s, id),
            ActionId::Format => format_form_spec(s, false),
            ActionId::FormatDisk => format_form_spec(s, true),
            ActionId::CreatePartition => create_form_spec(s),
            ActionId::Resize => resize_form_spec(s),
            ActionId::Label => label_form_spec(s),
            ActionId::MountOptions => mount_options_form_spec(s),
            ActionId::Unlock => unlock_form_spec(s),
            ActionId::ChangePassphrase => pass_form_spec(s),
            ActionId::EditPartition => edit_form_spec(s),
            ActionId::Benchmark => benchmark_form_spec(s),
            ActionId::CreateImage => image_form_spec(s, false),
            ActionId::RestoreImage => image_form_spec(s, true),
            ActionId::Smart => open_smart_spec(s),
            ActionId::SmartTest => smart_test_form_spec(s),
            ActionId::DriveSettings => drive_form_spec(s),
            ActionId::AttachImage => loop_form_spec(s),
            ActionId::SecureErase => secure_erase_form_spec(s),
            ActionId::Sanitize => sanitize_form_spec(s),
            ActionId::RaidCreate => raid_form_spec(s),
            ActionId::HeaderBackup => header_form_spec(s, false),
            ActionId::RestoreHeader => header_form_spec(s, true),
            ActionId::ConvertLuks => convert_form_spec(s),
        }
    }
}


fn list4(a: &str, b: &str, c: &str, d: &str) -> (r: Vec<String>)
    ensures
        string_seq(r@) == seq![a@, b@, c@, d@],
{
    let mut r: Vec<String> = Vec::new();
    r.push(String::from_str(a));
    r.push(String::from_str(b));
    r.push(String::from_str(c));
    r.push(String::from_str(d));
    assert(string_seq(r@) =~= seq![a@, b@, c@, d@]);
    r
}

fn list5(a: &str, b: &str, c: &str, d: &str, e: &str) -> (r: Vec<String>)
    ensures
        string_seq(r@) == seq![a@, b@, c@, d@, e@],
{
    let mut r: Vec<String> = Vec::new();
    r.push(String::from_str(a));
    r.push(String::from_str(b));
    r.push(String::from_str(c));
    r.push(String::from_str(d));
    r.push(String::from_str(e));
    assert(string_seq(r@) =~= seq![a@, b@, c@, d@, e@]);
    r
}

fn put(v: &mut Vec<Field>, f: Field)
    ensures
        field_views(final(v)@) == field_views(old(v)@).push(f@),
{
    let ghost pre = field_views(v@);
    v.push(f);
    assert(field_views(v@) =~= pre.push(f@));
}

fn has_piece(text: &str, piece: &str) -> (r: bool)
    ensures
        r == split_on(text@, ',').contains(piece@),
{
    let t = chars_of(text);
    let ps = split_chars(t.as_slice(), ',');
    let ghost pv = views(ps@);
    let mut i: usize = 0;
    while i < ps.len()
        invariant
            i <= ps@.len(),
            pv == views(ps@),
            pv == split_on(text@, ','),
            forall|j: int| 0 <= j < i ==> pv[j] != piece@,
        decreases ps@.len() - i,
    {
        assert(pv[i as int] == ps@[i as int]@);
        if crate::text::eq_str(ps[i].as_slice(), piece) {
            return true;
        }
        i = i + 1;
    }
    false
}

fn has_text(text: &str, part: &str) -> (r: bool)
    ensures
        r == contains(text@, part@),
{
    let t = chars_of(text);
    let p = chars_of(part);
    contains_chars(t.as_slice(), p.as_slice())
}

fn copy_share(x: &crate::fstab::Share) -> (r: crate::fstab::Share)
    ensures
        r@ == x@,
{
    crate::fstab::Share {
        id: x.id.clone(),
        source: x.source.clone(),
        target: x.target.clone(),
        fstype: x.fstype.clone(),
        options: x.options.clone(),
    }
}


pub open spec fn opt_share_view(o: Option<crate::fstab::Share>) -> Option<ShareV> {
    match o {
        Some(x) => Some(x@),
        None => None,
    }
}

fn protocol_of(share: &Option<crate::fstab::Share>) -> (r: String)
    ensures
        r@ == share_protocol(opt_share_view(*share)),
{
    match share {
        Some(x) => x.fstype.clone(),
        None => String::from_str("cifs"),
    }
}

fn extra_of(share: &Option<crate::fstab::Share>) -> (r: String)
    ensures
        r@ == share_extra(opt_share_view(*share)),
{
    match share {
        Some(x) => x.options.clone(),
        None => String::new(),
    }
}

fn option_or(o: Option<String>, default: &str) -> (r: String)
    ensures
        r@ == match o {
            Some(v) => v@,
            None => default@,
        },
{
    match o {
        Some(v) => v,
        None => String::from_str(default),
    }
}

fn option_or_empty(o: Option<String>) -> (r: String)
    ensures
        r@ == or_empty(crate::form::opt_string_view(o)),
{
    match o {
        Some(v) => v,
        None => String::new(),
    }
}

fn share_head(share: &Option<crate::fstab::Share>) -> (r: Vec<Field>)
    ensures
        field_views(r@) == share_fields_head(opt_share_view(*share)),
{
    let protocol = protocol_of(share);
    let extra = extra_of(share);
    let p = protocol.as_str();
    let known = same_str(p, "cifs") || same_str(p, "nfs") || same_str(p, "nfs4") || same_str(p, "fuse.sshfs");
    let e = extra.as_str();
    let creds = option_or_empty(opt_of(e, "credentials"));
    let mut fields: Vec<Field> = Vec::new();
    put(&mut fields, choice("Protocol", list5("cifs", "nfs", "nfs4", "fuse.sshfs", "custom"), if known { p } else { "custom" }));
    put(&mut fields, text("Type", if known { "" } else { p }));
    put(&mut fields, text("Source", match share { Some(x) => x.source.as_str(), None => "" }));
    put(&mut fields, text("Mount point", match share { Some(x) => x.target.as_str(), None => "/mnt/" }));
    put(&mut fields, toggle("Guest", has_piece(e, "guest")));
    put(&mut fields, text("Username", ""));
    put(&mut fields, secret("Password"));
    put(&mut fields, text("Credentials file", creds.as_str()));
    assert(field_views(fields@) =~= share_fields_head(opt_share_view(*share)));
    fields
}

fn share_tail(share: &Option<crate::fstab::Share>, fresh: bool) -> (r: Vec<Field>)
    ensures
        field_views(r@) == share_fields_tail(opt_share_view(*share), fresh),
{
    let extra = extra_of(share);
    let e = extra.as_str();
    let ident = option_or_empty(opt_of(e, "IdentityFile"));
    let idle = option_or_empty(opt_of(e, "x-systemd.idle-timeout"));
    let vers = option_or(opt_of(e, "vers"), "default");
    let mut fields: Vec<Field> = Vec::new();
    put(&mut fields, text("SSH identity", ident.as_str()));
    put(&mut fields, text("Extra options", e));
    put(&mut fields, toggle("_netdev", has_text(e, "_netdev") || fresh));
    put(&mut fields, toggle("nofail", has_text(e, "nofail") || fresh));
    put(&mut fields, toggle("Automount", has_text(e, "x-systemd.automount")));
    put(&mut fields, text("Idle timeout", idle.as_str()));
    put(&mut fields, choice("SMB version", list4("default", "3.1.1", "3.0", "2.1"), vers.as_str()));
    put(&mut fields, toggle("Mount now", false));
    put(&mut fields, text("Id", match share { Some(x) => x.id.as_str(), None => "" }));
    assert(field_views(fields@) =~= share_fields_tail(opt_share_view(*share), fresh));
    fields
}

impl App {
    fn selected_share(&self) -> (r: Option<crate::fstab::Share>)
        ensures
            match r {
                Some(x) => selected_share(self@) == Some(x@),
                None => selected_share(self@) is None,
            },
    {
        if self.share_index < self.shares.len() {
            Some(copy_share(&self.shares[self.share_index]))
        } else {
            None
        }
    }

    pub(crate) fn open_share(&mut self, fresh: bool)
        ensures
            final(self)@ == share_form_spec(old(self)@, fresh),
    {
        let share = if fresh {
            None
        } else {
            self.selected_share()
        };
        let ghost sh = opt_share_view(share);
        let mut fields = share_head(&share);
        let mut tail = share_tail(&share, fresh);
        let ghost hv = field_views(fields@);
        let ghost tv = field_views(tail@);
        let ghost f0 = fields@;
        let ghost t0 = tail@;
        fields.append(&mut tail);
        assert(fields@ == f0 + t0);
        assert(field_views(fields@) =~= hv + tv);
        let form = Form {
            title: String::from_str(if fresh { "Add network share" } else { "Edit network share" }),
            blurb: String::from_str("The password is stored in a root-only credentials file, not in fstab."),
            sizes: Vec::new(),
            fields,
            focus: 0,
            id: FormId::Share,
        };
        proof {
            assert(sh == if fresh { None } else { selected_share(old(self)@) });
            assert(form@.sizes =~= Seq::<(usize, u64)>::empty());
        }
        self.show(form);
    }

    pub(crate) fn delete_share(&mut self)
        ensures
            final(self)@ == delete_share_spec(old(self)@),
    {
        let share = match self.selected_share() {
            None => {
                self.set_error("No share selected.");
                return ;
            },
            Some(x) => x,
        };
        let info = String::from_str("Removing ").concat(share.target.as_str());
        let change = Change::Delete { id: share.id, source: share.source, target: share.target };
        let next = transform(self.fstab.as_str(), &change);
        self.pending = Effect::Sudo(SudoJob::ApplyFstab { contents: next, creds: None, mount: None });
        self.info = info;
    }

    pub(crate) fn mount_share(&mut self, mount: bool, installed: bool)
        ensures
            final(self)@ == mount_share_spec(old(self)@, mount, installed),
    {
        let share = match self.selected_share() {
            None => return ,
            Some(x) => x,
        };
        if mount {
            match missing_helper(share.fstype.as_str(), installed) {
                Some(m) => {
                    self.error = m;
                    return ;
                },
                None => {},
            }
            self.pending = Effect::Sudo(SudoJob::Mount(share.target));
        } else {
            self.pending = Effect::Sudo(SudoJob::Umount(share.target));
        }
    }

    fn block_path(&self) -> (r: Option<String>)
        ensures
            match r {
                Some(p) => current_block_spec(self@) is Some && p@ == current_block_spec(self@)->0.path@,
                None => current_block_spec(self@) is None,
            },
    {
        match self.current_block() {
            Some(b) => Some(b.path.clone()),
            None => None,
        }
    }

    fn drive_path(&self) -> (r: Option<String>)
        ensures
            match r {
                Some(p) => current_drive_spec(self@) is Some && p@ == current_drive_spec(self@)->0.path@,
                None => current_drive_spec(self@) is None,
            },
    {
        match self.current_drive() {
            Some(d) => Some(d.path.clone()),
            None => None,
        }
    }

    fn raid_path(&self) -> (r: Option<String>)
        ensures
            match r {
                Some(p) => current_kind_spec(self@) == Some(RowKindV::Raid { raid: p@ }),
                None => !(current_kind_spec(self@) matches Some(RowKindV::Raid { .. })),
            },
    {
        match self.current_kind() {
            Some(RowKind::Raid { raid }) => Some(raid),
            _ => None,
        }
    }

    pub(crate) fn force_unmount(&mut self)
        ensures
            final(self)@ == force_unmount_spec(old(self)@),
    {
        match self.block_path() {
            Some(p) => self.queue(Op::Unmount { path: p, force: true }),
            None => {},
        }
    }

    pub(crate) fn cancel_job(&mut self)
        ensures
            final(self)@ == cancel_job_spec(old(self)@),
    {
        let ghost f = |j: Job| j.cancelable;
        let mut i: usize = 0;
        while i < self.model.jobs.len() && !self.model.jobs[i].cancelable
            invariant
                i <= self.model.jobs@.len(),
                f == (|j: Job| j.cancelable),
                forall|k: int| 0 <= k < i ==> !f(#[trigger] self.model.jobs@[k]),
            decreases self.model.jobs@.len() - i,
        {
            i = i + 1;
        }
        if i < self.model.jobs.len() {
            proof {
                crate::model::lemma_first_at(self.model.jobs@, f, i as int);
            }
            let p = self.model.jobs[i].path.clone();
            self.queue(Op::CancelJob(p));
            return ;
        }
        proof {
            crate::model::lemma_first_none(self.model.jobs@, f);
        }
        if self.running {
            self.cancel = true;
        }
    }

    pub(crate) fn open_smart(&mut self)
        ensures
            final(self)@ == open_smart_spec(old(self)@),
    {
        let (path, nvme, nvme_path) = match self.current_drive() {
            None => {
                self.set_error("Select a drive.");
                return ;
            },
            Some(d) => (d.path.clone(), d.nvme, d.nvme_path.clone()),
        };
        self.smart_target = Some((path, nvme));
        self.queue(Op::Smart { path: nvme_path, nvme });
    }

    pub(crate) fn confirm_current(&mut self, id: ActionId)
        ensures
            final(self)@ == confirm_current_spec(old(self)@, id),
    {
        if id == ActionId::Delete {
            match self.block_path() {
                Some(p) => self.confirm_op(
                    "Delete",
                    "This destroys the data on the selection.",
                    Op::DeletePartition { path: p },
                ),
                None => {},
            }
        } else if id == ActionId::RaidDelete {
            match self.raid_path() {
                Some(p) => self.confirm_op(
                    "Delete",
                    "This destroys the data on the selection.",
                    Op::RaidDelete(p),
                ),
                None => {},
            }
        }
    }

    pub(crate) fn submit_confirm(&mut self)
        ensures
            final(self)@ == submit_confirm_spec(old(self)@),
    {
        let message = match &self.dialog {
            Dialog::Confirm(c) => {
                if confirm_ok(c.kernel.as_str(), c.typed.as_str(), c.system, c.ack.as_str()) {
                    None
                } else if c.system {
                    Some(String::from_str("Type ").concat(c.kernel.as_str()).concat(" and then system."))
                } else {
                    Some(String::from_str("Type ").concat(c.kernel.as_str()).concat(" to confirm."))
                }
            },
            _ => return ,
        };
        match message {
            Some(m) => {
                self.error = m;
            },
            None => {
                let mut d = Dialog::Closed;
                std::mem::swap(&mut d, &mut self.dialog);
                match d {
                    Dialog::Confirm(c) => self.queue(c.op),
                    _ => {},
                }
            },
        }
    }

    pub(crate) fn submit_form(&mut self, facts: &Facts)
        ensures
            final(self)@ == submit_form_spec(old(self)@, facts@),
    {
        let built = match &self.dialog {
            Dialog::Form(form) => build(
                form,
                &self.model,
                &self.caps,
                self.uid,
                self.gid,
                self.fstab.as_str(),
                facts.size,
            ),
            _ => return ,
        };
        match built {
            Build::Error(t) => self.error = t,
            Build::TooBig(_) => {
                self.error = String::from_str("Size is larger than the free space (").concat(
                    facts.free_space.as_str(),
                ).concat(").");
            },
            Build::Op(op) => {
                self.dialog = Dialog::Closed;
                self.queue(op);
            },
            Build::Confirm { title, body, op, kernel, system } => {
                let kind = self.current_kind();
                let k1 = if kernel.as_str().is_empty() {
                    match &kind {
                        Some(k) => self.model.confirm_name(k),
                        None => String::new(),
                    }
                } else {
                    kernel
                };
                let sys = if same_str(k1.as_str(), "raid") {
                    system
                } else {
                    (match &kind {
                        Some(k) => self.model.row_is_system(k),
                        None => false,
                    }) || system
                };
                let k2 = if k1.as_str().is_empty() {
                    String::from_str("confirm")
                } else {
                    k1
                };
                self.dialog = Dialog::Confirm(
                    Confirm {
                        title,
                        body,
                        kernel: k2,
                        system: sys,
                        typed: String::new(),
                        ack: String::new(),
                        which: 0,
                        op,
                    },
                );
            },
            Build::Sudo(job) => {
                self.dialog = Dialog::Closed;
                self.pending = Effect::Sudo(job);
            },
        }
    }

    pub(crate) fn open_action(&mut self, id: ActionId)
        ensures
            final(self)@ == open_action_spec(old(self)@, id),
    {
        if self.busy {
            self.set_error("Wait for the current operation to finish.");
            return ;
        }
        match id {
            ActionId::Mount => match self.block_path() {
                Some(p) => self.queue(Op::Mount(p)),
                None => {},
            },
            ActionId::Unmount => match self.block_path() {
                Some(p) => self.queue(Op::Unmount { path: p, force: false }),
                None => {},
            },
            ActionId::SwapOn => match self.block_path() {
                Some(p) => self.queue(Op::SwapStart(p)),
                None => {},
            },
            ActionId::SwapOff => match self.block_path() {
                Some(p) => self.queue(Op::SwapStop(p)),
                None => {},
            },
            ActionId::Lock => match self.block_path() {
                Some(p) => self.queue(Op::Lock(p)),
                None => {},
            },
            ActionId::TakeOwnership => match self.block_path() {
                Some(p) => self.queue(Op::TakeOwnership(p)),
                None => {},
            },
            ActionId::Check => match self.block_path() {
                Some(p) => self.queue(Op::Check(p)),
                None => {},
            },
            ActionId::Repair => match self.block_path() {
                Some(p) => self.confirm_op(
                    "Repair filesystem",
                    "Repair can change data on the filesystem.",
                    Op::Repair(p),
                ),
                None => {},
            },
            ActionId::Standby => match self.drive_path() {
                Some(p) => self.queue(Op::Standby(p)),
                None => {},
            },
            ActionId::Wakeup => match self.drive_path() {
                Some(p) => self.queue(Op::Wakeup(p)),
                None => {},
            },
            ActionId::Eject => match self.drive_path() {
                Some(p) => self.queue(Op::Eject(p)),
                None => {},
            },
            ActionId::Rescan => match self.block_path() {
                Some(p) => self.queue(Op::Rescan(p)),
                None => {},
            },
            ActionId::DetachLoop => match self.block_path() {
                Some(p) => self.queue(Op::LoopDelete(p)),
                None => {},
            },
            ActionId::RaidStart => match self.raid_path() {
                Some(p) => self.queue(Op::RaidStart { path: p, degraded: true }),
                None => {},
            },
            ActionId::RaidStop => match self.raid_path() {
                Some(p) => self.queue(Op::RaidStop(p)),
                None => {},
            },
            ActionId::PowerOff => match self.drive_path() {
                Some(p) => self.confirm_op(
                    "Power off",
                    "The drive disappears until it is plugged in again.",
                    Op::PowerOff(p),
                ),
                None => {},
            },
            ActionId::Delete => self.confirm_current(id),
            ActionId::RaidDelete => self.confirm_current(id),
            ActionId::Format => self.form_format(false),
            ActionId::FormatDisk => self.form_format(true),
            ActionId::CreatePartition => self.form_create(),
            ActionId::Resize => self.form_resize(),
            ActionId::Label => self.form_label(),
            ActionId::MountOptions => self.form_mount_options(),
            ActionId::Unlock => self.form_unlock(),
            ActionId::ChangePassphrase => self.form_pass(),
            ActionId::EditPartition => self.form_edit_partition(),
            ActionId::Benchmark => self.form_benchmark(),
            ActionId::CreateImage => self.form_image(false),
            ActionId::RestoreImage => self.form_image(true),
            ActionId::Smart => self.open_smart(),
            ActionId::SmartTest => self.form_smart_test(),
            ActionId::DriveSettings => self.form_drive(),
            ActionId::AttachImage => self.form_loop(),
            ActionId::SecureErase => self.form_secure_erase(),
            ActionId::Sanitize => self.form_sanitize(),
            ActionId::RaidCreate => self.form_raid(),
            ActionId::HeaderBackup => self.form_header(false),
            ActionId::RestoreHeader => self.form_header(true),
            ActionId::ConvertLuks => self.form_convert(),
        }
    }
}

} // verus!
