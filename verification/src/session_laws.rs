//! Properties of the interface: what guards a destructive operation, what
//! a root job does first, and how an image named at start-up is attached.

use vstd::prelude::*;

use crate::flow::{open_action_spec, submit_confirm_spec, submit_form_spec, FactsV};
use crate::form::{val_spec, FormIdV, FormV};
use crate::keys::{on_key_spec, Key};
use crate::model::{confirm_ok_spec, is_system_mount_spec, ActionId, Model, RowKindV};
use crate::privilege::{backup_path, job_script_spec, SudoJobV};
use crate::fstab::{sh_quote_spec, CredV};
use crate::select::{block_at, row_is_system_spec};
use crate::model::{index_from, RowV};
use crate::op::OpV;
use crate::session::{confirm_op_spec, current_kind_spec, on_msg_spec, AppV, DialogV, EffectV, MsgV};
use crate::tree::rows_spec;
use crate::submit::build_spec;
use crate::text::starts_with;

verus! {

/// Submitting a confirm dialog starts its operation exactly when the kernel
/// name was typed (and, for a system row, `system` too); otherwise the
/// dialog stays, nothing starts, and the error says what to type.
pub proof fn law_confirm_needs_the_name(s: AppV)
    requires
        s.dialog is Confirm,
    ensures
        ({
            let c = s.dialog->Confirm_0;
            let t = submit_confirm_spec(s);
            if confirm_ok_spec(c.kernel, c.typed, c.system, c.ack) {
                t.pending == EffectV::Call(c.op) && t.dialog == DialogV::Closed
            } else {
                t.pending == s.pending && t.dialog == s.dialog && t.error.len() > 0
            }
        }),
{
    reveal_strlit("Type ");
}

/// While a confirm dialog is open and its check fails, no key press starts
/// its operation or any other: whatever was pending stays pending.
pub proof fn law_no_key_skips_confirm(s: AppV, key: Key, ctrl: bool, facts: FactsV)
    requires
        s.dialog is Confirm,
        !confirm_ok_spec(
            s.dialog->Confirm_0.kernel,
            s.dialog->Confirm_0.typed,
            s.dialog->Confirm_0.system,
            s.dialog->Confirm_0.ack,
        ),
    ensures
        on_key_spec(s, key, ctrl, facts).pending == s.pending,
{
}

/// A confirm dialog opened on a system row asks for `system` as well.
pub proof fn law_system_rows_ask_for_system(s: AppV, title: Seq<char>, body: Seq<char>, op: crate::op::OpV)
    requires
        current_kind_spec(s) is Some,
        row_is_system_spec(s.model, current_kind_spec(s)->0),
    ensures
        confirm_op_spec(s, title, body, op).dialog is Confirm,
        confirm_op_spec(s, title, body, op).dialog->Confirm_0.system,
{
}

/// A volume mounted at `/`, `/home` or `/boot` (or below `/boot/`), or in
/// use as swap, or marked by UDisks, is a system row.
pub proof fn law_system_volumes(m: Model, path: Seq<char>)
    requires
        block_at(m.blocks@, path) is Some,
        ({
            let b = block_at(m.blocks@, path)->0;
            b.hint_system || b.swap_active || exists|i: int|
                0 <= i < b.mount_points@.len() && is_system_mount_spec(#[trigger] b.mount_points@[i]@)
        }),
    ensures
        row_is_system_spec(m, RowKindV::Volume { block: path }),
{
}

/// `/`, `/home` and `/boot` are system mounts, and so is every path under
/// `/boot/`.
pub proof fn law_system_mount_paths(path: Seq<char>)
    ensures
        is_system_mount_spec("/"@),
        is_system_mount_spec("/home"@),
        is_system_mount_spec("/boot"@),
        path.len() >= 6 && path.subrange(0, 6) == "/boot/"@ ==> is_system_mount_spec(path),
{
    reveal_strlit("/boot/");
    if path.len() >= 6 && path.subrange(0, 6) == "/boot/"@ {
        assert(starts_with(path, "/boot/"@));
    }
}

/// A volume with a mount point at `/`, `/home` or `/boot`, or anywhere
/// under `/boot/`, is a system row: its confirm dialog asks for `system`.
pub proof fn law_boot_volume_is_system(m: Model, path: Seq<char>, i: int)
    requires
        block_at(m.blocks@, path) is Some,
        0 <= i < block_at(m.blocks@, path)->0.mount_points@.len(),
        ({
            let mp = block_at(m.blocks@, path)->0.mount_points@[i]@;
            ||| mp == "/"@
            ||| mp == "/home"@
            ||| mp == "/boot"@
            ||| mp.len() >= 6 && mp.subrange(0, 6) == "/boot/"@
        }),
    ensures
        row_is_system_spec(m, RowKindV::Volume { block: path }),
{
    let b = block_at(m.blocks@, path)->0;
    law_system_mount_paths(b.mount_points@[i]@);
    assert(is_system_mount_spec(b.mount_points@[i]@));
}

/// The forms whose operation destroys data: formatting, secure erase,
/// sanitize, restoring an image or a LUKS header, a write benchmark, and
/// creating an array.
pub open spec fn destructive(f: FormV) -> bool {
    match f.id {
        FormIdV::Format { .. } => true,
        FormIdV::FormatDisk { .. } => true,
        FormIdV::SecureErase { .. } => true,
        FormIdV::Sanitize { .. } => true,
        FormIdV::RaidCreate => true,
        FormIdV::Image { restore, .. } => restore,
        FormIdV::Header { restore, .. } => restore,
        FormIdV::Benchmark { .. } => val_spec(f.fields, "Mode"@) == "write"@,
        _ => false,
    }
}

/// A destructive form never starts its operation on submission: it opens
/// the confirm dialog (or reports an error), and nothing new is pending.
pub proof fn law_destructive_forms_confirm(s: AppV, facts: FactsV)
    requires
        s.dialog is Form,
        destructive(s.dialog->Form_0),
    ensures
        submit_form_spec(s, facts).pending == s.pending,
        !(build_spec(
            s.dialog->Form_0.fields,
            s.dialog->Form_0.id,
            s.model,
            s.caps,
            s.uid,
            s.gid,
            s.fstab,
            facts.size,
        ) is Op),
{
}

/// Deleting a partition or an array, powering a drive off and repairing a
/// filesystem open the confirm dialog instead of starting.
pub proof fn law_destructive_actions_confirm(s: AppV, id: ActionId)
    requires
        id == ActionId::Delete || id == ActionId::RaidDelete || id == ActionId::PowerOff || id
            == ActionId::Repair,
    ensures
        open_action_spec(s, id).pending == s.pending,
{
}

/// Before a new fstab is written, the current one is copied to
/// `/etc/fstab.bak.<stamp>`: the root script starts with that copy.
pub proof fn law_backup_first(contents: Seq<char>, creds: Option<CredV>, mount: Option<Seq<char>>, stamp: Seq<char>)
    ensures
        starts_with(
            job_script_spec(SudoJobV::ApplyFstab { contents, creds, mount }, stamp),
            "set -eu\n"@ + "cp -a /etc/fstab "@ + sh_quote_spec(backup_path(stamp)) + "\n"@,
        ),
{
    let head = "set -eu\n"@ + "cp -a /etc/fstab "@ + sh_quote_spec(backup_path(stamp)) + "\n"@;
    let script = job_script_spec(SudoJobV::ApplyFstab { contents, creds, mount }, stamp);
    let rest = crate::fstab::cred_block(creds, crate::fstab::cred_dir_spec(creds))
        + "cat > /etc/fstab << 'DISKTUI_FSTAB'\n"@ + crate::fstab::with_nl(contents) + "DISKTUI_FSTAB\n"@
        + "chmod 644 /etc/fstab\n"@ + crate::fstab::mount_block(mount);
    assert(script =~= head + rest);
    assert(script.subrange(0, head.len() as int) =~= head);
}

/// An image named on the command line is set up as a loop device as soon
/// as the first list of disks arrives, and only once.
pub proof fn law_attach_on_first_model(s: AppV, m: Model)
    requires
        s.attach is Some,
    ensures
        on_msg_spec(s, MsgV::Model(m)).pending == EffectV::Call(
            OpV::LoopSetup { file: s.attach->0, read_only: false },
        ),
        on_msg_spec(s, MsgV::Model(m)).busy,
        on_msg_spec(s, MsgV::Model(m)).attach is None,
{
}

proof fn lemma_index_found<T>(s: Seq<T>, f: spec_fn(T) -> bool, i: int)
    requires
        0 <= i,
        exists|k: int| i <= k < s.len() && f(#[trigger] s[k]),
    ensures
        index_from(s, f, i) matches Some(j) && i <= j < s.len() && f(s[j]),
    decreases s.len() - i,
{
    if !f(s[i]) {
        let k = choose|k: int| i <= k < s.len() && f(#[trigger] s[k]);
        assert(k != i);
        assert(i + 1 <= k < s.len() && f(s[k]));
        lemma_index_found(s, f, i + 1);
    }
}

/// Once an image is attached, the next list of disks that shows its loop
/// device selects it. (The rows are counted by a `usize`.)
pub proof fn law_attached_image_selected(s: AppV, p: Seq<char>, m: Model)
    requires
        rows_spec(m).len() <= usize::MAX,
        exists|k: int|
            0 <= k < rows_spec(m).len() && (#[trigger] rows_spec(m)[k]).kind == (RowKindV::Volume {
                block: p,
            }),
    ensures
        ({
            let t = on_msg_spec(on_msg_spec(s, MsgV::Attached(p)), MsgV::Model(m));
            &&& t.selected < t.rows.len()
            &&& t.rows[t.selected as int].kind == (RowKindV::Volume { block: p })
        }),
{
    let f = |r: RowV| r.kind matches RowKindV::Volume { block } && block == p;
    let rows = rows_spec(m);
    let k = choose|k: int|
        0 <= k < rows.len() && (#[trigger] rows[k]).kind == (RowKindV::Volume { block: p });
    assert(f(rows[k]));
    lemma_index_found(rows, f, 0);
    let j = index_from(rows, f, 0)->0;
    assert(f(rows[j]));
    let s0 = on_msg_spec(s, MsgV::Attached(p));
    assert(s0.select_path == Some(p));
    let t = on_msg_spec(s0, MsgV::Model(m));
    assert(t.rows == rows);
    assert(index_from(
        t.rows,
        |r: RowV| r.kind matches RowKindV::Volume { block } && block == p,
        0,
    ) == Some(j));
}

} // verus!
