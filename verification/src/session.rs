//! The state of the interface and how messages from the disk service change
//! it.
//!
//! The front end draws this state, forwards key presses and messages, and
//! carries out the effect the state asks for: a UDisks call or a root job.

use vstd::prelude::*;

use crate::actions::actions_spec;
use crate::form::{row_key, row_key_spec, Form, FormV};
use crate::fstab::{network_shares, network_shares_spec, share_views, Share, ShareV};
use crate::model::{action_views, copy_kind, deref_opt, index_from, lemma_index_at, lemma_index_none, row_views, Action, ActionV, Block, Caps, Drive, Model, Row, RowKind, RowKindV, RowV};
use crate::op::{Op, OpV};
use crate::privilege::{opt_string_view, SudoJob, SudoJobV};
use crate::select::{array_block, block_at, confirm_name_spec, disk_pick, drive_at, row_is_system_spec};
use crate::text::same_str;
use crate::tree::rows_spec;

verus! {

// ---------------------------------------------------------------------------
// Types
// ---------------------------------------------------------------------------

#[derive(Clone, Copy, Debug, PartialEq, Eq, Structural)]
pub enum Focus {
    Devices,
    Actions,
    Shares,
}

/// What the front end is asked to carry out next.
pub enum Effect {
    Nothing,
    Call(Op),
    Sudo(SudoJob),
}

pub struct Confirm {
    pub title: String,
    pub body: String,
    pub kernel: String,
    pub system: bool,
    pub typed: String,
    pub ack: String,
    pub which: u8,
    pub op: Op,
}

pub enum Dialog {
    Closed,
    Form(Form),
    Confirm(Confirm),
    Text { title: String, body: String, scroll: u16 },
}

/// What the disk service reports to the interface.
pub enum Msg {
    Model(Model),
    Caps(Caps),
    Info(String),
    Error(String),
    /// A copy with a progress bar started (`true`) or ended.
    Running(bool),
    Smart(String),
    Busy(bool),
    Attached(String),
}

/// The state of the interface: the disks and shares it shows, what is
/// selected and focused, the open dialog, the status line, and the effect
/// the front end is asked to carry out next.
pub struct App {
    pub model: Model,
    pub caps: Caps,
    pub rows: Vec<Row>,
    pub selected: usize,
    pub action_index: usize,
    pub focus: Focus,
    pub shares: Vec<Share>,
    pub share_index: usize,
    pub fstab: String,
    pub dialog: Dialog,
    pub help: bool,
    pub picking_theme: bool,
    pub info: String,
    pub error: String,
    /// A copy with a progress bar is running.
    pub running: bool,
    /// The running copy is asked to stop.
    pub cancel: bool,
    pub quit: bool,
    pub busy: bool,
    pub pending: Effect,
    pub attach: Option<String>,
    pub select_path: Option<String>,
    pub smart_target: Option<(String, bool)>,
    pub uid: u32,
    pub gid: u32,
}

// ---------------------------------------------------------------------------
// Views
// ---------------------------------------------------------------------------

pub enum EffectV {
    Nothing,
    Call(OpV),
    Sudo(SudoJobV),
}

impl View for Effect {
    type V = EffectV;

    open spec fn view(&self) -> EffectV {
        match self {
            Effect::Nothing => EffectV::Nothing,
            Effect::Call(op) => EffectV::Call(op@),
            Effect::Sudo(job) => EffectV::Sudo(job@),
        }
    }
}

pub struct ConfirmV {
    pub title: Seq<char>,
    pub body: Seq<char>,
    pub kernel: Seq<char>,
    pub system: bool,
    pub typed: Seq<char>,
    pub ack: Seq<char>,
    pub which: u8,
    pub op: OpV,
}

impl View for Confirm {
    type V = ConfirmV;

    open spec fn view(&self) -> ConfirmV {
        ConfirmV {
            title: self.title@,
            body: self.body@,
            kernel: self.kernel@,
            system: self.system,
            typed: self.typed@,
            ack: self.ack@,
            which: self.which,
            op: self.op@,
        }
    }
}

pub enum DialogV {
    Closed,
    Form(FormV),
    Confirm(ConfirmV),
    Text { title: Seq<char>, body: Seq<char>, scroll: u16 },
}

impl View for Dialog {
    type V = DialogV;

    open spec fn view(&self) -> DialogV {
        match self {
            Dialog::Closed => DialogV::Closed,
            Dialog::Form(f) => DialogV::Form(f@),
            Dialog::Confirm(c) => DialogV::Confirm(c@),
            Dialog::Text { title, body, scroll } => DialogV::Text {
                title: title@,
                body: body@,
                scroll: *scroll,
            },
        }
    }
}

pub open spec fn target_view(t: Option<(String, bool)>) -> Option<(Seq<char>, bool)> {
    match t {
        Some(p) => Some((p.0@, p.1)),
        None => None,
    }
}

pub struct AppV {
    pub model: Model,
    pub caps: Caps,
    pub rows: Seq<RowV>,
    pub selected: usize,
    pub action_index: usize,
    pub focus: Focus,
    pub shares: Seq<ShareV>,
    pub share_index: usize,
    pub fstab: Seq<char>,
    pub dialog: DialogV,
    pub help: bool,
    pub picking_theme: bool,
    pub info: Seq<char>,
    pub error: Seq<char>,
    pub running: bool,
    pub cancel: bool,
    pub quit: bool,
    pub busy: bool,
    pub pending: EffectV,
    pub attach: Option<Seq<char>>,
    pub select_path: Option<Seq<char>>,
    pub smart_target: Option<(Seq<char>, bool)>,
    pub uid: u32,
    pub gid: u32,
}

impl View for App {
    type V = AppV;

    open spec fn view(&self) -> AppV {
        AppV {
            model: self.model,
            caps: self.caps,
            rows: row_views(self.rows@),
            selected: self.selected,
            action_index: self.action_index,
            focus: self.focus,
            shares: share_views(self.shares@),
            share_index: self.share_index,
            fstab: self.fstab@,
            dialog: self.dialog@,
            help: self.help,
            picking_theme: self.picking_theme,
            info: self.info@,
            error: self.error@,
            running: self.running,
            cancel: self.cancel,
            quit: self.quit,
            busy: self.busy,
            pending: self.pending@,
            attach: opt_string_view(self.attach),
            select_path: opt_string_view(self.select_path),
            smart_target: target_view(self.smart_target),
            uid: self.uid,
            gid: self.gid,
        }
    }
}

// ---------------------------------------------------------------------------
// The selection
// ---------------------------------------------------------------------------

pub open spec fn current_kind_spec(s: AppV) -> Option<RowKindV> {
    if s.selected < s.rows.len() {
        Some(s.rows[s.selected as int].kind)
    } else {
        None
    }
}

/// The actions of the selected row.
pub open spec fn current_actions(s: AppV) -> Seq<ActionV> {
    match current_kind_spec(s) {
        Some(k) => actions_spec(s.model, s.caps, k),
        None => Seq::empty(),
    }
}

/// The block the selection stands for: the volume, the drive's disk, the
/// disk of free space, or a block of the array.
pub open spec fn current_block_spec(s: AppV) -> Option<Block> {
    match current_kind_spec(s) {
        Some(RowKindV::Volume { block }) => block_at(s.model.blocks@, block),
        Some(RowKindV::Drive { drive }) => disk_pick(s.model.blocks@, drive),
        Some(RowKindV::Free { disk, .. }) => block_at(s.model.blocks@, disk),
        Some(RowKindV::Raid { raid }) => array_block(s.model.blocks@, raid),
        _ => None,
    }
}

/// The drive the selection belongs to.
pub open spec fn current_drive_spec(s: AppV) -> Option<Drive> {
    match current_kind_spec(s) {
        Some(RowKindV::Drive { drive }) => drive_at(s.model.drives@, drive),
        Some(RowKindV::Volume { block }) => match block_at(s.model.blocks@, block) {
            Some(b) => drive_at(s.model.drives@, b.drive@),
            None => None,
        },
        Some(RowKindV::Free { disk, .. }) => match block_at(s.model.blocks@, disk) {
            Some(b) => drive_at(s.model.drives@, b.drive@),
            None => None,
        },
        _ => None,
    }
}

pub open spec fn with_error(s: AppV, e: Seq<char>) -> AppV {
    AppV { error: e, ..s }
}

/// Starting an operation: errors clear, the interface is busy, a fresh
/// cancel flag, and the call is handed out.
pub open spec fn queue_spec(s: AppV, op: OpV) -> AppV {
    AppV { error: Seq::empty(), busy: true, cancel: false, pending: EffectV::Call(op), ..s }
}

/// The confirm dialog for an operation on the selection: it asks for the
/// kernel name (or `raid` when there is none) and, for a system row, for
/// `system` too.
pub open spec fn confirm_op_spec(s: AppV, title: Seq<char>, body: Seq<char>, op: OpV) -> AppV {
    let kind = current_kind_spec(s);
    let name = match kind {
        Some(k) => confirm_name_spec(s.model, k),
        None => Seq::empty(),
    };
    let system = match kind {
        Some(k) => row_is_system_spec(s.model, k),
        None => false,
    };
    AppV {
        dialog: DialogV::Confirm(
            ConfirmV {
                title,
                body,
                kernel: if name.len() == 0 {
                    "raid"@
                } else {
                    name
                },
                system,
                typed: Seq::empty(),
                ack: Seq::empty(),
                which: 0,
                op,
            },
        ),
        ..s
    }
}

/// The rows rebuilt from the model, keeping the selection on the row with
/// the given key when it is still there, and inside the list.
pub open spec fn rebuild_spec(s: AppV, keep: Option<Seq<char>>) -> AppV {
    let rows = rows_spec(s.model);
    let sel = match keep {
        Some(k) => match index_from(rows, |r: RowV| row_key_spec(r.kind) == k, 0) {
            Some(i) => i as usize,
            None => s.selected,
        },
        None => s.selected,
    };
    let sel2 = if sel >= rows.len() {
        if rows.len() == 0 {
            0usize
        } else {
            (rows.len() - 1) as usize
        }
    } else {
        sel
    };
    AppV { rows, selected: sel2, ..s }
}

/// A fresh copy of fstab: its network shares, with the share selection
/// kept inside the list.
pub open spec fn reload_fstab_spec(s: AppV, text: Seq<char>) -> AppV {
    let shares = network_shares_spec(text);
    AppV {
        fstab: text,
        shares,
        share_index: if s.share_index >= shares.len() {
            if shares.len() == 0 {
                0usize
            } else {
                (shares.len() - 1) as usize
            }
        } else {
            s.share_index
        },
        ..s
    }
}

// ---------------------------------------------------------------------------
// Messages
// ---------------------------------------------------------------------------

pub open spec fn has_devices(m: Model) -> bool {
    m.drives@.len() > 0 || m.blocks@.len() > 0 || m.raids@.len() > 0
}

/// A new model: the selection stays on the same row (once there were
/// devices), jumps to an image that was just attached, an image named on
/// the command line is attached, and the start-up notice goes away.
pub open spec fn model_msg_spec(s: AppV, m: Model) -> AppV {
    let keep = if has_devices(s.model) {
        match current_kind_spec(s) {
            Some(k) => Some(row_key_spec(k)),
            None => None,
        }
    } else {
        None
    };
    let s1 = rebuild_spec(AppV { model: m, select_path: None, ..s }, keep);
    let s2 = match s.select_path {
        Some(p) => match index_from(
            s1.rows,
            |r: RowV| r.kind matches RowKindV::Volume { block } && block == p,
            0,
        ) {
            Some(i) => AppV { selected: i as usize, ..s1 },
            None => s1,
        },
        None => s1,
    };
    let s3 = match s.attach {
        Some(file) => queue_spec(
            AppV { attach: None, ..s2 },
            OpV::LoopSetup { file, read_only: false },
        ),
        None => s2,
    };
    if s3.info == "Reading disks…"@ {
        AppV { info: Seq::empty(), ..s3 }
    } else {
        s3
    }
}

pub enum MsgV {
    Model(Model),
    Caps(Caps),
    Info(Seq<char>),
    Error(Seq<char>),
    Running(bool),
    Smart(Seq<char>),
    Busy(bool),
    Attached(Seq<char>),
}

impl View for Msg {
    type V = MsgV;

    open spec fn view(&self) -> MsgV {
        match self {
            Msg::Model(m) => MsgV::Model(*m),
            Msg::Caps(c) => MsgV::Caps(*c),
            Msg::Info(t) => MsgV::Info(t@),
            Msg::Error(t) => MsgV::Error(t@),
            Msg::Running(b) => MsgV::Running(*b),
            Msg::Smart(t) => MsgV::Smart(t@),
            Msg::Busy(b) => MsgV::Busy(*b),
            Msg::Attached(p) => MsgV::Attached(p@),
        }
    }
}

pub open spec fn on_msg_spec(s: AppV, msg: MsgV) -> AppV {
    match msg {
        MsgV::Model(m) => model_msg_spec(s, m),
        MsgV::Caps(c) => AppV { caps: c, ..s },
        MsgV::Info(t) => AppV { error: Seq::empty(), info: t, ..s },
        MsgV::Error(t) => AppV { error: t, ..s },
        MsgV::Running(b) => AppV { running: b, ..s },
        MsgV::Smart(t) => AppV {
            dialog: DialogV::Text { title: "SMART"@, body: t, scroll: 0 },
            ..s
        },
        MsgV::Busy(b) => AppV { busy: b, ..s },
        MsgV::Attached(p) => AppV { select_path: Some(p), ..s },
    }
}

/// What a finished root job reports.
pub open spec fn job_done_spec(s: AppV, job: SudoJobV, result: Result<Seq<char>, Seq<char>>) -> AppV {
    match result {
        Ok(_) => AppV {
            error: Seq::empty(),
            info: match job {
                SudoJobV::Mount(_) => "Mounted."@,
                SudoJobV::Umount(_) => "Unmounted."@,
                SudoJobV::ApplyFstab { .. } => "fstab updated."@,
            },
            ..s
        },
        Err(e) => AppV { error: e, ..s },
    }
}

pub open spec fn result_view(r: Result<String, String>) -> Result<Seq<char>, Seq<char>> {
    match r {
        Ok(t) => Ok(t@),
        Err(e) => Err(e@),
    }
}

fn key_is(row: &Row, key: &str) -> (r: bool)
    ensures
        r == (row_key_spec(row@.kind) == key@),
{
    let k = row_key(row);
    same_str(k.as_str(), key)
}

fn volume_is(row: &Row, path: &str) -> (r: bool)
    ensures
        r == (row@.kind matches RowKindV::Volume { block } && block == path@),
{
    match &row.kind {
        RowKind::Volume { block } => same_str(block.as_str(), path),
        _ => false,
    }
}

/// A call was asked for while the disk service is not there.
pub open spec fn no_service_spec(s: AppV) -> AppV {
    AppV { error: "UDisks is not available."@, busy: false, ..s }
}

/// The disk service could not be reached at start-up; `reason` says why.
pub open spec fn service_down_spec(s: AppV, reason: Seq<char>) -> AppV {
    AppV {
        error: "UDisks is not available ("@ + reason + "). Network shares still work."@,
        ..s
    }
}

impl App {
    /// The interface at start-up, before the first model arrives.
    pub fn new(uid: u32, gid: u32, attach: Option<String>, fstab_text: String) -> (s: App)
        ensures
            s@.model.drives@.len() == 0 && s@.model.blocks@.len() == 0 && s@.model.raids@.len() == 0
                && s@.model.jobs@.len() == 0,
            s@.rows == rows_spec(s@.model),
            s@.selected == 0,
            s@.action_index == 0,
            s@.focus == Focus::Devices,
            s@.fstab == fstab_text@,
            s@.shares == network_shares_spec(fstab_text@),
            s@.share_index == 0,
            s@.dialog == DialogV::Closed,
            !s@.help && !s@.picking_theme && !s@.running && !s@.cancel && !s@.quit && !s@.busy,
            s@.info == "Reading disks…"@,
            s@.error.len() == 0,
            s@.pending == EffectV::Nothing,
            s@.attach == opt_string_view(attach),
            s@.select_path is None,
            s@.smart_target is None,
            s@.uid == uid,
            s@.gid == gid,
    {
        let mut s = App {
            model: Model::default(),
            caps: Caps::default(),
            rows: Vec::new(),
            selected: 0,
            action_index: 0,
            focus: Focus::Devices,
            shares: Vec::new(),
            share_index: 0,
            fstab: String::new(),
            dialog: Dialog::Closed,
            help: false,
            picking_theme: false,
            info: String::from_str("Reading disks…"),
            error: String::new(),
            running: false,
            cancel: false,
            quit: false,
            busy: false,
            pending: Effect::Nothing,
            attach,
            select_path: None,
            smart_target: None,
            uid,
            gid,
        };
        s.reload_fstab(fstab_text);
        s.rebuild_rows(None);
        s
    }

    /// A call was asked for while the disk service is not there.
    pub fn no_service(&mut self)
        ensures
            final(self)@ == no_service_spec(old(self)@),
    {
        self.error = String::from_str("UDisks is not available.");
        self.busy = false;
    }

    /// The disk service could not be reached at start-up.
    pub fn service_down(&mut self, reason: &str)
        ensures
            final(self)@ == service_down_spec(old(self)@, reason@),
    {
        self.error = String::from_str("UDisks is not available (").concat(reason).concat(
            "). Network shares still work.",
        );
    }

    /// Hands out the pending effect and clears it.
    pub fn take_effect(&mut self) -> (r: Effect)
        ensures
            r@ == old(self)@.pending,
            final(self)@ == (AppV { pending: EffectV::Nothing, ..old(self)@ }),
    {
        let mut r = Effect::Nothing;
        std::mem::swap(&mut r, &mut self.pending);
        r
    }

    /// `/etc/fstab` as just read.
    pub fn reload_fstab(&mut self, text: String)
        ensures
            final(self)@ == reload_fstab_spec(old(self)@, text@),
    {
        self.shares = network_shares(text.as_str());
        self.fstab = text;
        if self.share_index >= self.shares.len() {
            self.share_index = if self.shares.len() == 0 {
                0
            } else {
                self.shares.len() - 1
            };
        }
    }

    pub(crate) fn rebuild_rows(&mut self, keep: Option<String>)
        ensures
            final(self)@ == rebuild_spec(old(self)@, opt_string_view(keep)),
    {
        self.rows = self.model.rows();
        let ghost rows = row_views(self.rows@);
        match keep {
            Some(k) => {
                let ghost f = |r: RowV| row_key_spec(r.kind) == k@;
                let mut i: usize = 0;
                while i < self.rows.len() && !key_is(&self.rows[i], k.as_str())
                    invariant
                        i <= self.rows@.len(),
                        rows == row_views(self.rows@),
                        f == (|r: RowV| row_key_spec(r.kind) == k@),
                        forall|j: int| 0 <= j < i ==> !f(#[trigger] rows[j]),
                    decreases self.rows@.len() - i,
                {
                    assert(rows[i as int] == self.rows@[i as int]@);
                    i = i + 1;
                }
                if i < self.rows.len() {
                    proof {
                        assert(rows[i as int] == self.rows@[i as int]@);
                        lemma_index_at(rows, f, 0, i as int);
                    }
                    self.selected = i;
                } else {
                    proof {
                        lemma_index_none(rows, f, 0);
                    }
                }
            },
            None => {},
        }
        if self.selected >= self.rows.len() {
            self.selected = if self.rows.len() == 0 {
                0
            } else {
                self.rows.len() - 1
            };
        }
    }

    /// The actions of the selected row.
    pub fn actions(&self) -> (r: Vec<Action>)
        ensures
            action_views(r@) == current_actions(self@),
    {
        if self.selected < self.rows.len() {
            self.model.actions(&self.caps, &self.rows[self.selected].kind)
        } else {
            let r: Vec<Action> = Vec::new();
            assert(action_views(r@) =~= Seq::<ActionV>::empty());
            r
        }
    }

    pub(crate) fn current_kind(&self) -> (r: Option<RowKind>)
        ensures
            match r {
                Some(k) => current_kind_spec(self@) == Some(k@),
                None => current_kind_spec(self@) is None,
            },
    {
        if self.selected < self.rows.len() {
            Some(copy_kind(&self.rows[self.selected].kind))
        } else {
            None
        }
    }

    pub(crate) fn current_block(&self) -> (r: Option<&Block>)
        ensures
            deref_opt(r) == current_block_spec(self@),
    {
        match self.current_kind() {
            Some(RowKind::Volume { block }) => self.model.block(block.as_str()),
            Some(RowKind::Drive { drive }) => self.model.disk_for_drive(drive.as_str()),
            Some(RowKind::Free { disk, .. }) => self.model.block(disk.as_str()),
            Some(RowKind::Raid { raid }) => self.model.array_block(raid.as_str()),
            _ => None,
        }
    }

    pub(crate) fn current_drive(&self) -> (r: Option<&Drive>)
        ensures
            deref_opt(r) == current_drive_spec(self@),
    {
        match self.current_kind() {
            Some(RowKind::Drive { drive }) => self.model.drive(drive.as_str()),
            Some(RowKind::Volume { block }) => match self.model.block(block.as_str()) {
                Some(b) => self.model.drive(b.drive.as_str()),
                None => None,
            },
            Some(RowKind::Free { disk, .. }) => match self.model.block(disk.as_str()) {
                Some(b) => self.model.drive(b.drive.as_str()),
                None => None,
            },
            _ => None,
        }
    }

    pub(crate) fn set_error(&mut self, text: &str)
        ensures
            final(self)@ == with_error(old(self)@, text@),
    {
        self.error = String::from_str(text);
    }

    pub(crate) fn queue(&mut self, op: Op)
        ensures
            final(self)@ == queue_spec(old(self)@, op@),
    {
        self.error = String::new();
        self.busy = true;
        self.cancel = false;
        self.pending = Effect::Call(op);
    }

    pub(crate) fn confirm_op(&mut self, title: &str, body: &str, op: Op)
        ensures
            final(self)@ == confirm_op_spec(old(self)@, title@, body@, op@),
    {
        let kind = self.current_kind();
        let name = match &kind {
            Some(k) => self.model.confirm_name(k),
            None => String::new(),
        };
        let system = match &kind {
            Some(k) => self.model.row_is_system(k),
            None => false,
        };
        let kernel = if name.as_str().is_empty() {
            String::from_str("raid")
        } else {
            name
        };
        self.dialog = Dialog::Confirm(
            Confirm {
                title: String::from_str(title),
                body: String::from_str(body),
                kernel,
                system,
                typed: String::new(),
                ack: String::new(),
                which: 0,
                op,
            },
        );
    }

    #[verifier::rlimit(30)]
    fn on_model(&mut self, model: Model)
        ensures
            final(self)@ == model_msg_spec(old(self)@, model),
    {
        let ghost s0 = self@;
        let had = !self.model.drives.is_empty() || !self.model.blocks.is_empty()
            || !self.model.raids.is_empty();
        let keep = if had {
            if self.selected < self.rows.len() {
                Some(row_key(&self.rows[self.selected]))
            } else {
                None
            }
        } else {
            None
        };
        let jump = self.select_path.take();
        self.model = model;
        self.rebuild_rows(keep);
        let ghost s1 = self@;
        match jump {
            Some(path) => {
                let ghost rows = row_views(self.rows@);
                let ghost f = |r: RowV| r.kind matches RowKindV::Volume { block } && block == path@;
                let mut i: usize = 0;
                while i < self.rows.len() && !volume_is(&self.rows[i], path.as_str())
                    invariant
                        i <= self.rows@.len(),
                        rows == row_views(self.rows@),
                        f == (|r: RowV| r.kind matches RowKindV::Volume { block } && block == path@),
                        forall|j: int| 0 <= j < i ==> !f(#[trigger] rows[j]),
                    decreases self.rows@.len() - i,
                {
                    assert(rows[i as int] == self.rows@[i as int]@);
                    i = i + 1;
                }
                if i < self.rows.len() {
                    proof {
                        assert(rows[i as int] == self.rows@[i as int]@);
                        lemma_index_at(rows, f, 0, i as int);
                    }
                    self.selected = i;
                } else {
                    proof {
                        lemma_index_none(rows, f, 0);
                    }
                }
            },
            None => {},
        }
        match self.attach.take() {
            Some(file) => {
                self.queue(Op::LoopSetup { file, read_only: false });
            },
            None => {},
        }
        if same_str(self.info.as_str(), "Reading disks…") {
            self.info = String::new();
        }
    }

    pub fn on_msg(&mut self, msg: Msg)
        ensures
            final(self)@ == on_msg_spec(old(self)@, msg@),
    {
        match msg {
            Msg::Model(m) => self.on_model(m),
            Msg::Caps(c) => self.caps = c,
            Msg::Info(t) => {
                self.error = String::new();
                self.info = t;
            },
            Msg::Error(t) => self.error = t,
            Msg::Running(b) => self.running = b,
            Msg::Smart(t) => {
                self.dialog = Dialog::Text { title: String::from_str("SMART"), body: t, scroll: 0 };
            },
            Msg::Busy(b) => self.busy = b,
            Msg::Attached(p) => self.select_path = Some(p),
        }
    }

    /// A root job has finished; `result` is what sudo printed, or why it
    /// failed.
    pub fn job_done(&mut self, job: &SudoJob, result: Result<String, String>)
        ensures
            final(self)@ == job_done_spec(old(self)@, job@, result_view(result)),
    {
        match result {
            Ok(_) => {
                self.error = String::new();
                self.info = match job {
                    SudoJob::Mount(_) => String::from_str("Mounted."),
                    SudoJob::Umount(_) => String::from_str("Unmounted."),
                    SudoJob::ApplyFstab { .. } => String::from_str("fstab updated."),
                };
            },
            Err(e) => self.error = e,
        }
    }
}

} // verus!
