//! Key presses: moving around, choosing actions, and typing into dialogs.

use vstd::prelude::*;

use crate::flow::{
    cancel_job_spec, delete_share_spec, force_unmount_spec, mount_share_spec, open_action_spec,
    share_form_spec, submit_confirm_spec, submit_form_spec, Facts, FactsV,
};
use crate::form::{field_views, slide, slide_spec, Field, FieldV, Form, FormV};
use crate::model::{
    action_views, index_from, key_spec, lemma_index_at, lemma_index_none, ActionId, ActionV, RowKind,
    RowKindV, RowV,
};
use crate::op::{Op, OpV};
use crate::session::{
    current_actions, current_kind_spec, queue_spec, with_error, ConfirmV, Dialog, DialogV, Focus,
    App, AppV,
};
use crate::text::{chars_of, same_str, string_from};

verus! {

/// A key as the interface sees it.
#[derive(Clone, Copy, Debug, PartialEq, Eq, Structural)]
pub enum Key {
    Char(char),
    Enter,
    Esc,
    Tab,
    BackTab,
    Up,
    Down,
    Left,
    Right,
    Backspace,
    Other,
}

/// Positions that step through a list stay below the largest `usize`, and
/// the confirm dialog's field switch is 0 or 1.
pub open spec fn indices_ok(s: AppV) -> bool {
    &&& s.selected < usize::MAX
    &&& s.action_index < usize::MAX
    &&& s.share_index < usize::MAX
    &&& s.dialog matches DialogV::Form(f) ==> f.focus < usize::MAX
    &&& s.dialog matches DialogV::Confirm(c) ==> c.which <= 1
}

// ---------------------------------------------------------------------------
// The main screen
// ---------------------------------------------------------------------------

pub open spec fn is_shares(k: Option<RowKindV>) -> bool {
    k matches Some(RowKindV::Shares)
}

/// Tab moves between the device list and its actions (or the shares).
pub open spec fn cycle_spec(s: AppV) -> AppV {
    AppV {
        focus: match s.focus {
            Focus::Devices => if is_shares(current_kind_spec(s)) {
                Focus::Shares
            } else {
                Focus::Actions
            },
            _ => Focus::Devices,
        },
        ..s
    }
}

pub open spec fn move_sel_spec(s: AppV, dir: i32) -> AppV {
    match s.focus {
        Focus::Actions => {
            let len = current_actions(s).len();
            if len == 0 {
                s
            } else {
                AppV { action_index: slide_spec(s.action_index, len as usize, dir), ..s }
            }
        },
        Focus::Shares => if s.shares.len() == 0 {
            s
        } else {
            AppV { share_index: slide_spec(s.share_index, s.shares.len() as usize, dir), ..s }
        },
        Focus::Devices => if s.rows.len() == 0 {
            s
        } else {
            let s1 = AppV {
                selected: slide_spec(s.selected, s.rows.len() as usize, dir),
                action_index: 0,
                ..s
            };
            if is_shares(current_kind_spec(s1)) {
                AppV { focus: Focus::Shares, ..s1 }
            } else {
                s1
            }
        },
    }
}

pub open spec fn enabled_in(actions: Seq<ActionV>, id: ActionId) -> bool {
    exists|i: int| 0 <= i < actions.len() && (#[trigger] actions[i]).id == id && actions[i].enabled
}

/// Enter: run the chosen action (or say why it is dimmed); on a volume,
/// unlock, mount or unmount, whichever applies first.
pub open spec fn activate_spec(s: AppV) -> AppV {
    match s.focus {
        Focus::Actions => {
            let acts = current_actions(s);
            if s.action_index < acts.len() {
                let a = acts[s.action_index as int];
                if a.enabled {
                    open_action_spec(s, a.id)
                } else {
                    with_error(s, a.reason)
                }
            } else {
                s
            }
        },
        Focus::Shares => share_form_spec(s, false),
        Focus::Devices => match current_kind_spec(s) {
            Some(RowKindV::Shares) => AppV { focus: Focus::Shares, ..s },
            Some(RowKindV::Free { .. }) => open_action_spec(s, ActionId::CreatePartition),
            Some(RowKindV::Volume { .. }) => {
                let acts = current_actions(s);
                if enabled_in(acts, ActionId::Unlock) {
                    open_action_spec(s, ActionId::Unlock)
                } else if enabled_in(acts, ActionId::Mount) {
                    open_action_spec(s, ActionId::Mount)
                } else if enabled_in(acts, ActionId::Unmount) {
                    open_action_spec(s, ActionId::Unmount)
                } else {
                    s
                }
            },
            _ => AppV { focus: Focus::Actions, ..s },
        },
    }
}

/// A letter runs the action with that shortcut; in the shares list it adds,
/// edits, removes, mounts or unmounts a share.
pub open spec fn shortcut_spec(s: AppV, ch: char, installed: bool) -> AppV {
    if s.focus == Focus::Shares {
        if ch == 'n' {
            share_form_spec(s, true)
        } else if ch == 'e' {
            share_form_spec(s, false)
        } else if ch == 'd' {
            delete_share_spec(s)
        } else if ch == 'm' {
            mount_share_spec(s, true, installed)
        } else if ch == 'u' {
            mount_share_spec(s, false, installed)
        } else {
            s
        }
    } else {
        match crate::model::first_where(
            current_actions(s),
            |a: ActionV| key_spec(a.id) == seq![ch] && key_spec(a.id).len() > 0,
        ) {
            None => s,
            Some(a) => if a.enabled {
                open_action_spec(s, a.id)
            } else if a.reason.len() > 0 {
                with_error(s, a.reason)
            } else {
                s
            },
        }
    }
}

pub open spec fn focus_shares_spec(s: AppV) -> AppV {
    let s1 = match index_from(s.rows, |r: RowV| r.kind matches RowKindV::Shares, 0) {
        Some(i) => AppV { selected: i as usize, ..s },
        None => s,
    };
    AppV { focus: Focus::Shares, ..s1 }
}

pub open spec fn key_main_spec(s: AppV, key: Key, installed: bool) -> AppV {
    if key == Key::Esc && s.running {
        AppV { cancel: true, info: "Cancelling…"@, ..s }
    } else {
        match key {
            Key::Char('q') => AppV { quit: true, ..s },
            Key::Char('?') => AppV { help: true, ..s },
            Key::Char('t') => AppV { picking_theme: true, ..s },
            Key::Char('1') => {
                let s1 = AppV { focus: Focus::Devices, ..s };
                if is_shares(current_kind_spec(s1)) {
                    AppV { selected: 0, ..s1 }
                } else {
                    s1
                }
            },
            Key::Char('2') => focus_shares_spec(s),
            Key::Tab => cycle_spec(s),
            Key::BackTab => cycle_spec(s),
            Key::Char('j') => move_sel_spec(s, 1i32),
            Key::Down => move_sel_spec(s, 1i32),
            Key::Char('k') => move_sel_spec(s, -1i32),
            Key::Up => move_sel_spec(s, -1i32),
            Key::Enter => activate_spec(s),
            Key::Char('x') => cancel_job_spec(s),
            Key::Char('U') => force_unmount_spec(s),
            Key::Char(ch) => shortcut_spec(s, ch, installed),
            _ => s,
        }
    }
}

// ---------------------------------------------------------------------------
// Dialogs
// ---------------------------------------------------------------------------

pub open spec fn with_dialog(s: AppV, d: DialogV) -> AppV {
    AppV { dialog: d, ..s }
}

pub open spec fn scroll_spec(s: AppV, dir: i32) -> AppV {
    match s.dialog {
        DialogV::Text { title, body, scroll } => with_dialog(
            s,
            DialogV::Text {
                title,
                body,
                scroll: if dir == 0 {
                    0
                } else if dir < 0 {
                    if scroll == 0 {
                        0
                    } else {
                        (scroll - 1) as u16
                    }
                } else if scroll == u16::MAX {
                    u16::MAX
                } else {
                    (scroll + 1) as u16
                },
            },
        ),
        _ => s,
    }
}

pub open spec fn key_text_spec(s: AppV, key: Key) -> AppV {
    match key {
        Key::Esc => with_dialog(s, DialogV::Closed),
        Key::Char('q') => with_dialog(s, DialogV::Closed),
        Key::Enter => with_dialog(s, DialogV::Closed),
        Key::Char('j') => scroll_spec(s, 1i32),
        Key::Down => scroll_spec(s, 1i32),
        Key::Char('k') => scroll_spec(s, -1i32),
        Key::Up => scroll_spec(s, -1i32),
        Key::Char('g') => scroll_spec(s, 0i32),
        Key::Char('a') => match s.smart_target {
            Some((path, nvme)) => queue_spec(
                with_dialog(s, DialogV::Closed),
                OpV::SmartAbort { path, nvme },
            ),
            None => s,
        },
        _ => s,
    }
}

/// The field of the confirm dialog that typing goes to.
pub open spec fn edit_confirm(c: ConfirmV, f: spec_fn(Seq<char>) -> Seq<char>) -> ConfirmV {
    if c.which == 0 {
        ConfirmV { typed: f(c.typed), ..c }
    } else {
        ConfirmV { ack: f(c.ack), ..c }
    }
}

pub open spec fn pop_last(t: Seq<char>) -> Seq<char> {
    if t.len() == 0 {
        t
    } else {
        t.drop_last()
    }
}

pub open spec fn key_confirm_spec(s: AppV, key: Key, ctrl: bool) -> AppV {
    match s.dialog {
        DialogV::Confirm(c) => match key {
            Key::Esc => with_dialog(s, DialogV::Closed),
            Key::Tab | Key::BackTab | Key::Up | Key::Down => if c.system {
                with_dialog(s, DialogV::Confirm(ConfirmV { which: (1 - c.which) as u8, ..c }))
            } else {
                s
            },
            Key::Backspace => with_dialog(
                s,
                DialogV::Confirm(edit_confirm(c, |t: Seq<char>| pop_last(t))),
            ),
            Key::Enter => submit_confirm_spec(s),
            Key::Char(ch) => if !ctrl {
                with_dialog(s, DialogV::Confirm(edit_confirm(c, |t: Seq<char>| t.push(ch))))
            } else {
                s
            },
            _ => s,
        },
        _ => s,
    }
}

pub open spec fn with_field(s: AppV, f: FormV, i: int, fld: FieldV) -> AppV {
    with_dialog(s, DialogV::Form(FormV { fields: f.fields.update(i, fld), ..f }))
}

/// Up and down move between the fields of a form.
pub open spec fn form_move_spec(s: AppV, dir: i32) -> AppV {
    match s.dialog {
        DialogV::Form(f) => if f.fields.len() == 0 {
            s
        } else {
            with_dialog(
                s,
                DialogV::Form(FormV { focus: slide_spec(f.focus, f.fields.len() as usize, dir), ..f }),
            )
        },
        _ => s,
    }
}

/// Where the current value stands among the choices; 0 when it is not one.
pub open spec fn choice_index(choices: Seq<Seq<char>>, value: Seq<char>) -> usize {
    match position_from(choices, value, 0) {
        Some(i) => i as usize,
        None => 0,
    }
}

/// The first position of a value from `i` on.
pub open spec fn position_from(cs: Seq<Seq<char>>, v: Seq<char>, i: int) -> Option<int>
    decreases cs.len() - i,
{
    if i < 0 || i >= cs.len() {
        None
    } else if cs[i] == v {
        Some(i)
    } else {
        position_from(cs, v, i + 1)
    }
}

proof fn lemma_position(cs: Seq<Seq<char>>, v: Seq<char>, i: int, k: int)
    requires
        0 <= i <= k <= cs.len(),
        k < cs.len() ==> cs[k] == v,
        forall|j: int| i <= j < k ==> cs[j] != v,
    ensures
        position_from(cs, v, i) == if k < cs.len() {
            Some(k)
        } else {
            None::<int>
        },
    decreases k - i,
{
    if i < k {
        lemma_position(cs, v, i + 1, k);
    }
}

/// The choice one step left or right of the current one.
pub open spec fn cycle_value(fld: FieldV, dir: i32) -> Seq<char> {
    fld.choices[slide_spec(choice_index(fld.choices, fld.value), fld.choices.len() as usize, dir) as int]
}

/// Left and right flip a toggle or step through the choices of the
/// focused field.
pub open spec fn form_cycle_spec(s: AppV, dir: i32) -> AppV {
    match s.dialog {
        DialogV::Form(f) => if f.focus < f.fields.len() {
            let fld = f.fields[f.focus as int];
            if fld.toggle {
                with_field(
                    s,
                    f,
                    f.focus as int,
                    FieldV {
                        value: if fld.value == "yes"@ {
                            "no"@
                        } else {
                            "yes"@
                        },
                        ..fld
                    },
                )
            } else if fld.choices.len() > 0 {
                with_field(s, f, f.focus as int, FieldV { value: cycle_value(fld, dir), ..fld })
            } else {
                s
            }
        } else {
            s
        },
        _ => s,
    }
}

pub open spec fn focused_is_choice(s: AppV) -> bool {
    match s.dialog {
        DialogV::Form(f) => f.focus < f.fields.len() && (f.fields[f.focus as int].toggle
            || f.fields[f.focus as int].choices.len() > 0),
        _ => false,
    }
}

/// Typing edits the focused field when it is free text.
pub open spec fn form_edit_spec(s: AppV, g: spec_fn(Seq<char>) -> Seq<char>) -> AppV {
    match s.dialog {
        DialogV::Form(f) => if f.focus < f.fields.len() && !focused_is_choice(s) {
            let fld = f.fields[f.focus as int];
            with_field(s, f, f.focus as int, FieldV { value: g(fld.value), ..fld })
        } else {
            s
        },
        _ => s,
    }
}

pub open spec fn key_form_spec(s: AppV, key: Key, ctrl: bool, facts: FactsV) -> AppV {
    match key {
        Key::Esc => with_dialog(s, DialogV::Closed),
        Key::Up | Key::BackTab => form_move_spec(s, -1i32),
        Key::Down | Key::Tab => form_move_spec(s, 1i32),
        Key::Left => form_cycle_spec(s, -1i32),
        Key::Right => form_cycle_spec(s, 1i32),
        Key::Char(' ') => if focused_is_choice(s) {
            form_cycle_spec(s, 1i32)
        } else {
            form_edit_spec(s, |t: Seq<char>| t.push(' '))
        },
        Key::Enter => submit_form_spec(s, facts),
        Key::Backspace => form_edit_spec(s, |t: Seq<char>| pop_last(t)),
        Key::Char(ch) => if !ctrl {
            form_edit_spec(s, |t: Seq<char>| t.push(ch))
        } else {
            s
        },
        _ => s,
    }
}

/// A key press. Ctrl-C quits; any key closes the help; while the theme list
/// is open the front end handles keys itself; otherwise the open dialog, or
/// the main screen, takes the key.
pub open spec fn on_key_spec(s: AppV, key: Key, ctrl: bool, facts: FactsV) -> AppV {
    if ctrl && key == Key::Char('c') {
        AppV { quit: true, ..s }
    } else if s.help {
        AppV { help: false, ..s }
    } else if s.picking_theme {
        s
    } else {
        match s.dialog {
            DialogV::Text { .. } => key_text_spec(s, key),
            DialogV::Confirm(_) => key_confirm_spec(s, key, ctrl),
            DialogV::Form(_) => key_form_spec(s, key, ctrl, facts),
            DialogV::Closed => key_main_spec(s, key, facts.helper_installed),
        }
    }
}


// ---------------------------------------------------------------------------
// Handling keys
// ---------------------------------------------------------------------------

fn push_char(t: &mut String, c: char)
    ensures
        final(t)@ == old(t)@.push(c),
{
    let mut v = chars_of(t.as_str());
    v.push(c);
    *t = string_from(v.as_slice());
}

fn pop_char(t: &mut String)
    ensures
        final(t)@ == pop_last(old(t)@),
{
    let mut v = chars_of(t.as_str());
    if v.len() > 0 {
        v.pop();
    }
    *t = string_from(v.as_slice());
}

fn is_choice_field(f: &Field) -> (r: bool)
    ensures
        r == (f@.toggle || f@.choices.len() > 0),
{
    f.toggle || f.choices.len() > 0
}

/// The value of a field after a step left or right.
fn cycled(fld: &Field, dir: i32) -> (r: String)
    requires
        !fld@.toggle,
        fld@.choices.len() > 0,
    ensures
        r@ == cycle_value(fld@, dir),
{
    let ghost cs = fld@.choices;
    let mut i: usize = 0;
    while i < fld.choices.len() && !same_str(fld.choices[i].as_str(), fld.value.as_str())
        invariant
            i <= fld.choices@.len(),
            cs == fld@.choices,
            forall|j: int| 0 <= j < i ==> cs[j] != fld@.value,
        decreases fld.choices@.len() - i,
    {
        assert(cs[i as int] == fld.choices@[i as int]@);
        i = i + 1;
    }
    proof {
        if i < fld.choices.len() {
            assert(cs[i as int] == fld.choices@[i as int]@);
        }
        lemma_position(cs, fld@.value, 0, i as int);
    }
    let index: usize = if i < fld.choices.len() {
        i
    } else {
        0
    };
    assert(index == choice_index(cs, fld@.value));
    assert(cs.len() == fld.choices@.len());
    let next = slide(index, fld.choices.len(), dir);
    assert(cs[next as int] == fld.choices@[next as int]@);
    fld.choices[next].clone()
}

impl App {
    fn cycle(&mut self)
        ensures
            final(self)@ == cycle_spec(old(self)@),
    {
        let shares = match self.current_kind() {
            Some(RowKind::Shares) => true,
            _ => false,
        };
        self.focus = match self.focus {
            Focus::Devices => if shares {
                Focus::Shares
            } else {
                Focus::Actions
            },
            _ => Focus::Devices,
        };
    }

    fn move_sel(&mut self, dir: i32)
        requires
            indices_ok(old(self)@),
        ensures
            final(self)@ == move_sel_spec(old(self)@, dir),
    {
        match self.focus {
            Focus::Actions => {
                let len = self.actions().len();
                if len == 0 {
                    return ;
                }
                self.action_index = slide(self.action_index, len, dir);
            },
            Focus::Shares => {
                if self.shares.len() == 0 {
                    return ;
                }
                self.share_index = slide(self.share_index, self.shares.len(), dir);
            },
            Focus::Devices => {
                if self.rows.len() == 0 {
                    return ;
                }
                self.selected = slide(self.selected, self.rows.len(), dir);
                self.action_index = 0;
                match self.current_kind() {
                    Some(RowKind::Shares) => self.focus = Focus::Shares,
                    _ => {},
                }
            },
        }
    }

    fn action_enabled(&self, id: ActionId) -> (r: bool)
        ensures
            r == enabled_in(current_actions(self@), id),
    {
        let acts = self.actions();
        let ghost av = action_views(acts@);
        let mut i: usize = 0;
        while i < acts.len()
            invariant
                i <= acts@.len(),
                av == action_views(acts@),
                av == current_actions(self@),
                forall|j: int| 0 <= j < i ==> !((#[trigger] av[j]).id == id && av[j].enabled),
            decreases acts@.len() - i,
        {
            assert(av[i as int] == acts@[i as int]@);
            if acts[i].id == id && acts[i].enabled {
                return true;
            }
            i = i + 1;
        }
        false
    }

    fn activate(&mut self)
        ensures
            final(self)@ == activate_spec(old(self)@),
    {
        match self.focus {
            Focus::Actions => {
                let acts = self.actions();
                if self.action_index < acts.len() {
                    let a = &acts[self.action_index];
                    assert(action_views(acts@)[self.action_index as int] == a@);
                    if a.enabled {
                        self.open_action(a.id);
                    } else {
                        self.error = a.reason.clone();
                    }
                }
            },
            Focus::Shares => self.open_share(false),
            Focus::Devices => match self.current_kind() {
                Some(RowKind::Shares) => self.focus = Focus::Shares,
                Some(RowKind::Free { .. }) => self.open_action(ActionId::CreatePartition),
                Some(RowKind::Volume { .. }) => {
                    if self.action_enabled(ActionId::Unlock) {
                        self.open_action(ActionId::Unlock);
                    } else if self.action_enabled(ActionId::Mount) {
                        self.open_action(ActionId::Mount);
                    } else if self.action_enabled(ActionId::Unmount) {
                        self.open_action(ActionId::Unmount);
                    }
                },
                _ => self.focus = Focus::Actions,
            },
        }
    }

    fn shortcut(&mut self, ch: char, installed: bool)
        ensures
            final(self)@ == shortcut_spec(old(self)@, ch, installed),
    {
        if self.focus == Focus::Shares {
            if ch == 'n' {
                self.open_share(true);
            } else if ch == 'e' {
                self.open_share(false);
            } else if ch == 'd' {
                self.delete_share();
            } else if ch == 'm' {
                self.mount_share(true, installed);
            } else if ch == 'u' {
                self.mount_share(false, installed);
            }
            return ;
        }
        let acts = self.actions();
        let ghost av = action_views(acts@);
        let ghost f = |a: ActionV| key_spec(a.id) == seq![ch] && key_spec(a.id).len() > 0;
        let mut i: usize = 0;
        while i < acts.len() && !key_matches(acts[i].id, ch)
            invariant
                i <= acts@.len(),
                av == action_views(acts@),
                av == current_actions(self@),
                f == (|a: ActionV| key_spec(a.id) == seq![ch] && key_spec(a.id).len() > 0),
                forall|j: int| 0 <= j < i ==> !f(#[trigger] av[j]),
            decreases acts@.len() - i,
        {
            assert(av[i as int] == acts@[i as int]@);
            i = i + 1;
        }
        if i == acts.len() {
            proof {
                crate::model::lemma_first_none(av, f);
            }
            return ;
        }
        proof {
            assert(av[i as int] == acts@[i as int]@);
            crate::model::lemma_first_at(av, f, i as int);
        }
        let a = &acts[i];
        if a.enabled {
            self.open_action(a.id);
        } else if !a.reason.as_str().is_empty() {
            self.error = a.reason.clone();
        }
    }

    fn focus_shares(&mut self)
        ensures
            final(self)@ == focus_shares_spec(old(self)@),
    {
        let ghost rows = self@.rows;
        let ghost f = |r: RowV| r.kind matches RowKindV::Shares;
        let mut i: usize = 0;
        while i < self.rows.len() && !is_shares_row(&self.rows[i])
            invariant
                i <= self.rows@.len(),
                rows == crate::model::row_views(self.rows@),
                f == (|r: RowV| r.kind matches RowKindV::Shares),
                forall|j: int| 0 <= j < i ==> !f(#[trigger] rows[j]),
            decreases self.rows@.len() - i,
        {
            assert(rows[i as int] == self.rows@[i as int]@);
            i = i + 1;
        }
        if i < self.rows.len() {
            proof {
                assert(rows[i as int] == self.rows@[i as int]@);
                lemma_index_at(rows, f, 0, i as int);
            }
            self.selected = i;
        } else {
            proof {
                lemma_index_none(rows, f, 0);
            }
        }
        self.focus = Focus::Shares;
    }

    fn key_main(&mut self, key: Key, installed: bool)
        requires
            indices_ok(old(self)@),
        ensures
            final(self)@ == key_main_spec(old(self)@, key, installed),
    {
        if key == Key::Esc && self.running {
            self.cancel = true;
            self.info = String::from_str("Cancelling…");
            return ;
        }
        match key {
            Key::Char('q') => self.quit = true,
            Key::Char('?') => self.help = true,
            Key::Char('t') => self.picking_theme = true,
            Key::Char('1') => {
                self.focus = Focus::Devices;
                match self.current_kind() {
                    Some(RowKind::Shares) => self.selected = 0,
                    _ => {},
                }
            },
            Key::Char('2') => self.focus_shares(),
            Key::Tab => self.cycle(),
            Key::BackTab => self.cycle(),
            Key::Char('j') => self.move_sel(1),
            Key::Down => self.move_sel(1),
            Key::Char('k') => self.move_sel(-1),
            Key::Up => self.move_sel(-1),
            Key::Enter => self.activate(),
            Key::Char('x') => self.cancel_job(),
            Key::Char('U') => self.force_unmount(),
            Key::Char(ch) => self.shortcut(ch, installed),
            _ => {},
        }
    }

    fn text_scroll(&mut self, dir: i32)
        ensures
            final(self)@ == scroll_spec(old(self)@, dir),
    {
        match &mut self.dialog {
            Dialog::Text { scroll, .. } => {
                if dir == 0 {
                    *scroll = 0;
                } else if dir < 0 {
                    *scroll = scroll.saturating_sub(1);
                } else {
                    *scroll = scroll.saturating_add(1);
                }
            },
            _ => {},
        }
    }

    fn key_text(&mut self, key: Key)
        ensures
            final(self)@ == key_text_spec(old(self)@, key),
    {
        match key {
            Key::Esc | Key::Char('q') | Key::Enter => self.dialog = Dialog::Closed,
            Key::Char('j') | Key::Down => self.text_scroll(1),
            Key::Char('k') | Key::Up => self.text_scroll(-1),
            Key::Char('g') => self.text_scroll(0),
            Key::Char('a') => {
                let target = match &self.smart_target {
                    Some((path, nvme)) => Some((path.clone(), *nvme)),
                    None => None,
                };
                match target {
                    Some((path, nvme)) => {
                        self.dialog = Dialog::Closed;
                        self.queue(Op::SmartAbort { path, nvme });
                    },
                    None => {},
                }
            },
            _ => {},
        }
    }

    fn key_confirm(&mut self, key: Key, ctrl: bool)
        requires
            indices_ok(old(self)@),
        ensures
            final(self)@ == key_confirm_spec(old(self)@, key, ctrl),
    {
        let mut d = Dialog::Closed;
        std::mem::swap(&mut d, &mut self.dialog);
        let mut c = match d {
            Dialog::Confirm(c) => c,
            other => {
                self.dialog = other;
                return ;
            },
        };
        match key {
            Key::Esc => {},
            Key::Tab | Key::BackTab | Key::Up | Key::Down => {
                if c.system {
                    c.which = 1 - c.which;
                }
                self.dialog = Dialog::Confirm(c);
            },
            Key::Backspace => {
                if c.which == 0 {
                    pop_char(&mut c.typed);
                } else {
                    pop_char(&mut c.ack);
                }
                self.dialog = Dialog::Confirm(c);
            },
            Key::Enter => {
                self.dialog = Dialog::Confirm(c);
                self.submit_confirm();
            },
            Key::Char(ch) => {
                if !ctrl {
                    if c.which == 0 {
                        push_char(&mut c.typed, ch);
                    } else {
                        push_char(&mut c.ack, ch);
                    }
                }
                self.dialog = Dialog::Confirm(c);
            },
            _ => {
                self.dialog = Dialog::Confirm(c);
            },
        }
    }

    fn focused_choice(&self) -> (r: bool)
        ensures
            r == focused_is_choice(self@),
    {
        match &self.dialog {
            Dialog::Form(form) => {
                if form.focus < form.fields.len() {
                    assert(field_views(form.fields@)[form.focus as int] == form.fields@[form.focus as int]@);
                    is_choice_field(&form.fields[form.focus])
                } else {
                    false
                }
            },
            _ => false,
        }
    }

    fn form_move(&mut self, dir: i32)
        requires
            indices_ok(old(self)@),
        ensures
            final(self)@ == form_move_spec(old(self)@, dir),
    {
        match &mut self.dialog {
            Dialog::Form(form) => {
                if form.fields.len() == 0 {
                    return ;
                }
                form.focus = slide(form.focus, form.fields.len(), dir);
            },
            _ => {},
        }
    }

    fn form_cycle(&mut self, dir: i32)
        ensures
            final(self)@ == form_cycle_spec(old(self)@, dir),
    {
        let mut d = Dialog::Closed;
        std::mem::swap(&mut d, &mut self.dialog);
        let mut form = match d {
            Dialog::Form(f) => f,
            other => {
                self.dialog = other;
                return ;
            },
        };
        let ghost f0 = form@;
        if form.focus < form.fields.len() {
            let i = form.focus;
            assert(field_views(form.fields@)[i as int] == form.fields@[i as int]@);
            if is_choice_field(&form.fields[i]) {
                let ghost fields0 = form.fields@;
                let mut fld = form.fields.remove(i);
                assert(fld@ == f0.fields[i as int]);
                if fld.toggle {
                    fld.value = if same_str(fld.value.as_str(), "yes") {
                        String::from_str("no")
                    } else {
                        String::from_str("yes")
                    };
                } else {
                    fld.value = cycled(&fld, dir);
                }
                form.fields.insert(i, fld);
                assert(form.fields@ =~= fields0.update(i as int, fld));
                assert(field_views(form.fields@) =~= f0.fields.update(i as int, fld@));
            }
        }
        self.dialog = Dialog::Form(form);
    }

    fn form_edit(&mut self, push: bool, ch: char)
        ensures
            push ==> final(self)@ == form_edit_spec(old(self)@, |t: Seq<char>| t.push(ch)),
            !push ==> final(self)@ == form_edit_spec(old(self)@, |t: Seq<char>| pop_last(t)),
    {
        if self.focused_choice() {
            return ;
        }
        let mut d = Dialog::Closed;
        std::mem::swap(&mut d, &mut self.dialog);
        let mut form = match d {
            Dialog::Form(f) => f,
            other => {
                self.dialog = other;
                return ;
            },
        };
        let ghost f0 = form@;
        if form.focus < form.fields.len() {
            let i = form.focus;
            let ghost fields0 = form.fields@;
            let mut fld = form.fields.remove(i);
            assert(fld@ == f0.fields[i as int]);
            if push {
                push_char(&mut fld.value, ch);
            } else {
                pop_char(&mut fld.value);
            }
            form.fields.insert(i, fld);
            assert(form.fields@ =~= fields0.update(i as int, fld));
            assert(field_views(form.fields@) =~= f0.fields.update(i as int, fld@));
        }
        self.dialog = Dialog::Form(form);
    }

    fn key_form(&mut self, key: Key, ctrl: bool, facts: &Facts)
        requires
            indices_ok(old(self)@),
        ensures
            final(self)@ == key_form_spec(old(self)@, key, ctrl, facts@),
    {
        match key {
            Key::Esc => self.dialog = Dialog::Closed,
            Key::Up | Key::BackTab => self.form_move(-1),
            Key::Down | Key::Tab => self.form_move(1),
            Key::Left => self.form_cycle(-1),
            Key::Right => self.form_cycle(1),
            Key::Char(' ') => {
                if self.focused_choice() {
                    self.form_cycle(1);
                } else {
                    self.form_edit(true, ' ');
                }
            },
            Key::Enter => self.submit_form(facts),
            Key::Backspace => self.form_edit(false, ' '),
            Key::Char(ch) => {
                if !ctrl {
                    self.form_edit(true, ch);
                }
            },
            _ => {},
        }
    }

    /// A key press; `ctrl` tells whether Control was held.
    pub fn on_key(&mut self, key: Key, ctrl: bool, facts: &Facts)
        requires
            indices_ok(old(self)@),
        ensures
            final(self)@ == on_key_spec(old(self)@, key, ctrl, facts@),
    {
        if ctrl && key == Key::Char('c') {
            self.quit = true;
            return ;
        }
        if self.help {
            self.help = false;
            return ;
        }
        if self.picking_theme {
            return ;
        }
        match &self.dialog {
            Dialog::Text { .. } => self.key_text(key),
            Dialog::Confirm(_) => self.key_confirm(key, ctrl),
            Dialog::Form(_) => self.key_form(key, ctrl, facts),
            Dialog::Closed => self.key_main(key, facts.helper_installed),
        }
    }
}

fn key_matches(id: ActionId, ch: char) -> (r: bool)
    ensures
        r == (key_spec(id) == seq![ch] && key_spec(id).len() > 0),
{
    let k = chars_of(id.key());
    if k.len() == 1 && k[0] == ch {
        assert(k@ =~= seq![ch]);
        true
    } else {
        false
    }
}

fn is_shares_row(row: &crate::model::Row) -> (r: bool)
    ensures
        r == (row@.kind matches RowKindV::Shares),
{
    match &row.kind {
        RowKind::Shares => true,
        _ => false,
    }
}

} // verus!
