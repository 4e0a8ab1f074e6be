//! Dialog forms: their fields, and reading values back out of them.

use vstd::prelude::*;

use crate::model::{
    copy_prop, first_where, lemma_first_at, lemma_first_none, pair_views, PairV,
    PropVal, PropValV, Row, RowKind, RowKindV,
};
use crate::text::{
    before, before_chars, chars_of, dec, dec_chars, dec_i32, dec_i32_chars, dec_i64,
    dec_i64_chars, eq_str,
    parse_i32, parse_i32_chars, push_all, push_str, same_str, slice_of, split_chars, split_on,
    string_from, trim, trim_str, views,
};

verus! {

// ---------------------------------------------------------------------------
// Types
// ---------------------------------------------------------------------------

pub struct Field {
    pub label: String,
    pub value: String,
    pub choices: Vec<String>,
    pub secret: bool,
    pub toggle: bool,
}

/// A dialog form. `sizes` are byte counts that belong in the blurb: each is
/// printed in readable units by the front end, before the blurb character
/// at its offset (offsets count characters of `blurb`, in increasing order).
pub struct Form {
    pub title: String,
    pub blurb: String,
    pub sizes: Vec<(usize, u64)>,
    pub fields: Vec<Field>,
    pub focus: usize,
    pub id: FormId,
}

pub enum FormId {
    Format { path: String },
    FormatDisk { path: String },
    Create { disk: String, offset: u64, max: u64, table: String },
    Resize { path: String, current: u64, filesystem: bool, mounted: bool, fstype: String },
    Label { path: String, swap: bool },
    MountOptions { path: String },
    Unlock { path: String },
    ChangePass { path: String },
    EditPartition { path: String, table: String },
    Image { path: String, size: u64, restore: bool },
    Benchmark { path: String, size: u64 },
    DriveSettings { path: String },
    RaidCreate,
    Share,
    LoopAttach,
    Header { path: String, restore: bool },
    SmartTest { path: String, nvme: bool },
    Sanitize { path: String },
    SecureErase { path: String },
    Convert { path: String },
}

pub struct FieldV {
    pub label: Seq<char>,
    pub value: Seq<char>,
    pub choices: Seq<Seq<char>>,
    pub secret: bool,
    pub toggle: bool,
}

pub enum FormIdV {
    Format { path: Seq<char> },
    FormatDisk { path: Seq<char> },
    Create { disk: Seq<char>, offset: u64, max: u64, table: Seq<char> },
    Resize { path: Seq<char>, current: u64, filesystem: bool, mounted: bool, fstype: Seq<char> },
    Label { path: Seq<char>, swap: bool },
    MountOptions { path: Seq<char> },
    Unlock { path: Seq<char> },
    ChangePass { path: Seq<char> },
    EditPartition { path: Seq<char>, table: Seq<char> },
    Image { path: Seq<char>, size: u64, restore: bool },
    Benchmark { path: Seq<char>, size: u64 },
    DriveSettings { path: Seq<char> },
    RaidCreate,
    Share,
    LoopAttach,
    Header { path: Seq<char>, restore: bool },
    SmartTest { path: Seq<char>, nvme: bool },
    Sanitize { path: Seq<char> },
    SecureErase { path: Seq<char> },
    Convert { path: Seq<char> },
}

pub struct FormV {
    pub title: Seq<char>,
    pub blurb: Seq<char>,
    pub sizes: Seq<(usize, u64)>,
    pub fields: Seq<FieldV>,
    pub focus: usize,
    pub id: FormIdV,
}

pub open spec fn string_seq(v: Seq<String>) -> Seq<Seq<char>> {
    v.map_values(|s: String| s@)
}

impl View for Field {
    type V = FieldV;

    open spec fn view(&self) -> FieldV {
        FieldV {
            label: self.label@,
            value: self.value@,
            choices: string_seq(self.choices@),
            secret: self.secret,
            toggle: self.toggle,
        }
    }
}

pub open spec fn field_views(v: Seq<Field>) -> Seq<FieldV> {
    v.map_values(|f: Field| f@)
}

impl View for FormId {
    type V = FormIdV;

    open spec fn view(&self) -> FormIdV {
        match self {
            FormId::Format { path } => FormIdV::Format { path: path@ },
            FormId::FormatDisk { path } => FormIdV::FormatDisk { path: path@ },
            FormId::Create { disk, offset, max, table } => FormIdV::Create {
                disk: disk@,
                offset: *offset,
                max: *max,
                table: table@,
            },
            FormId::Resize { path, current, filesystem, mounted, fstype } => FormIdV::Resize {
                path: path@,
                current: *current,
                filesystem: *filesystem,
                mounted: *mounted,
                fstype: fstype@,
            },
            FormId::Label { path, swap } => FormIdV::Label { path: path@, swap: *swap },
            FormId::MountOptions { path } => FormIdV::MountOptions { path: path@ },
            FormId::Unlock { path } => FormIdV::Unlock { path: path@ },
            FormId::ChangePass { path } => FormIdV::ChangePass { path: path@ },
            FormId::EditPartition { path, table } => FormIdV::EditPartition { path: path@, table: table@ },
            FormId::Image { path, size, restore } => FormIdV::Image {
                path: path@,
                size: *size,
                restore: *restore,
            },
            FormId::Benchmark { path, size } => FormIdV::Benchmark { path: path@, size: *size },
            FormId::DriveSettings { path } => FormIdV::DriveSettings { path: path@ },
            FormId::RaidCreate => FormIdV::RaidCreate,
            FormId::Share => FormIdV::Share,
            FormId::LoopAttach => FormIdV::LoopAttach,
            FormId::Header { path, restore } => FormIdV::Header { path: path@, restore: *restore },
            FormId::SmartTest { path, nvme } => FormIdV::SmartTest { path: path@, nvme: *nvme },
            FormId::Sanitize { path } => FormIdV::Sanitize { path: path@ },
            FormId::SecureErase { path } => FormIdV::SecureErase { path: path@ },
            FormId::Convert { path } => FormIdV::Convert { path: path@ },
        }
    }
}

impl View for Form {
    type V = FormV;

    open spec fn view(&self) -> FormV {
        FormV {
            title: self.title@,
            blurb: self.blurb@,
            sizes: self.sizes@,
            fields: field_views(self.fields@),
            focus: self.focus,
            id: self.id@,
        }
    }
}

// ---------------------------------------------------------------------------
// Building fields
// ---------------------------------------------------------------------------

pub open spec fn text_field(label: Seq<char>, value: Seq<char>) -> FieldV {
    FieldV { label, value, choices: Seq::empty(), secret: false, toggle: false }
}

pub open spec fn secret_field(label: Seq<char>) -> FieldV {
    FieldV { label, value: Seq::empty(), choices: Seq::empty(), secret: true, toggle: false }
}

pub open spec fn yes_no(on: bool) -> Seq<char> {
    if on {
        "yes"@
    } else {
        "no"@
    }
}

pub open spec fn toggle_field(label: Seq<char>, on: bool) -> FieldV {
    FieldV { label, value: yes_no(on), choices: Seq::empty(), secret: false, toggle: true }
}

/// The current choice when it is offered, else the first choice.
pub open spec fn choice_value(choices: Seq<Seq<char>>, current: Seq<char>) -> Seq<char> {
    if choices.contains(current) {
        current
    } else if choices.len() > 0 {
        choices[0]
    } else {
        Seq::empty()
    }
}

pub open spec fn choice_field(label: Seq<char>, choices: Seq<Seq<char>>, current: Seq<char>) -> FieldV {
    FieldV { label, value: choice_value(choices, current), choices, secret: false, toggle: false }
}

pub fn text(label: &str, value: &str) -> (f: Field)
    ensures
        f@ == text_field(label@, value@),
{
    let f = Field {
        label: String::from_str(label),
        value: String::from_str(value),
        choices: Vec::new(),
        secret: false,
        toggle: false,
    };
    assert(f@.choices =~= Seq::<Seq<char>>::empty());
    f
}

pub fn secret(label: &str) -> (f: Field)
    ensures
        f@ == secret_field(label@),
{
    let f = Field {
        label: String::from_str(label),
        value: String::new(),
        choices: Vec::new(),
        secret: true,
        toggle: false,
    };
    assert(f@.choices =~= Seq::<Seq<char>>::empty());
    f
}

pub fn toggle(label: &str, on: bool) -> (f: Field)
    ensures
        f@ == toggle_field(label@, on),
{
    let f = Field {
        label: String::from_str(label),
        value: if on {
            String::from_str("yes")
        } else {
            String::from_str("no")
        },
        choices: Vec::new(),
        secret: false,
        toggle: true,
    };
    assert(f@.choices =~= Seq::<Seq<char>>::empty());
    f
}

pub fn choice(label: &str, choices: Vec<String>, current: &str) -> (f: Field)
    ensures
        f@ == choice_field(label@, string_seq(choices@), current@),
{
    let ghost cs = string_seq(choices@);
    let mut i: usize = 0;
    while i < choices.len() && !same_str(choices[i].as_str(), current)
        invariant
            i <= choices@.len(),
            cs == string_seq(choices@),
            forall|j: int| 0 <= j < i ==> choices@[j]@ != current@,
        decreases choices@.len() - i,
    {
        i = i + 1;
    }
    let value = if i < choices.len() {
        assert(cs[i as int] == current@);
        String::from_str(current)
    } else {
        assert forall|j: int| 0 <= j < cs.len() implies cs[j] != current@ by {
            assert(cs[j] == choices@[j]@);
        }
        if choices.len() > 0 {
            choices[0].clone()
        } else {
            String::new()
        }
    };
    Field { label: String::from_str(label), value, choices, secret: false, toggle: false }
}

/// `vec![a, b, ...]` of strings.
pub fn strings(items: &[&str]) -> (r: Vec<String>)
    ensures
        r@.len() == items@.len(),
        forall|i: int| 0 <= i < items@.len() ==> (#[trigger] r@[i])@ == items@[i]@,
{
    let mut r: Vec<String> = Vec::new();
    let mut i: usize = 0;
    while i < items.len()
        invariant
            i <= items@.len(),
            r@.len() == i,
            forall|k: int| 0 <= k < i ==> (#[trigger] r@[k])@ == items@[k]@,
        decreases items@.len() - i,
    {
        r.push(String::from_str(items[i]));
        i = i + 1;
    }
    r
}

// ---------------------------------------------------------------------------
// Reading a form
// ---------------------------------------------------------------------------

/// Some field with this label is switched on.
pub open spec fn yes_spec(fields: Seq<FieldV>, label: Seq<char>) -> bool {
    exists|i: int| 0 <= i < fields.len() && (#[trigger] fields[i]).label == label && fields[i].value == "yes"@
}

/// The value of the first field with this label; empty when there is none.
pub open spec fn val_spec(fields: Seq<FieldV>, label: Seq<char>) -> Seq<char> {
    match first_where(fields, |f: FieldV| f.label == label) {
        Some(f) => f.value,
        None => Seq::empty(),
    }
}

pub fn yes(form: &Form, label: &str) -> (r: bool)
    ensures
        r == yes_spec(form@.fields, label@),
{
    let ghost fs = form@.fields;
    let mut i: usize = 0;
    while i < form.fields.len()
        invariant
            i <= form.fields@.len(),
            fs == field_views(form.fields@),
            forall|j: int| 0 <= j < i ==> !((#[trigger] fs[j]).label == label@ && fs[j].value == "yes"@),
        decreases form.fields@.len() - i,
    {
        assert(fs[i as int] == form.fields@[i as int]@);
        if same_str(form.fields[i].label.as_str(), label) && eq_str(
            chars_of(form.fields[i].value.as_str()).as_slice(),
            "yes",
        ) {
            return true;
        }
        i = i + 1;
    }
    false
}

pub fn val<'a>(form: &'a Form, label: &str) -> (r: &'a str)
    ensures
        r@ == val_spec(form@.fields, label@),
{
    let ghost fs = form@.fields;
    let ghost f = |x: FieldV| x.label == label@;
    let mut i: usize = 0;
    while i < form.fields.len()
        invariant
            i <= form.fields@.len(),
            fs == field_views(form.fields@),
            f == (|x: FieldV| x.label == label@),
            forall|j: int| 0 <= j < i ==> !f(#[trigger] fs[j]),
        decreases form.fields@.len() - i,
    {
        assert(fs[i as int] == form.fields@[i as int]@);
        if same_str(form.fields[i].label.as_str(), label) {
            proof {
                lemma_first_at(fs, f, i as int);
            }
            return form.fields[i].value.as_str();
        }
        i = i + 1;
    }
    proof {
        lemma_first_none(fs, f);
        reveal_strlit("");
    }
    ""
}

// ---------------------------------------------------------------------------
// Small helpers
// ---------------------------------------------------------------------------

/// One step through a list: up stops at the top, down at the bottom.
pub open spec fn slide_spec(index: usize, len: usize, dir: i32) -> usize {
    if len == 0 {
        0
    } else if dir < 0 {
        if index == 0 {
            0
        } else {
            (index - 1) as usize
        }
    } else if index + 1 <= len - 1 {
        (index + 1) as usize
    } else {
        (len - 1) as usize
    }
}

pub fn slide(index: usize, len: usize, dir: i32) -> (r: usize)
    requires
        index < usize::MAX,
    ensures
        r == slide_spec(index, len, dir),
{
    if len == 0 {
        return 0;
    }
    if dir < 0 {
        if index == 0 {
            0
        } else {
            index - 1
        }
    } else if index + 1 <= len - 1 {
        index + 1
    } else {
        len - 1
    }
}

/// What identifies a row across refreshes.
pub open spec fn row_key_spec(kind: RowKindV) -> Seq<char> {
    match kind {
        RowKindV::Drive { drive } => "d:"@ + drive,
        RowKindV::Volume { block } => "v:"@ + block,
        RowKindV::Free { disk, start, .. } => "f:"@ + disk + ":"@ + dec(start as nat),
        RowKindV::Raid { raid } => "r:"@ + raid,
        RowKindV::Shares => "shares"@,
    }
}

pub fn row_key(row: &Row) -> (r: String)
    ensures
        r@ == row_key_spec(row.kind@),
{
    match &row.kind {
        RowKind::Drive { drive } => String::from_str("d:").concat(drive.as_str()),
        RowKind::Volume { block } => String::from_str("v:").concat(block.as_str()),
        RowKind::Free { disk, start, .. } => {
            let mut v = chars_of("f:");
            push_str(&mut v, disk.as_str());
            push_str(&mut v, ":");
            let d = dec_chars(*start);
            push_all(&mut v, d.as_slice());
            string_from(v.as_slice())
        },
        RowKind::Raid { raid } => String::from_str("r:").concat(raid.as_str()),
        RowKind::Shares => String::from_str("shares"),
    }
}

/// The value of `key=value` among comma-separated options: the first option
/// whose part before its first `=` is the key.
pub open spec fn opt_find(pieces: Seq<Seq<char>>, key: Seq<char>) -> Option<Seq<char>>
    decreases pieces.len(),
{
    if pieces.len() == 0 {
        None
    } else {
        let p = pieces[0];
        let k = before(p, '=');
        if k.len() < p.len() && k == key {
            Some(p.subrange(k.len() + 1int, p.len() as int))
        } else {
            opt_find(pieces.drop_first(), key)
        }
    }
}

pub open spec fn opt_of_spec(options: Seq<char>, key: Seq<char>) -> Option<Seq<char>> {
    opt_find(split_on(options, ','), key)
}

pub open spec fn opt_string_view(o: Option<String>) -> Option<Seq<char>> {
    match o {
        Some(s) => Some(s@),
        None => None,
    }
}

proof fn lemma_before_len(s: Seq<char>, c: char)
    ensures
        before(s, c).len() <= s.len(),
        before(s, c) == s.subrange(0, before(s, c).len() as int),
        before(s, c).len() < s.len() ==> s[before(s, c).len() as int] == c,
    decreases s.len(),
{
    if s.len() > 0 && s[0] != c {
        lemma_before_len(s.drop_first(), c);
        let b = before(s.drop_first(), c);
        assert(before(s, c) == seq![s[0]] + b);
        assert(seq![s[0]] + b =~= s.subrange(0, b.len() + 1int));
        if b.len() < s.len() - 1 {
            assert(s[b.len() + 1int] == s.drop_first()[b.len() as int]);
        }
    } else if s.len() > 0 {
        assert(s.subrange(0, 0) =~= Seq::<char>::empty());
    }
}

pub fn opt_of(options: &str, key: &str) -> (r: Option<String>)
    ensures
        opt_string_view(r) == opt_of_spec(options@, key@),
{
    let o = chars_of(options);
    let k = chars_of(key);
    let pieces = split_chars(o.as_slice(), ',');
    let ghost ps = views(pieces@);
    assert(ps.subrange(0, ps.len() as int) =~= ps);
    let mut i: usize = 0;
    while i < pieces.len()
        invariant
            i <= pieces@.len(),
            ps == views(pieces@),
            ps == split_on(options@, ','),
            k@ == key@,
            opt_of_spec(options@, key@) == opt_find(ps.subrange(i as int, ps.len() as int), key@),
        decreases pieces@.len() - i,
    {
        let ghost rest = ps.subrange(i as int, ps.len() as int);
        assert(rest[0] == pieces@[i as int]@);
        assert(rest.drop_first() =~= ps.subrange(i + 1, ps.len() as int));
        let p = &pieces[i];
        let b = before_chars(p.as_slice(), '=');
        proof {
            lemma_before_len(p@, '=');
        }
        if b.len() < p.len() && same_chars(b.as_slice(), k.as_slice()) {
            let v = slice_of(p.as_slice(), b.len() + 1, p.len());
            return Some(string_from(v.as_slice()));
        }
        i = i + 1;
    }
    None
}

fn same_chars(a: &[char], b: &[char]) -> (r: bool)
    ensures
        r == (a@ == b@),
{
    crate::text::eq_chars(a, b)
}

/// The first entry of a configuration dict with this key.
pub open spec fn pair_at(ps: Seq<PairV>, key: Seq<char>) -> Option<PairV> {
    first_where(ps, |p: PairV| p.0 == key)
}

/// A numeric drive setting as text; empty when unset or not a number.
pub open spec fn drive_int_spec(ps: Seq<PairV>, key: Seq<char>) -> Seq<char> {
    match pair_at(ps, key) {
        Some(p) => match p.1 {
            PropValV::I32(n) => dec_i32(n),
            PropValV::U32(n) => dec(n as nat),
            PropValV::I64(n) => dec_i64(n),
            _ => Seq::empty(),
        },
        None => Seq::empty(),
    }
}

pub open spec fn drive_bool_spec(ps: Seq<PairV>, key: Seq<char>) -> Option<bool> {
    match pair_at(ps, key) {
        Some(p) => match p.1 {
            PropValV::Bool(b) => Some(b),
            _ => None,
        },
        None => None,
    }
}

fn find_pair(pairs: &[(String, PropVal)], key: &str) -> (r: Option<usize>)
    ensures
        match r {
            Some(i) => i < pairs@.len() && pair_at(pair_views(pairs@), key@) == Some(
                pair_views(pairs@)[i as int],
            ) && pairs@[i as int].0@ == key@ && forall|j: int|
                0 <= j < i ==> pairs@[j].0@ != key@,
            None => pair_at(pair_views(pairs@), key@) is None && forall|j: int|
                0 <= j < pairs@.len() ==> pairs@[j].0@ != key@,
        },
{
    let ghost ps = pair_views(pairs@);
    let ghost f = |p: PairV| p.0 == key@;
    let mut i: usize = 0;
    while i < pairs.len()
        invariant
            i <= pairs@.len(),
            ps == pair_views(pairs@),
            f == (|p: PairV| p.0 == key@),
            forall|j: int| 0 <= j < i ==> pairs@[j].0@ != key@,
        decreases pairs@.len() - i,
    {
        if same_str(pairs[i].0.as_str(), key) {
            proof {
                assert forall|j: int| 0 <= j < i implies !f(#[trigger] ps[j]) by {
                    assert(ps[j].0 == pairs@[j].0@);
                }
                lemma_first_at(ps, f, i as int);
            }
            return Some(i);
        }
        i = i + 1;
    }
    proof {
        assert forall|j: int| 0 <= j < ps.len() implies !f(#[trigger] ps[j]) by {
            assert(ps[j].0 == pairs@[j].0@);
        }
        lemma_first_none(ps, f);
    }
    None
}

pub fn drive_int(pairs: &[(String, PropVal)], key: &str) -> (r: String)
    ensures
        r@ == drive_int_spec(pair_views(pairs@), key@),
{
    match find_pair(pairs, key) {
        Some(i) => match &pairs[i].1 {
            PropVal::I32(n) => {
                let d = dec_i32_chars(*n);
                string_from(d.as_slice())
            },
            PropVal::U32(n) => {
                let d = dec_chars(*n as u64);
                string_from(d.as_slice())
            },
            PropVal::I64(n) => {
                let d = dec_i64_chars(*n);
                string_from(d.as_slice())
            },
            _ => String::new(),
        },
        None => String::new(),
    }
}

pub fn drive_bool(pairs: &[(String, PropVal)], key: &str) -> (r: Option<bool>)
    ensures
        r == drive_bool_spec(pair_views(pairs@), key@),
{
    match find_pair(pairs, key) {
        Some(i) => match &pairs[i].1 {
            PropVal::Bool(b) => Some(*b),
            _ => None,
        },
        None => None,
    }
}

/// Sets the first entry with the key, or appends one.
pub open spec fn set_first(ps: Seq<PairV>, key: Seq<char>, v: PropValV) -> Seq<PairV> {
    match pair_at(ps, key) {
        Some(p) => {
            let i = choose|i: int| 0 <= i < ps.len() && ps[i] == p && forall|j: int|
                0 <= j < i ==> ps[j].0 != key;
            ps.update(i, (key, v))
        },
        None => ps.push((key, v)),
    }
}

/// Drops every entry with the key.
pub open spec fn without_key(ps: Seq<PairV>, key: Seq<char>) -> Seq<PairV>
    decreases ps.len(),
{
    if ps.len() == 0 {
        ps
    } else if ps.last().0 == key {
        without_key(ps.drop_last(), key)
    } else {
        without_key(ps.drop_last(), key).push(ps.last())
    }
}

/// A blank value removes the setting; a number sets it; anything else
/// leaves the dict as it was.
pub open spec fn set_i32_spec(ps: Seq<PairV>, key: Seq<char>, text: Seq<char>) -> Seq<PairV> {
    let t = trim(text);
    if t.len() == 0 {
        without_key(ps, key)
    } else {
        match parse_i32(t) {
            Some(n) => set_first(ps, key, PropValV::I32(n)),
            None => ps,
        }
    }
}

pub open spec fn set_bool_spec(ps: Seq<PairV>, key: Seq<char>, value: bool) -> Seq<PairV> {
    set_first(ps, key, PropValV::Bool(value))
}

fn put_first(pairs: &mut Vec<(String, PropVal)>, key: &str, value: PropVal)
    ensures
        pair_views(final(pairs)@) == set_first(pair_views(old(pairs)@), key@, value@),
{
    let ghost ps = pair_views(pairs@);
    match find_pair(pairs.as_slice(), key) {
        Some(i) => {
            proof {
                let p = pair_at(ps, key@)->0;
                let w = choose|w: int| 0 <= w < ps.len() && ps[w] == p && forall|j: int|
                    0 <= j < w ==> ps[j].0 != key@;
                assert(0 <= i < ps.len() && ps[i as int] == p && forall|j: int|
                    0 <= j < i ==> ps[j].0 != key@) by {
                    assert forall|j: int| 0 <= j < i implies ps[j].0 != key@ by {
                        assert(ps[j].0 == pairs@[j].0@);
                    }
                }
                if w < i {
                    assert(ps[w].0 == key@);
                } else if w > i {
                    assert(ps[i as int].0 == key@);
                }
                assert(w == i);
            }
            pairs.set(i, (String::from_str(key), value));
            assert(pair_views(pairs@) =~= set_first(ps, key@, value@));
        },
        None => {
            pairs.push((String::from_str(key), value));
            assert(pair_views(pairs@) =~= ps.push((key@, value@)));
        },
    }
}

pub fn set_bool(pairs: &mut Vec<(String, PropVal)>, key: &str, value: bool)
    ensures
        pair_views(final(pairs)@) == set_bool_spec(pair_views(old(pairs)@), key@, value),
{
    put_first(pairs, key, PropVal::Bool(value));
}

fn drop_key(pairs: &mut Vec<(String, PropVal)>, key: &str)
    ensures
        pair_views(final(pairs)@) == without_key(pair_views(old(pairs)@), key@),
{
    let ghost ps = pair_views(pairs@);
    let mut kept: Vec<(String, PropVal)> = Vec::new();
    let mut i: usize = 0;
    while i < pairs.len()
        invariant
            i <= pairs@.len(),
            ps == pair_views(pairs@),
            pair_views(kept@) == without_key(ps.subrange(0, i as int), key@),
        decreases pairs@.len() - i,
    {
        let ghost n = ps.subrange(0, i + 1);
        assert(n.drop_last() =~= ps.subrange(0, i as int));
        assert(n.last() == ps[i as int]);
        if !same_str(pairs[i].0.as_str(), key) {
            let ghost pre = kept@;
            let e = (pairs[i].0.clone(), copy_prop(&pairs[i].1));
            kept.push(e);
            assert(pair_views(kept@) =~= pair_views(pre).push((e.0@, e.1@)));
        }
        i = i + 1;
    }
    assert(ps.subrange(0, ps.len() as int) =~= ps);
    *pairs = kept;
}

pub fn set_i32(pairs: &mut Vec<(String, PropVal)>, key: &str, text: &str)
    ensures
        pair_views(final(pairs)@) == set_i32_spec(pair_views(old(pairs)@), key@, text@),
{
    let t = trim_str(text);
    if t.len() == 0 {
        drop_key(pairs, key);
        return ;
    }
    match parse_i32_chars(t.as_slice()) {
        Some(n) => put_first(pairs, key, PropVal::I32(n)),
        None => {},
    }
}

} // verus!
