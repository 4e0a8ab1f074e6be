//! `/etc/fstab` edits that leave every untouched line byte-for-byte.

use vstd::prelude::*;
use vstd::string::*;
use vstd::utf8::*;

use crate::text::{before, before_chars, char_is_ws, char_lower, chars_of, is_digit, contains, contains_chars, dec, dec_chars, eq_chars, eq_str, has_char, is_alnum, is_ws, join, join_chars, lower, lower_chars, lower_seq, parse_u64, parse_u64_chars, push_all, push_str, slice_of, split_chars, split_on, starts_with, starts_with_chars, string_from, trim, trimmed, views};

verus! {

// ---------------------------------------------------------------------------
// Types
// ---------------------------------------------------------------------------

#[derive(Clone, Debug, PartialEq, Eq)]
pub struct Fields {
    pub source: String,
    pub target: String,
    pub fstype: String,
    pub options: String,
    pub dump: String,
    pub pass: String,
}

#[derive(Clone, Debug, PartialEq, Eq)]
pub struct Share {
    pub id: String,
    pub source: String,
    pub target: String,
    pub fstype: String,
    pub options: String,
}

#[derive(Clone, Debug)]
pub struct ShareDraft {
    pub id: String,
    pub protocol: String,
    pub source: String,
    pub mount_point: String,
    pub guest: bool,
    pub username: String,
    pub password: String,
    pub credentials_file: String,
    pub identity_file: String,
    pub extra: String,
    pub netdev: bool,
    pub nofail: bool,
    pub automount: bool,
    pub idle_timeout: String,
    pub vers: String,
    pub uid: u32,
    pub gid: u32,
}

#[derive(Clone, Debug, PartialEq, Eq)]
pub struct CredWrite {
    pub path: String,
    pub contents: String,
}

#[derive(Clone, Debug, PartialEq, Eq)]
pub struct SharePlan {
    pub id: String,
    pub source: String,
    pub target: String,
    pub entry_line: String,
    pub credentials: Option<CredWrite>,
}

#[derive(Clone, Debug)]
pub enum Change {
    Upsert { id: String, source: String, target: String, line: String },
    Delete { id: String, source: String, target: String },
}

// ---------------------------------------------------------------------------
// Mathematical views
// ---------------------------------------------------------------------------

pub struct FieldsV {
    pub source: Seq<char>,
    pub target: Seq<char>,
    pub fstype: Seq<char>,
    pub options: Seq<char>,
    pub dump: Seq<char>,
    pub pass: Seq<char>,
}

impl View for Fields {
    type V = FieldsV;

    open spec fn view(&self) -> FieldsV {
        FieldsV {
            source: self.source@,
            target: self.target@,
            fstype: self.fstype@,
            options: self.options@,
            dump: self.dump@,
            pass: self.pass@,
        }
    }
}

pub struct ShareV {
    pub id: Seq<char>,
    pub source: Seq<char>,
    pub target: Seq<char>,
    pub fstype: Seq<char>,
    pub options: Seq<char>,
}

impl View for Share {
    type V = ShareV;

    open spec fn view(&self) -> ShareV {
        ShareV {
            id: self.id@,
            source: self.source@,
            target: self.target@,
            fstype: self.fstype@,
            options: self.options@,
        }
    }
}

pub open spec fn share_views(v: Seq<Share>) -> Seq<ShareV> {
    v.map_values(|s: Share| s@)
}

// ---------------------------------------------------------------------------
// Escaping
// ---------------------------------------------------------------------------

pub open spec fn escape_char(c: char) -> Seq<char> {
    if c == ' ' {
        seq!['\\', '0', '4', '0']
    } else if c == '\t' {
        seq!['\\', '0', '1', '1']
    } else if c == '\n' {
        seq!['\\', '0', '1', '2']
    } else if c == '\\' {
        seq!['\\', '\\']
    } else {
        seq![c]
    }
}

/// fstab's octal escaping of space, tab, newline and backslash.
pub open spec fn escape_spec(s: Seq<char>) -> Seq<char>
    decreases s.len(),
{
    if s.len() == 0 {
        Seq::<char>::empty()
    } else {
        escape_spec(s.drop_last()) + escape_char(s.last())
    }
}

pub open spec fn is_oct(b: u8) -> bool {
    48 <= b && b <= 55
}

pub open spec fn oct_val(b1: u8, b2: u8, b3: u8) -> int {
    (b1 - 48) * 64 + (b2 - 48) * 8 + (b3 - 48)
}

/// Three octal digits whose value fits in a byte.
pub open spec fn oct_ok(b1: u8, b2: u8, b3: u8) -> bool {
    is_oct(b1) && is_oct(b2) && is_oct(b3) && oct_val(b1, b2, b3) <= 255
}

/// The byte-level unescaping: `\\` gives a backslash, `\ooo` gives the byte
/// with that octal value, every other byte is taken as the character with
/// that code.
pub open spec fn unescape_bytes(b: Seq<u8>) -> Seq<char>
    decreases b.len(),
{
    if b.len() == 0 {
        Seq::<char>::empty()
    } else if b[0] == 92 && b.len() > 1 && b[1] == 92 {
        seq!['\\'] + unescape_bytes(b.skip(2))
    } else if b[0] == 92 && b.len() > 3 && oct_ok(b[1], b[2], b[3]) {
        seq![(oct_val(b[1], b[2], b[3]) as u8) as char] + unescape_bytes(b.skip(4))
    } else {
        seq![b[0] as char] + unescape_bytes(b.skip(1))
    }
}

pub open spec fn unescape_spec(s: Seq<char>) -> Seq<char> {
    unescape_bytes(encode_utf8(s))
}

pub fn escape(value: &str) -> (r: String)
    ensures
        r@ == escape_spec(value@),
{
    let v = chars_of(value);
    let e = escape_chars(v.as_slice());
    string_from(e.as_slice())
}

pub fn escape_chars(v: &[char]) -> (out: Vec<char>)
    ensures
        out@ == escape_spec(v@),
{
    let mut out: Vec<char> = Vec::new();
    let mut i: usize = 0;
    while i < v.len()
        invariant
            i <= v@.len(),
            out@ == escape_spec(v@.subrange(0, i as int)),
        decreases v@.len() - i,
    {
        let c = v[i];
        let ghost before = out@;
        if c == ' ' {
            out.push('\\');
            out.push('0');
            out.push('4');
            out.push('0');
        } else if c == '\t' {
            out.push('\\');
            out.push('0');
            out.push('1');
            out.push('1');
        } else if c == '\n' {
            out.push('\\');
            out.push('0');
            out.push('1');
            out.push('2');
        } else if c == '\\' {
            out.push('\\');
            out.push('\\');
        } else {
            out.push(c);
        }
        assert(out@ =~= before + escape_char(c));
        let ghost p = v@.subrange(0, i + 1);
        assert(p.drop_last() =~= v@.subrange(0, i as int));
        i = i + 1;
    }
    assert(v@.subrange(0, v@.len() as int) =~= v@);
    out
}

pub fn unescape(value: &str) -> (r: String)
    ensures
        r@ == unescape_spec(value@),
{
    let bytes = value.as_bytes();
    let out = unescape_slice(bytes);
    string_from(out.as_slice())
}

fn is_oct_exec(b: u8) -> (r: bool)
    ensures
        r == is_oct(b),
{
    48 <= b && b <= 55
}

pub fn unescape_slice(bytes: &[u8]) -> (out: Vec<char>)
    ensures
        out@ == unescape_bytes(bytes@),
{
    let ghost b = bytes@;
    let n = bytes.len();
    let mut out: Vec<char> = Vec::new();
    let mut i: usize = 0;
    proof {
        assert(b.skip(0) =~= b);
    }
    while i < n
        invariant
            n == b.len(),
            b == bytes@,
            i <= n,
            unescape_bytes(b) == out@ + unescape_bytes(b.skip(i as int)),
        decreases n - i,
    {
        let ghost rest = b.skip(i as int);
        let ghost old_out = out@;
        assert(rest[0] == b[i as int]);
        if bytes[i] == 92 && i + 1 < n {
            assert(rest[1] == b[i + 1]);
            if bytes[i + 1] == 92 {
                out.push('\\');
                assert(rest.skip(2) =~= b.skip(i + 2));
                assert(unescape_bytes(rest) == seq!['\\'] + unescape_bytes(rest.skip(2)));
                assert(old_out + (seq!['\\'] + unescape_bytes(b.skip(i + 2))) =~= out@
                    + unescape_bytes(b.skip(i + 2)));
                i = i + 2;
                continue;
            }
            if n - i > 3 && is_oct_exec(bytes[i + 1]) && is_oct_exec(bytes[i + 2])
                && is_oct_exec(bytes[i + 3]) {
                let b1 = bytes[i + 1];
                let b2 = bytes[i + 2];
                let b3 = bytes[i + 3];
                let code: u32 = ((b1 - 48) as u32) * 64 + ((b2 - 48) as u32) * 8 + ((b3
                    - 48) as u32);
                if code <= 255 {
                    assert(rest[2] == b[i + 2]);
                    assert(rest[3] == b[i + 3]);
                    assert(code == oct_val(b1, b2, b3));
                    let cb: u8 = code as u8;
                    out.push(cb as char);
                    assert(rest.skip(4) =~= b.skip(i + 4));
                    assert(unescape_bytes(rest) == seq![cb as char] + unescape_bytes(
                        rest.skip(4),
                    ));
                    assert(old_out + (seq![cb as char] + unescape_bytes(b.skip(i + 4))) =~= out@
                        + unescape_bytes(b.skip(i + 4)));
                    i = i + 4;
                    continue;
                }
                assert(!oct_ok(rest[1], rest[2], rest[3]));
            } else {
                assert(i + 3 < n ==> rest[2] == b[i + 2] && rest[3] == b[i + 3]);
            }
        }
        let c = bytes[i];
        out.push(c as char);
        assert(rest.skip(1) =~= b.skip(i + 1));
        assert(unescape_bytes(rest) == seq![c as char] + unescape_bytes(rest.skip(1)));
        assert(old_out + (seq![c as char] + unescape_bytes(b.skip(i + 1))) =~= out@
            + unescape_bytes(b.skip(i + 1)));
        i = i + 1;
    }
    assert(b.skip(n as int) =~= Seq::<u8>::empty());
    out
}


// ---------------------------------------------------------------------------
// Splitting and parsing entries
// ---------------------------------------------------------------------------

/// How many characters an escape starting at `s[0] == '\\'` takes: the
/// backslash, the next character, and when that is a digit up to two more
/// digits.
pub open spec fn escape_len(s: Seq<char>) -> int {
    if s.len() <= 1 {
        1
    } else if is_digit(s[1]) {
        if s.len() > 2 && is_digit(s[2]) {
            if s.len() > 3 && is_digit(s[3]) {
                4
            } else {
                3
            }
        } else {
            2
        }
    } else {
        2
    }
}

/// Whitespace-separated fields, where an escape stays inside its field.
pub open spec fn split_go(fields: Seq<Seq<char>>, cur: Seq<char>, s: Seq<char>) -> Seq<Seq<char>>
    decreases s.len(),
{
    if s.len() == 0 {
        if cur.len() > 0 {
            fields.push(cur)
        } else {
            fields
        }
    } else if s[0] == '\\' {
        let k = escape_len(s);
        split_go(fields, cur + s.subrange(0, k), s.skip(k))
    } else if is_ws(s[0]) {
        split_go(
            if cur.len() > 0 {
                fields.push(cur)
            } else {
                fields
            },
            Seq::<char>::empty(),
            s.skip(1),
        )
    } else {
        split_go(fields, cur.push(s[0]), s.skip(1))
    }
}

pub open spec fn split_fields_spec(s: Seq<char>) -> Seq<Seq<char>> {
    split_go(Seq::empty(), Seq::empty(), s)
}

pub open spec fn zero() -> Seq<char> {
    seq!['0']
}

/// What `parse_entry` reads from one line: `None` for blank lines, comments
/// and lines with fewer than four fields.
pub open spec fn parse_entry_spec(line: Seq<char>) -> Option<FieldsV> {
    let t = trim(line);
    if t.len() == 0 || t[0] == '#' {
        None
    } else {
        let p = split_fields_spec(t);
        if p.len() < 4 {
            None
        } else {
            Some(
                FieldsV {
                    source: unescape_spec(p[0]),
                    target: unescape_spec(p[1]),
                    fstype: p[2],
                    options: unescape_spec(p[3]),
                    dump: if p.len() > 4 {
                        p[4]
                    } else {
                        zero()
                    },
                    pass: if p.len() > 5 {
                        p[5]
                    } else {
                        zero()
                    },
                },
            )
        }
    }
}

fn is_digit_exec(c: char) -> (r: bool)
    ensures
        r == is_digit(c),
{
    '0' <= c && c <= '9'
}

pub fn split_fields(s: &[char]) -> (r: Vec<Vec<char>>)
    ensures
        views(r@) == split_fields_spec(s@),
{
    let ghost full = s@;
    let n = s.len();
    let mut fields: Vec<Vec<char>> = Vec::new();
    let mut cur: Vec<char> = Vec::new();
    let mut i: usize = 0;
    proof {
        assert(full.skip(0) =~= full);
        assert(views(fields@) =~= Seq::<Seq<char>>::empty());
    }
    while i < n
        invariant
            n == full.len(),
            full == s@,
            i <= n,
            split_go(views(fields@), cur@, full.skip(i as int)) == split_fields_spec(full),
        decreases n - i,
    {
        let ghost rest = full.skip(i as int);
        assert(rest[0] == full[i as int]);
        let c = s[i];
        if c == '\\' {
            let mut k: usize = 1;
            if n - i > 1 {
                assert(rest[1] == full[i + 1]);
                if is_digit_exec(s[i + 1]) {
                    k = 2;
                    if n - i > 2 && is_digit_exec(s[i + 2]) {
                        assert(rest[2] == full[i + 2]);
                        k = 3;
                        if n - i > 3 && is_digit_exec(s[i + 3]) {
                            assert(rest[3] == full[i + 3]);
                            k = 4;
                        } else {
                            assert(n - i > 3 ==> rest[3] == full[i + 3]);
                        }
                    } else {
                        assert(n - i > 2 ==> rest[2] == full[i + 2]);
                    }
                } else {
                    k = 2;
                }
            }
            assert(k == escape_len(rest));
            let ghost old_cur = cur@;
            let mut j: usize = 0;
            while j < k
                invariant
                    n == full.len(),
                    full == s@,
                    i + k <= n,
                    j <= k,
                    cur@ == old_cur + full.subrange(i as int, i + j),
                decreases k - j,
            {
                cur.push(s[i + j]);
                j = j + 1;
                assert(cur@ =~= old_cur + full.subrange(i as int, i + j));
            }
            assert(rest.subrange(0, k as int) =~= full.subrange(i as int, i + k));
            assert(rest.skip(k as int) =~= full.skip(i + k));
            i = i + k;
        } else if char_is_ws(c) {
            let ghost vf = views(fields@);
            let ghost cv = cur@;
            if cur.len() > 0 {
                fields.push(cur);
                cur = Vec::new();
                assert(views(fields@) =~= vf.push(cv));
            } else {
                assert(cur@ =~= Seq::<char>::empty());
            }
            assert(rest.skip(1) =~= full.skip(i + 1));
            i = i + 1;
        } else {
            cur.push(c);
            assert(rest.skip(1) =~= full.skip(i + 1));
            i = i + 1;
        }
    }
    assert(full.skip(n as int) =~= Seq::<char>::empty());
    if cur.len() > 0 {
        let ghost vf = views(fields@);
        let ghost cv = cur@;
        fields.push(cur);
        assert(views(fields@) =~= vf.push(cv));
    }
    fields
}


pub open spec fn opt_fields_view(o: Option<Fields>) -> Option<FieldsV> {
    match o {
        Some(f) => Some(f@),
        None => None,
    }
}

fn unescape_vec(v: &Vec<char>) -> (r: String)
    ensures
        r@ == unescape_spec(v@),
{
    let st = string_from(v.as_slice());
    unescape(st.as_str())
}

fn zero_string() -> (r: String)
    ensures
        r@ == zero(),
{
    let mut z: Vec<char> = Vec::new();
    z.push('0');
    string_from(z.as_slice())
}

/// Read one fstab line.
pub fn parse_entry(line: &str) -> (r: Option<Fields>)
    ensures
        opt_fields_view(r) == parse_entry_spec(line@),
{
    let v = chars_of(line);
    parse_entry_chars(v.as_slice())
}

pub fn parse_entry_chars(line: &[char]) -> (r: Option<Fields>)
    ensures
        opt_fields_view(r) == parse_entry_spec(line@),
{
    let t = trimmed(line);
    if t.len() == 0 || t[0] == '#' {
        return None;
    }
    let p = split_fields(t.as_slice());
    if p.len() < 4 {
        return None;
    }
    assert(views(p@)[0] == p@[0]@ && views(p@)[1] == p@[1]@ && views(p@)[2] == p@[2]@
        && views(p@)[3] == p@[3]@);
    let dump = if p.len() > 4 {
        assert(views(p@)[4] == p@[4]@);
        string_from(p[4].as_slice())
    } else {
        zero_string()
    };
    let pass = if p.len() > 5 {
        assert(views(p@)[5] == p@[5]@);
        string_from(p[5].as_slice())
    } else {
        zero_string()
    };
    Some(
        Fields {
            source: unescape_vec(&p[0]),
            target: unescape_vec(&p[1]),
            fstype: string_from(p[2].as_slice()),
            options: unescape_vec(&p[3]),
            dump,
            pass,
        },
    )
}

// ---------------------------------------------------------------------------
// Network entries
// ---------------------------------------------------------------------------

pub open spec fn network_type(k: Seq<char>) -> bool {
    ||| k == "cifs"@
    ||| k == "smb"@
    ||| k == "nfs"@
    ||| k == "nfs4"@
    ||| k == "fuse.sshfs"@
    ||| k == "sshfs"@
    ||| k == "davfs"@
    ||| k == "fuse.rclone"@
}

/// The key of a `key=value` mount option.
pub open spec fn opt_key(o: Seq<char>) -> Seq<char> {
    trim(before(o, '='))
}

pub open spec fn network_key(k: Seq<char>) -> bool {
    k == "_netdev"@ || k == "x-systemd.automount"@
}

/// A network filesystem type, or an option that marks the entry as needing
/// the network.
pub open spec fn is_network_spec(f: FieldsV) -> bool {
    ||| network_type(lower_seq(f.fstype))
    ||| exists|i: int|
        0 <= i < split_on(f.options, ',').len() && network_key(
            opt_key(#[trigger] split_on(f.options, ',')[i]),
        )
}

fn network_type_exec(k: &[char]) -> (r: bool)
    ensures
        r == network_type(k@),
{
    eq_str(k, "cifs") || eq_str(k, "smb") || eq_str(k, "nfs") || eq_str(k, "nfs4") || eq_str(
        k,
        "fuse.sshfs",
    ) || eq_str(k, "sshfs") || eq_str(k, "davfs") || eq_str(k, "fuse.rclone")
}

pub fn is_network(fields: &Fields) -> (r: bool)
    ensures
        r == is_network_spec(fields@),
{
    let t = chars_of(fields.fstype.as_str());
    let kind = lower_chars(t.as_slice());
    if network_type_exec(kind.as_slice()) {
        return true;
    }
    let o = chars_of(fields.options.as_str());
    let pieces = split_chars(o.as_slice(), ',');
    let ghost ps = split_on(fields.options@, ',');
    let mut i: usize = 0;
    while i < pieces.len()
        invariant
            views(pieces@) == ps,
            ps == split_on(fields@.options, ','),
            i <= pieces@.len(),
            forall|k: int| 0 <= k < i ==> !network_key(opt_key(#[trigger] ps[k])),
        decreases pieces@.len() - i,
    {
        assert(ps[i as int] == pieces@[i as int]@);
        let b = before_chars(pieces[i].as_slice(), '=');
        let key = trimmed(b.as_slice());
        if eq_str(key.as_slice(), "_netdev") || eq_str(key.as_slice(), "x-systemd.automount") {
            return true;
        }
        i = i + 1;
    }
    false
}

// ---------------------------------------------------------------------------
// Lines
// ---------------------------------------------------------------------------

/// `text` cut at newlines, without the piece after a final newline.
pub open spec fn lines_spec(text: Seq<char>) -> Seq<Seq<char>> {
    if text.len() == 0 {
        Seq::empty()
    } else if text.last() == '\n' {
        split_on(text.drop_last(), '\n')
    } else {
        split_on(text, '\n')
    }
}

pub fn lines_of(text: &[char]) -> (r: Vec<Vec<char>>)
    ensures
        views(r@) == lines_spec(text@),
{
    if text.len() == 0 {
        let r: Vec<Vec<char>> = Vec::new();
        assert(views(r@) =~= Seq::<Seq<char>>::empty());
        return r;
    }
    let n = text.len();
    if text[n - 1] == '\n' {
        let t = slice_of(text, 0, n - 1);
        assert(t@ =~= text@.drop_last());
        split_chars(t.as_slice(), '\n')
    } else {
        split_chars(text, '\n')
    }
}

/// `# disktui:`
pub open spec fn tag() -> Seq<char> {
    seq!['#', ' ', 'd', 'i', 's', 'k', 't', 'u', 'i', ':']
}

/// `# disktui: <id>`, the comment above a managed entry.
pub open spec fn marker(id: Seq<char>) -> Seq<char> {
    tag().push(' ') + id
}

fn tag_chars() -> (v: Vec<char>)
    ensures
        v@ == tag(),
{
    let mut v: Vec<char> = Vec::new();
    v.push('#');
    v.push(' ');
    v.push('d');
    v.push('i');
    v.push('s');
    v.push('k');
    v.push('t');
    v.push('u');
    v.push('i');
    v.push(':');
    assert(v@ =~= tag());
    v
}

fn marker_chars(id: &[char]) -> (v: Vec<char>)
    ensures
        v@ == marker(id@),
{
    let mut v = tag_chars();
    v.push(' ');
    push_all(&mut v, id);
    v
}

/// The id named by a `# disktui: <id>` comment right above line `index`.
pub open spec fn previous_id_spec(lines: Seq<Seq<char>>, index: int) -> Option<Seq<char>> {
    if index <= 0 {
        None
    } else {
        let prev = trim(lines[index - 1]);
        if starts_with(prev, tag()) {
            let id = trim(prev.skip(tag().len() as int));
            if id.len() > 0 {
                Some(id)
            } else {
                None
            }
        } else {
            None
        }
    }
}

fn previous_id(lines: &Vec<Vec<char>>, index: usize) -> (r: Option<Vec<char>>)
    requires
        index < lines@.len(),
    ensures
        match r {
            Some(v) => previous_id_spec(views(lines@), index as int) == Some(v@),
            None => previous_id_spec(views(lines@), index as int) is None,
        },
{
    if index == 0 {
        return None;
    }
    assert(views(lines@)[index - 1] == lines@[index - 1]@);
    let prev = trimmed(lines[index - 1].as_slice());
    let t = tag_chars();
    if !starts_with_chars(prev.as_slice(), t.as_slice()) {
        return None;
    }
    let rest = slice_of(prev.as_slice(), t.len(), prev.len());
    assert(rest@ =~= prev@.skip(tag().len() as int));
    let id = trimmed(rest.as_slice());
    if id.len() > 0 {
        Some(id)
    } else {
        None
    }
}

// ---------------------------------------------------------------------------
// Share ids
// ---------------------------------------------------------------------------

pub open spec fn slug_step(out: Seq<char>, c: char) -> Seq<char> {
    if is_alnum(c) {
        out.push(lower(c))
    } else if out.len() > 0 && out.last() != '-' {
        out.push('-')
    } else {
        out
    }
}

pub open spec fn slug_raw(s: Seq<char>) -> Seq<char>
    decreases s.len(),
{
    if s.len() == 0 {
        Seq::empty()
    } else {
        slug_step(slug_raw(s.drop_last()), s.last())
    }
}

pub open spec fn lstrip_dash(s: Seq<char>) -> Seq<char>
    decreases s.len(),
{
    if s.len() > 0 && s[0] == '-' {
        lstrip_dash(s.drop_first())
    } else {
        s
    }
}

pub open spec fn rstrip_dash(s: Seq<char>) -> Seq<char>
    decreases s.len(),
{
    if s.len() > 0 && s.last() == '-' {
        rstrip_dash(s.drop_last())
    } else {
        s
    }
}

pub open spec fn lower_alnum_or_dash(c: char) -> bool {
    ('a' <= c && c <= 'z') || ('0' <= c && c <= '9') || c == '-'
}

pub open spec fn share_word() -> Seq<char> {
    seq!['s', 'h', 'a', 'r', 'e']
}

/// Lower-case ASCII letters and digits, other runs folded into one `-`,
/// no dash at either end; `share` when nothing is left.
pub open spec fn slug_spec(s: Seq<char>) -> Seq<char> {
    let t = rstrip_dash(lstrip_dash(slug_raw(s)));
    if t.len() == 0 {
        share_word()
    } else {
        t
    }
}

fn is_alnum_exec(c: char) -> (r: bool)
    ensures
        r == is_alnum(c),
{
    ('0' <= c && c <= '9') || ('a' <= c && c <= 'z') || ('A' <= c && c <= 'Z')
}

proof fn lemma_lstrip_skip(s: Seq<char>, i: int)
    requires
        0 <= i <= s.len(),
        forall|k: int| 0 <= k < i ==> s[k] == '-',
    ensures
        lstrip_dash(s) == lstrip_dash(s.subrange(i, s.len() as int)),
    decreases i,
{
    if i > 0 {
        let t = s.drop_first();
        lemma_lstrip_skip(t, i - 1);
        assert(t.subrange(i - 1, t.len() as int) =~= s.subrange(i, s.len() as int));
    } else {
        assert(s.subrange(0, s.len() as int) =~= s);
    }
}

proof fn lemma_rstrip_take(s: Seq<char>, j: int)
    requires
        0 <= j <= s.len(),
        forall|k: int| j <= k < s.len() ==> s[k] == '-',
    ensures
        rstrip_dash(s) == rstrip_dash(s.subrange(0, j)),
    decreases s.len() - j,
{
    if j < s.len() {
        let t = s.drop_last();
        lemma_rstrip_take(t, j);
        assert(t.subrange(0, j) =~= s.subrange(0, j));
    } else {
        assert(s.subrange(0, j) =~= s);
    }
}

fn strip_dashes(s: &[char]) -> (v: Vec<char>)
    ensures
        v@ == rstrip_dash(lstrip_dash(s@)),
{
    let n = s.len();
    let mut a: usize = 0;
    while a < n && s[a] == '-'
        invariant
            a <= n == s@.len(),
            forall|k: int| 0 <= k < a ==> s@[k] == '-',
        decreases n - a,
    {
        a = a + 1;
    }
    proof {
        lemma_lstrip_skip(s@, a as int);
    }
    let ghost t = s@.subrange(a as int, n as int);
    assert(lstrip_dash(t) == t);
    let mut b: usize = n;
    while b > a && s[b - 1] == '-'
        invariant
            a <= b <= n == s@.len(),
            forall|k: int| b <= k < n ==> s@[k] == '-',
        decreases b,
    {
        b = b - 1;
    }
    proof {
        assert forall|k: int| (b - a) <= k < t.len() implies t[k] == '-' by {
            assert(t[k] == s@[a + k]);
        }
        lemma_rstrip_take(t, (b - a) as int);
        let u = t.subrange(0, (b - a) as int);
        assert(u =~= s@.subrange(a as int, b as int));
        if u.len() > 0 {
            assert(u.last() == s@[b - 1]);
        }
        assert(rstrip_dash(u) == u);
    }
    slice_of(s, a, b)
}

pub fn slug_chars(s: &[char]) -> (v: Vec<char>)
    ensures
        v@ == slug_spec(s@),
{
    let mut out: Vec<char> = Vec::new();
    let mut i: usize = 0;
    while i < s.len()
        invariant
            i <= s@.len(),
            out@ == slug_raw(s@.subrange(0, i as int)),
        decreases s@.len() - i,
    {
        let c = s[i];
        if is_alnum_exec(c) {
            out.push(char_lower(c));
        } else if out.len() > 0 && out[out.len() - 1] != '-' {
            out.push('-');
        }
        let ghost p = s@.subrange(0, i + 1);
        assert(p.drop_last() =~= s@.subrange(0, i as int));
        i = i + 1;
    }
    assert(s@.subrange(0, s@.len() as int) =~= s@);
    let t = strip_dashes(out.as_slice());
    if t.len() == 0 {
        let mut w: Vec<char> = Vec::new();
        w.push('s');
        w.push('h');
        w.push('a');
        w.push('r');
        w.push('e');
        assert(w@ =~= share_word());
        w
    } else {
        t
    }
}

/// An id made from a mount point or a typed name.
pub fn slug(target: &str) -> (r: String)
    ensures
        r@ == slug_spec(target@),
{
    let v = chars_of(target);
    let s = slug_chars(v.as_slice());
    string_from(s.as_slice())
}

// ---------------------------------------------------------------------------
// Listing the network shares
// ---------------------------------------------------------------------------

pub open spec fn share_at(lines: Seq<Seq<char>>, index: int, f: FieldsV) -> ShareV {
    ShareV {
        id: match previous_id_spec(lines, index) {
            Some(id) => id,
            None => slug_spec(f.target),
        },
        source: f.source,
        target: f.target,
        fstype: f.fstype,
        options: f.options,
    }
}

pub open spec fn shares_upto(lines: Seq<Seq<char>>, n: int) -> Seq<ShareV>
    decreases n,
{
    if n <= 0 {
        Seq::empty()
    } else {
        let prev = shares_upto(lines, n - 1);
        match parse_entry_spec(lines[n - 1]) {
            Some(f) => if is_network_spec(f) {
                prev.push(share_at(lines, n - 1, f))
            } else {
                prev
            },
            None => prev,
        }
    }
}

/// Every network entry of the file, in file order, with its id.
pub open spec fn network_shares_spec(text: Seq<char>) -> Seq<ShareV> {
    shares_upto(lines_spec(text), lines_spec(text).len() as int)
}

pub fn network_shares(text: &str) -> (r: Vec<Share>)
    ensures
        share_views(r@) == network_shares_spec(text@),
{
    let t = chars_of(text);
    let lines = lines_of(t.as_slice());
    let ghost ls = views(lines@);
    let mut shares: Vec<Share> = Vec::new();
    let mut index: usize = 0;
    while index < lines.len()
        invariant
            ls == views(lines@),
            ls == lines_spec(text@),
            index <= lines@.len(),
            share_views(shares@) == shares_upto(ls, index as int),
        decreases lines@.len() - index,
    {
        assert(ls[index as int] == lines@[index as int]@);
        let ghost before = share_views(shares@);
        let parsed = parse_entry_chars(lines[index].as_slice());
        match parsed {
            Some(fields) => {
                if is_network(&fields) {
                    let id = match previous_id(&lines, index) {
                        Some(v) => string_from(v.as_slice()),
                        None => {
                            let tg = chars_of(fields.target.as_str());
                            let sl = slug_chars(tg.as_slice());
                            string_from(sl.as_slice())
                        },
                    };
                    let share = Share {
                        id,
                        source: fields.source,
                        target: fields.target,
                        fstype: fields.fstype,
                        options: fields.options,
                    };
                    shares.push(share);
                    assert(share_views(shares@) =~= before.push(share@));
                }
            },
            None => {},
        }
        index = index + 1;
    }
    shares
}


// ---------------------------------------------------------------------------
// Editing the file
// ---------------------------------------------------------------------------

pub enum ChangeV {
    Upsert { id: Seq<char>, source: Seq<char>, target: Seq<char>, line: Seq<char> },
    Delete { id: Seq<char>, source: Seq<char>, target: Seq<char> },
}

impl View for Change {
    type V = ChangeV;

    open spec fn view(&self) -> ChangeV {
        match self {
            Change::Upsert { id, source, target, line } => ChangeV::Upsert {
                id: id@,
                source: source@,
                target: target@,
                line: line@,
            },
            Change::Delete { id, source, target } => ChangeV::Delete {
                id: id@,
                source: source@,
                target: target@,
            },
        }
    }
}

pub open spec fn is_disktui_comment(line: Seq<char>) -> bool {
    starts_with(trim(line), tag())
}

/// The first line of the edited entry: its `# disktui:` comment when one
/// stands right above it.
pub open spec fn comment_start_spec(lines: Seq<Seq<char>>, idx: int) -> int {
    if idx > 0 && is_disktui_comment(lines[idx - 1]) {
        idx - 1
    } else {
        idx
    }
}

pub open spec fn first_entry_from(lines: Seq<Seq<char>>, k: int) -> Option<int>
    decreases lines.len() - k,
{
    if k < 0 || k >= lines.len() {
        None
    } else if parse_entry_spec(lines[k]) is Some {
        Some(k)
    } else {
        first_entry_from(lines, k + 1)
    }
}

/// The entry below the first marker comment that has an entry below it.
pub open spec fn marker_scan(lines: Seq<Seq<char>>, m: Seq<char>, i: int) -> Option<int>
    decreases lines.len() - i,
{
    if i < 0 || i >= lines.len() {
        None
    } else if trim(lines[i]) == m && first_entry_from(lines, i + 1) is Some {
        first_entry_from(lines, i + 1)
    } else {
        marker_scan(lines, m, i + 1)
    }
}

pub open spec fn entry_matches(line: Seq<char>, source: Seq<char>, target: Seq<char>) -> bool {
    match parse_entry_spec(line) {
        Some(f) => f.source == source && f.target == target && is_network_spec(f),
        None => false,
    }
}

/// The first network entry with this source and target.
pub open spec fn match_scan(lines: Seq<Seq<char>>, source: Seq<char>, target: Seq<char>, i: int) -> Option<int>
    decreases lines.len() - i,
{
    if i < 0 || i >= lines.len() {
        None
    } else if entry_matches(lines[i], source, target) {
        Some(i)
    } else {
        match_scan(lines, source, target, i + 1)
    }
}

/// The line of the share: found through its marker comment first, then by
/// source and target.
pub open spec fn find_entry_spec(lines: Seq<Seq<char>>, id: Seq<char>, source: Seq<char>, target: Seq<char>) -> Option<int> {
    match marker_scan(lines, marker(id), 0) {
        Some(j) => Some(j),
        None => match_scan(lines, source, target, 0),
    }
}

pub open spec fn change_lines(lines: Seq<Seq<char>>, c: ChangeV) -> Seq<Seq<char>> {
    match c {
        ChangeV::Delete { id, source, target } => match find_entry_spec(lines, id, source, target) {
            Some(idx) => lines.subrange(0, comment_start_spec(lines, idx)) + lines.subrange(
                idx + 1,
                lines.len() as int,
            ),
            None => lines,
        },
        ChangeV::Upsert { id, source, target, line } => match find_entry_spec(
            lines,
            id,
            source,
            target,
        ) {
            Some(idx) => lines.subrange(0, comment_start_spec(lines, idx)) + seq![marker(id), line]
                + lines.subrange(idx + 1, lines.len() as int),
            None => lines.push(marker(id)).push(line),
        },
    }
}

/// A deletion that finds no entry for the share.
pub open spec fn deletes_nothing(original: Seq<char>, c: ChangeV) -> bool {
    match c {
        ChangeV::Delete { id, source, target } => find_entry_spec(
            lines_spec(original),
            id,
            source,
            target,
        ) is None,
        _ => false,
    }
}

/// Whether the new file ends in a newline: it does after any change that
/// leaves lines, except a deletion in a file without a final newline whose
/// last remaining line is not blank: that line stays without one, as it
/// stood in the old file.
pub open spec fn ends_with_newline(original: Seq<char>, c: ChangeV, changed: Seq<Seq<char>>) -> bool {
    changed.len() > 0 && (c is Upsert || original.last() == '\n' || changed.last().len() == 0)
}

/// The new file: the changed lines joined by newlines, with a final newline
/// as `ends_with_newline` says. A deletion that finds nothing gives the
/// file back as it was.
pub open spec fn transform_spec(original: Seq<char>, c: ChangeV) -> Seq<char> {
    if deletes_nothing(original, c) {
        original
    } else {
        let changed = change_lines(lines_spec(original), c);
        let out = join(changed, seq!['\n']);
        if ends_with_newline(original, c, changed) {
            out.push('\n')
        } else {
            out
        }
    }
}

fn is_disktui_comment_exec(line: &[char]) -> (r: bool)
    ensures
        r == is_disktui_comment(line@),
{
    let t = trimmed(line);
    let g = tag_chars();
    starts_with_chars(t.as_slice(), g.as_slice())
}

fn comment_start(lines: &Vec<Vec<char>>, idx: usize) -> (r: usize)
    requires
        idx < lines@.len(),
    ensures
        r == comment_start_spec(views(lines@), idx as int),
{
    if idx > 0 {
        assert(views(lines@)[idx - 1] == lines@[idx - 1]@);
        if is_disktui_comment_exec(lines[idx - 1].as_slice()) {
            return idx - 1;
        }
    }
    idx
}

fn first_entry(lines: &Vec<Vec<char>>, k: usize) -> (r: Option<usize>)
    ensures
        match r {
            Some(j) => first_entry_from(views(lines@), k as int) == Some(j as int),
            None => first_entry_from(views(lines@), k as int) is None,
        },
        r matches Some(j) ==> j < lines@.len(),
{
    let ghost ls = views(lines@);
    let mut j = k;
    while j < lines.len()
        invariant
            ls == views(lines@),
            k <= j,
            first_entry_from(ls, k as int) == first_entry_from(ls, j as int),
        decreases lines@.len() - j,
    {
        assert(ls[j as int] == lines@[j as int]@);
        if parse_entry_chars(lines[j].as_slice()).is_some() {
            return Some(j);
        }
        j = j + 1;
    }
    None
}

fn entry_matches_exec(line: &[char], source: &[char], target: &[char]) -> (r: bool)
    ensures
        r == entry_matches(line@, source@, target@),
{
    match parse_entry_chars(line) {
        Some(f) => {
            let fs = chars_of(f.source.as_str());
            let ft = chars_of(f.target.as_str());
            eq_chars(fs.as_slice(), source) && eq_chars(ft.as_slice(), target) && is_network(&f)
        },
        None => false,
    }
}

fn find_entry(lines: &Vec<Vec<char>>, id: &[char], source: &[char], target: &[char]) -> (r: Option<usize>)
    ensures
        match r {
            Some(j) => find_entry_spec(views(lines@), id@, source@, target@) == Some(j as int),
            None => find_entry_spec(views(lines@), id@, source@, target@) is None,
        },
        r matches Some(j) ==> j < lines@.len(),
{
    let ghost ls = views(lines@);
    let m = marker_chars(id);
    let mut i: usize = 0;
    while i < lines.len()
        invariant
            ls == views(lines@),
            m@ == marker(id@),
            marker_scan(ls, m@, 0) == marker_scan(ls, m@, i as int),
        decreases lines@.len() - i,
    {
        assert(ls[i as int] == lines@[i as int]@);
        let t = trimmed(lines[i].as_slice());
        if eq_chars(t.as_slice(), m.as_slice()) {
            match first_entry(lines, i + 1) {
                Some(j) => {
                    return Some(j);
                },
                None => {},
            }
        }
        i = i + 1;
    }
    let mut i: usize = 0;
    while i < lines.len()
        invariant
            ls == views(lines@),
            marker_scan(ls, marker(id@), 0) is None,
            match_scan(ls, source@, target@, 0) == match_scan(ls, source@, target@, i as int),
        decreases lines@.len() - i,
    {
        assert(ls[i as int] == lines@[i as int]@);
        if entry_matches_exec(lines[i].as_slice(), source, target) {
            return Some(i);
        }
        i = i + 1;
    }
    None
}

/// Copies of `lines[a..b]` pushed onto `out`.
fn push_lines(out: &mut Vec<Vec<char>>, lines: &Vec<Vec<char>>, a: usize, b: usize)
    requires
        a <= b <= lines@.len(),
    ensures
        views(final(out)@) == views(old(out)@) + views(lines@).subrange(a as int, b as int),
{
    let ghost start = views(out@);
    let mut i = a;
    while i < b
        invariant
            a <= i <= b <= lines@.len(),
            views(out@) == start + views(lines@).subrange(a as int, i as int),
        decreases b - i,
    {
        let copy = slice_of(lines[i].as_slice(), 0, lines[i].len());
        assert(copy@ =~= lines@[i as int]@);
        let ghost pre = views(out@);
        out.push(copy);
        assert(views(out@) =~= pre.push(copy@));
        assert(views(lines@).subrange(a as int, i + 1) =~= views(lines@).subrange(
            a as int,
            i as int,
        ).push(lines@[i as int]@));
        i = i + 1;
    }
}

/// Apply one insert, replace, or delete. Every line that is not the edited
/// entry is copied through unchanged.
pub fn transform(original: &str, change: &Change) -> (r: String)
    ensures
        r@ == transform_spec(original@, change@),
{
    let text = chars_of(original);
    let n = text.len();
    let newline_at_eof = n == 0 || text[n - 1] == '\n';
    let lines = lines_of(text.as_slice());
    let total = lines.len();
    let ghost ls = views(lines@);
    let mut out_lines: Vec<Vec<char>> = Vec::new();
    let upsert: bool;
    match change {
        Change::Delete { id, source, target } => {
            upsert = false;
            let idv = chars_of(id.as_str());
            let sv = chars_of(source.as_str());
            let tv = chars_of(target.as_str());
            match find_entry(&lines, idv.as_slice(), sv.as_slice(), tv.as_slice()) {
                Some(idx) => {
                    assert(n > 0) by {
                        if n == 0 {
                            assert(ls.len() == 0);
                        }
                    }
                    let start = comment_start(&lines, idx);
                    push_lines(&mut out_lines, &lines, 0, start);
                    push_lines(&mut out_lines, &lines, idx + 1, total);
                    assert(views(out_lines@) =~= change_lines(ls, change@));
                },
                None => {
                    return String::from_str(original);
                },
            }
        },
        Change::Upsert { id, source, target, line } => {
            upsert = true;
            let idv = chars_of(id.as_str());
            let sv = chars_of(source.as_str());
            let tv = chars_of(target.as_str());
            let comment = marker_chars(idv.as_slice());
            let lv = chars_of(line.as_str());
            match find_entry(&lines, idv.as_slice(), sv.as_slice(), tv.as_slice()) {
                Some(idx) => {
                    let start = comment_start(&lines, idx);
                    push_lines(&mut out_lines, &lines, 0, start);
                    let ghost pre = views(out_lines@);
                    out_lines.push(comment);
                    out_lines.push(lv);
                    assert(views(out_lines@) =~= pre + seq![marker(id@), line@]);
                    push_lines(&mut out_lines, &lines, idx + 1, total);
                    assert(views(out_lines@) =~= change_lines(ls, change@));
                },
                None => {
                    push_lines(&mut out_lines, &lines, 0, total);
                    let ghost pre = views(out_lines@);
                    out_lines.push(comment);
                    out_lines.push(lv);
                    assert(views(out_lines@) =~= pre.push(marker(id@)).push(line@));
                    assert(ls.subrange(0, total as int) =~= ls);
                    assert(views(out_lines@) =~= change_lines(ls, change@));
                },
            }
        },
    }
    let mut nl: Vec<char> = Vec::new();
    nl.push('\n');
    let count = out_lines.len();
    let mut out = join_chars(&out_lines, nl.as_slice());
    proof {
        if count > 0 {
            assert(views(out_lines@).last() == out_lines@[count - 1]@);
        }
    }
    if count > 0 && (upsert || newline_at_eof || out_lines[count - 1].len() == 0) {
        out.push('\n');
    }
    string_from(out.as_slice())
}


// ---------------------------------------------------------------------------
// Planning a share entry
// ---------------------------------------------------------------------------

pub struct DraftV {
    pub id: Seq<char>,
    pub protocol: Seq<char>,
    pub source: Seq<char>,
    pub mount_point: Seq<char>,
    pub guest: bool,
    pub username: Seq<char>,
    pub password: Seq<char>,
    pub credentials_file: Seq<char>,
    pub identity_file: Seq<char>,
    pub extra: Seq<char>,
    pub netdev: bool,
    pub nofail: bool,
    pub automount: bool,
    pub idle_timeout: Seq<char>,
    pub vers: Seq<char>,
    pub uid: u32,
    pub gid: u32,
}

impl View for ShareDraft {
    type V = DraftV;

    open spec fn view(&self) -> DraftV {
        DraftV {
            id: self.id@,
            protocol: self.protocol@,
            source: self.source@,
            mount_point: self.mount_point@,
            guest: self.guest,
            username: self.username@,
            password: self.password@,
            credentials_file: self.credentials_file@,
            identity_file: self.identity_file@,
            extra: self.extra@,
            netdev: self.netdev,
            nofail: self.nofail,
            automount: self.automount,
            idle_timeout: self.idle_timeout@,
            vers: self.vers@,
            uid: self.uid,
            gid: self.gid,
        }
    }
}

pub struct CredV {
    pub path: Seq<char>,
    pub contents: Seq<char>,
}

impl View for CredWrite {
    type V = CredV;

    open spec fn view(&self) -> CredV {
        CredV { path: self.path@, contents: self.contents@ }
    }
}

pub struct PlanV {
    pub id: Seq<char>,
    pub source: Seq<char>,
    pub target: Seq<char>,
    pub entry_line: Seq<char>,
    pub credentials: Option<CredV>,
}

pub open spec fn opt_cred_view(c: Option<CredWrite>) -> Option<CredV> {
    match c {
        Some(w) => Some(w@),
        None => None,
    }
}

impl View for SharePlan {
    type V = PlanV;

    open spec fn view(&self) -> PlanV {
        PlanV {
            id: self.id@,
            source: self.source@,
            target: self.target@,
            entry_line: self.entry_line@,
            credentials: opt_cred_view(self.credentials),
        }
    }
}

pub open spec fn plan_result_view(r: Result<SharePlan, String>) -> Result<PlanV, Seq<char>> {
    match r {
        Ok(p) => Ok(p@),
        Err(e) => Err(e@),
    }
}

/// Options that the share form writes itself; copies of them in the extra
/// options are dropped.
pub open spec fn managed_key(k: Seq<char>) -> bool {
    ||| k == "_netdev"@
    ||| k == "nofail"@
    ||| k == "x-systemd.automount"@
    ||| k == "x-systemd.idle-timeout"@
    ||| k == "guest"@
    ||| k == "credentials"@
    ||| k == "username"@
    ||| k == "password"@
    ||| k == "uid"@
    ||| k == "gid"@
    ||| k == "file_mode"@
    ||| k == "dir_mode"@
    ||| k == "iocharset"@
    ||| k == "vers"@
    ||| k == "IdentityFile"@
    ||| k == "identityfile"@
    ||| k == "reconnect"@
    ||| k == "ServerAliveInterval"@
}

/// The extra options that are kept: trimmed, non-empty, not managed.
pub open spec fn kept_opts(ps: Seq<Seq<char>>) -> Seq<Seq<char>>
    decreases ps.len(),
{
    if ps.len() == 0 {
        Seq::empty()
    } else {
        let prev = kept_opts(ps.drop_last());
        let o = trim(ps.last());
        if o.len() == 0 || managed_key(opt_key(o)) {
            prev
        } else {
            prev.push(o)
        }
    }
}

/// The cifs options; the protocol is read trimmed, as the entry line
/// writes it.
pub open spec fn cifs_opts(d: DraftV, cred_path: Seq<char>) -> Seq<Seq<char>> {
    if trim(d.protocol) == "cifs"@ {
        (if d.guest {
            seq!["guest"@]
        } else if cred_path.len() > 0 {
            seq!["credentials="@ + cred_path]
        } else {
            Seq::empty()
        }) + seq![
            "uid="@ + dec(d.uid as nat),
            "gid="@ + dec(d.gid as nat),
            "file_mode=0644"@,
            "dir_mode=0755"@,
            "iocharset=utf8"@,
        ] + (if trim(d.vers).len() > 0 && d.vers != "default"@ {
            seq!["vers="@ + trim(d.vers)]
        } else {
            Seq::empty()
        })
    } else {
        Seq::empty()
    }
}

/// The sshfs options; the protocol is compared as typed.
pub open spec fn ssh_opts(d: DraftV) -> Seq<Seq<char>> {
    if d.protocol == "fuse.sshfs"@ || d.protocol == "sshfs"@ {
        (if trim(d.identity_file).len() > 0 {
            seq!["IdentityFile="@ + trim(d.identity_file)]
        } else {
            Seq::empty()
        }) + seq!["reconnect"@, "ServerAliveInterval=15"@]
    } else {
        Seq::empty()
    }
}

pub open spec fn flag_opts(d: DraftV) -> Seq<Seq<char>> {
    (if d.netdev {
        seq!["_netdev"@]
    } else {
        Seq::empty()
    }) + (if d.nofail {
        seq!["nofail"@]
    } else {
        Seq::empty()
    }) + (if d.automount {
        seq!["x-systemd.automount"@] + match parse_u64(trim(d.idle_timeout)) {
            Some(secs) => if secs > 0 {
                seq!["x-systemd.idle-timeout="@ + dec(secs as nat)]
            } else {
                Seq::empty()
            },
            None => Seq::empty(),
        }
    } else {
        Seq::empty()
    })
}

pub open spec fn all_opts(d: DraftV, cred_path: Seq<char>) -> Seq<Seq<char>> {
    kept_opts(split_on(d.extra, ',')) + cifs_opts(d, cred_path) + ssh_opts(d) + flag_opts(d)
}

/// The options column of a share entry.
pub open spec fn build_options_spec(d: DraftV, cred_path: Seq<char>) -> Seq<char> {
    let parts = all_opts(d, cred_path);
    if parts.len() == 0 {
        "defaults"@
    } else {
        join(parts, seq![','])
    }
}

fn managed_key_exec(k: &[char]) -> (r: bool)
    ensures
        r == managed_key(k@),
{
    eq_str(k, "_netdev") || eq_str(k, "nofail") || eq_str(k, "x-systemd.automount") || eq_str(
        k,
        "x-systemd.idle-timeout",
    ) || eq_str(k, "guest") || eq_str(k, "credentials") || eq_str(k, "username") || eq_str(
        k,
        "password",
    ) || eq_str(k, "uid") || eq_str(k, "gid") || eq_str(k, "file_mode") || eq_str(k, "dir_mode")
        || eq_str(k, "iocharset") || eq_str(k, "vers") || eq_str(k, "IdentityFile") || eq_str(
        k,
        "identityfile",
    ) || eq_str(k, "reconnect") || eq_str(k, "ServerAliveInterval")
}

fn lit(s: &str) -> (v: Vec<char>)
    ensures
        v@ == s@,
{
    chars_of(s)
}

fn lit_plus(s: &str, rest: &[char]) -> (v: Vec<char>)
    ensures
        v@ == s@ + rest@,
{
    let mut v = chars_of(s);
    push_all(&mut v, rest);
    v
}

fn push_part(parts: &mut Vec<Vec<char>>, p: Vec<char>)
    ensures
        views(final(parts)@) == views(old(parts)@).push(p@),
{
    let ghost pre = views(parts@);
    parts.push(p);
    assert(views(parts@) =~= pre.push(p@));
}

fn kept_parts(extra_text: &String) -> (parts: Vec<Vec<char>>)
    ensures
        views(parts@) == kept_opts(split_on(extra_text@, ',')),
{
    let extra = chars_of(extra_text.as_str());
    let pieces = split_chars(extra.as_slice(), ',');
    let ghost ps = views(pieces@);
    let mut parts: Vec<Vec<char>> = Vec::new();
    let mut i: usize = 0;
    while i < pieces.len()
        invariant
            ps == views(pieces@),
            ps == split_on(extra_text@, ','),
            i <= pieces@.len(),
            views(parts@) == kept_opts(ps.subrange(0, i as int)),
        decreases pieces@.len() - i,
    {
        assert(ps[i as int] == pieces@[i as int]@);
        let ghost sub = ps.subrange(0, i + 1);
        assert(sub.drop_last() =~= ps.subrange(0, i as int));
        assert(sub.last() == pieces@[i as int]@);
        let opt = trimmed(pieces[i].as_slice());
        if opt.len() > 0 {
            let b = before_chars(opt.as_slice(), '=');
            let key = trimmed(b.as_slice());
            if !managed_key_exec(key.as_slice()) {
                push_part(&mut parts, opt);
            }
        }
        i = i + 1;
    }
    assert(ps.subrange(0, ps.len() as int) =~= ps);
    parts
}

fn push_cifs(parts: &mut Vec<Vec<char>>, d: &ShareDraft, cred_path: &[char])
    ensures
        views(final(parts)@) == views(old(parts)@) + cifs_opts(d@, cred_path@),
{
    let ghost pre = views(parts@);
    let raw = chars_of(d.protocol.as_str());
    let protocol = trimmed(raw.as_slice());
    if eq_str(protocol.as_slice(), "cifs") {
        if d.guest {
            push_part(parts, lit("guest"));
        } else if cred_path.len() > 0 {
            push_part(parts, lit_plus("credentials=", cred_path));
        }
        let ghost mid = views(parts@);
        let u = dec_chars(d.uid as u64);
        push_part(parts, lit_plus("uid=", u.as_slice()));
        let g = dec_chars(d.gid as u64);
        push_part(parts, lit_plus("gid=", g.as_slice()));
        push_part(parts, lit("file_mode=0644"));
        push_part(parts, lit("dir_mode=0755"));
        push_part(parts, lit("iocharset=utf8"));
        let ghost mid2 = views(parts@);
        let vers = chars_of(d.vers.as_str());
        let tv = trimmed(vers.as_slice());
        if tv.len() > 0 && !eq_str(vers.as_slice(), "default") {
            push_part(parts, lit_plus("vers=", tv.as_slice()));
        }
        assert(mid2 =~= mid + seq![
            "uid="@ + dec(d.uid as nat),
            "gid="@ + dec(d.gid as nat),
            "file_mode=0644"@,
            "dir_mode=0755"@,
            "iocharset=utf8"@,
        ]);
    }
    assert(views(parts@) =~= pre + cifs_opts(d@, cred_path@));
}

fn push_ssh(parts: &mut Vec<Vec<char>>, d: &ShareDraft)
    ensures
        views(final(parts)@) == views(old(parts)@) + ssh_opts(d@),
{
    let ghost pre = views(parts@);
    let protocol = chars_of(d.protocol.as_str());
    if eq_str(protocol.as_slice(), "fuse.sshfs") || eq_str(protocol.as_slice(), "sshfs") {
        let idf = chars_of(d.identity_file.as_str());
        let ti = trimmed(idf.as_slice());
        if ti.len() > 0 {
            push_part(parts, lit_plus("IdentityFile=", ti.as_slice()));
        }
        push_part(parts, lit("reconnect"));
        push_part(parts, lit("ServerAliveInterval=15"));
    }
    assert(views(parts@) =~= pre + ssh_opts(d@));
}

fn push_flags(parts: &mut Vec<Vec<char>>, d: &ShareDraft)
    ensures
        views(final(parts)@) == views(old(parts)@) + flag_opts(d@),
{
    let ghost pre = views(parts@);
    if d.netdev {
        push_part(parts, lit("_netdev"));
    }
    if d.nofail {
        push_part(parts, lit("nofail"));
    }
    let ghost mid = views(parts@);
    if d.automount {
        push_part(parts, lit("x-systemd.automount"));
        let it = chars_of(d.idle_timeout.as_str());
        let tt = trimmed(it.as_slice());
        match parse_u64_chars(tt.as_slice()) {
            Some(seconds) => {
                if seconds > 0 {
                    let sd = dec_chars(seconds);
                    push_part(parts, lit_plus("x-systemd.idle-timeout=", sd.as_slice()));
                }
            },
            None => {},
        }
    }
    assert(views(parts@) =~= pre + flag_opts(d@));
}

fn build_options(draft: &ShareDraft, cred_path: &[char]) -> (r: Vec<char>)
    ensures
        r@ == build_options_spec(draft@, cred_path@),
{
    let mut parts = kept_parts(&draft.extra);
    push_cifs(&mut parts, draft, cred_path);
    push_ssh(&mut parts, draft);
    push_flags(&mut parts, draft);
    assert(views(parts@) =~= all_opts(draft@, cred_path@));
    if parts.len() == 0 {
        lit("defaults")
    } else {
        let mut comma: Vec<char> = Vec::new();
        comma.push(',');
        join_chars(&parts, comma.as_slice())
    }
}

pub open spec fn cred_prefix() -> Seq<char> {
    "/etc/samba/credentials-"@
}

pub open spec fn has(s: Seq<char>, c: char) -> bool {
    exists|i: int| 0 <= i < s.len() && s[i] == c
}

/// `cifs` with a login, as opposed to a guest mount.
pub open spec fn cifs_login(d: DraftV) -> bool {
    trim(d.protocol) == "cifs"@ && !d.guest
}

/// A credentials file is written when a cifs login names a user but no file.
pub open spec fn writes_creds(d: DraftV) -> bool {
    cifs_login(d) && trim(d.credentials_file).len() == 0 && trim(d.username).len() > 0
}

pub open spec fn share_id_spec(d: DraftV) -> Seq<char> {
    if trim(d.id).len() == 0 {
        slug_spec(trim(d.mount_point))
    } else {
        slug_spec(trim(d.id))
    }
}

pub open spec fn cred_path_spec(d: DraftV) -> Seq<char> {
    if cifs_login(d) {
        if trim(d.credentials_file).len() > 0 {
            trim(d.credentials_file)
        } else if trim(d.username).len() > 0 {
            cred_prefix() + share_id_spec(d)
        } else {
            Seq::empty()
        }
    } else {
        Seq::empty()
    }
}

pub open spec fn cred_contents(d: DraftV) -> Seq<char> {
    "username="@ + trim(d.username) + "\npassword="@ + d.password + "\n"@
}

pub open spec fn entry_line_spec(d: DraftV) -> Seq<char> {
    escape_spec(trim(d.source)) + seq![' '] + escape_spec(trim(d.mount_point)) + seq![' ']
        + trim(d.protocol) + seq![' '] + escape_spec(build_options_spec(d, cred_path_spec(d)))
        + seq![' ', '0', ' ', '0']
}

/// Checks the draft and renders its fstab line and credentials file.
pub open spec fn plan_spec(d: DraftV) -> Result<PlanV, Seq<char>> {
    let target = trim(d.mount_point);
    let source = trim(d.source);
    let protocol = trim(d.protocol);
    if !starts_with(target, seq!['/']) {
        Err("Mount point must be an absolute path."@)
    } else if has(target, '\n') || has(d.source, '\n') || has(d.extra, '\n') {
        Err("Fields cannot contain a newline."@)
    } else if source.len() == 0 {
        Err("Source is empty."@)
    } else if protocol.len() == 0 {
        Err("Filesystem type is empty."@)
    } else if share_id_spec(d).len() == 0 {
        Err("Share id is empty."@)
    } else if writes_creds(d) && (has(d.password, '\n') || has(d.username, '\n')) {
        Err("Username and password cannot contain a newline."@)
    } else if contains(entry_line_spec(d), d.password) && d.password.len() > 0 && protocol
        == "cifs"@ {
        Err("Refusing to write the password into fstab. Use a credentials file."@)
    } else {
        Ok(
            PlanV {
                id: share_id_spec(d),
                source,
                target,
                entry_line: entry_line_spec(d),
                credentials: if writes_creds(d) {
                    Some(
                        CredV {
                            path: cred_prefix() + share_id_spec(d),
                            contents: cred_contents(d),
                        },
                    )
                } else {
                    None
                },
            },
        )
    }
}

fn err(msg: &str) -> (r: Result<SharePlan, String>)
    ensures
        plan_result_view(r) == Err::<PlanV, Seq<char>>(msg@),
{
    Err(String::from_str(msg))
}

pub fn plan_share(draft: &ShareDraft) -> (r: Result<SharePlan, String>)
    ensures
        plan_result_view(r) == plan_spec(draft@),
{
    let d = draft;
    let mp = chars_of(d.mount_point.as_str());
    let target = trimmed(mp.as_slice());
    let mut slash: Vec<char> = Vec::new();
    slash.push('/');
    if !starts_with_chars(target.as_slice(), slash.as_slice()) {
        return err("Mount point must be an absolute path.");
    }
    let src_raw = chars_of(d.source.as_str());
    let extra = chars_of(d.extra.as_str());
    if has_char(target.as_slice(), '\n') || has_char(src_raw.as_slice(), '\n') || has_char(
        extra.as_slice(),
        '\n',
    ) {
        return err("Fields cannot contain a newline.");
    }
    let source = trimmed(src_raw.as_slice());
    if source.len() == 0 {
        return err("Source is empty.");
    }
    let proto_raw = chars_of(d.protocol.as_str());
    let protocol = trimmed(proto_raw.as_slice());
    if protocol.len() == 0 {
        return err("Filesystem type is empty.");
    }
    let idr = chars_of(d.id.as_str());
    let raw = trimmed(idr.as_slice());
    let id = if raw.len() == 0 {
        slug_chars(target.as_slice())
    } else {
        slug_chars(raw.as_slice())
    };
    if id.len() == 0 {
        return err("Share id is empty.");
    }
    let is_cifs = eq_str(protocol.as_slice(), "cifs");
    let mut credentials: Option<CredWrite> = None;
    let cf = chars_of(d.credentials_file.as_str());
    let cft = trimmed(cf.as_slice());
    let un = chars_of(d.username.as_str());
    let unt = trimmed(un.as_slice());
    let pw = chars_of(d.password.as_str());
    let cred_path: Vec<char> = if is_cifs && !d.guest {
        if cft.len() > 0 {
            cft
        } else if unt.len() > 0 {
            let path = lit_plus("/etc/samba/credentials-", id.as_slice());
            if has_char(pw.as_slice(), '\n') || has_char(un.as_slice(), '\n') {
                return err("Username and password cannot contain a newline.");
            }
            let mut contents = lit("username=");
            push_all(&mut contents, unt.as_slice());
            push_str(&mut contents, "\npassword=");
            push_all(&mut contents, pw.as_slice());
            push_str(&mut contents, "\n");
            credentials = Some(
                CredWrite {
                    path: string_from(path.as_slice()),
                    contents: string_from(contents.as_slice()),
                },
            );
            path
        } else {
            Vec::new()
        }
    } else {
        Vec::new()
    };
    assert(cred_path@ == cred_path_spec(d@));
    let options = build_options(d, cred_path.as_slice());
    let mut line = escape_chars(source.as_slice());
    line.push(' ');
    let et = escape_chars(target.as_slice());
    push_all(&mut line, et.as_slice());
    line.push(' ');
    push_all(&mut line, protocol.as_slice());
    line.push(' ');
    let eo = escape_chars(options.as_slice());
    push_all(&mut line, eo.as_slice());
    line.push(' ');
    line.push('0');
    line.push(' ');
    line.push('0');
    assert(line@ =~= entry_line_spec(d@));
    if contains_chars(line.as_slice(), pw.as_slice()) && pw.len() > 0 && is_cifs {
        return err("Refusing to write the password into fstab. Use a credentials file.");
    }
    Ok(
        SharePlan {
            id: string_from(id.as_slice()),
            source: string_from(source.as_slice()),
            target: string_from(target.as_slice()),
            entry_line: string_from(line.as_slice()),
            credentials,
        },
    )
}


// ---------------------------------------------------------------------------
// Mount helpers
// ---------------------------------------------------------------------------

/// The program that mounts a network filesystem type.
pub open spec fn helper_spec(t: Seq<char>) -> Option<Seq<char>> {
    if t == "cifs"@ || t == "smb"@ {
        Some("mount.cifs"@)
    } else if t == "nfs"@ || t == "nfs4"@ {
        Some("mount.nfs"@)
    } else if t == "fuse.sshfs"@ || t == "sshfs"@ {
        Some("sshfs"@)
    } else if t == "davfs"@ {
        Some("mount.davfs"@)
    } else {
        None
    }
}

/// The package that ships the helper.
pub open spec fn package_spec(t: Seq<char>, helper: Seq<char>) -> Seq<char> {
    if t == "cifs"@ || t == "smb"@ {
        "cifs-utils"@
    } else if t == "nfs"@ || t == "nfs4"@ {
        "nfs-utils"@
    } else if t == "fuse.sshfs"@ || t == "sshfs"@ {
        "sshfs"@
    } else if t == "davfs"@ {
        "davfs2"@
    } else {
        helper
    }
}

pub fn helper_for(fstype: &str) -> (r: Option<&'static str>)
    ensures
        match r {
            Some(h) => helper_spec(fstype@) == Some(h@),
            None => helper_spec(fstype@) is None,
        },
{
    let t = chars_of(fstype);
    let t = t.as_slice();
    if eq_str(t, "cifs") || eq_str(t, "smb") {
        Some("mount.cifs")
    } else if eq_str(t, "nfs") || eq_str(t, "nfs4") {
        Some("mount.nfs")
    } else if eq_str(t, "fuse.sshfs") || eq_str(t, "sshfs") {
        Some("sshfs")
    } else if eq_str(t, "davfs") {
        Some("mount.davfs")
    } else {
        None
    }
}

/// Where the helper is looked for, in order.
pub open spec fn helper_paths_spec(helper: Seq<char>) -> Seq<Seq<char>> {
    seq!["/usr/bin/"@ + helper, "/usr/sbin/"@ + helper, "/bin/"@ + helper, "/sbin/"@ + helper]
}

pub fn helper_paths(helper: &str) -> (r: Vec<String>)
    ensures
        r@.len() == 4,
        forall|i: int| 0 <= i < 4 ==> #[trigger] r@[i]@ == helper_paths_spec(helper@)[i],
{
    let h = chars_of(helper);
    let mut r: Vec<String> = Vec::new();
    let a = lit_plus("/usr/bin/", h.as_slice());
    r.push(string_from(a.as_slice()));
    let b = lit_plus("/usr/sbin/", h.as_slice());
    r.push(string_from(b.as_slice()));
    let c = lit_plus("/bin/", h.as_slice());
    r.push(string_from(c.as_slice()));
    let d = lit_plus("/sbin/", h.as_slice());
    r.push(string_from(d.as_slice()));
    r
}

/// The note shown when a mount helper is missing: `None` for types without
/// a helper and when `installed` says that one of `helper_paths` exists.
pub open spec fn missing_helper_spec(t: Seq<char>, installed: bool) -> Option<Seq<char>> {
    match helper_spec(t) {
        None => None,
        Some(h) => if installed {
            None
        } else {
            Some(h + " is not installed (package "@ + package_spec(t, h) + ")"@)
        },
    }
}

pub fn missing_helper(fstype: &str, installed: bool) -> (r: Option<String>)
    ensures
        match r {
            Some(m) => missing_helper_spec(fstype@, installed) == Some(m@),
            None => missing_helper_spec(fstype@, installed) is None,
        },
{
    let helper = match helper_for(fstype) {
        Some(h) => h,
        None => return None,
    };
    if installed {
        return None;
    }
    let t = chars_of(fstype);
    let t = t.as_slice();
    let package: &str = if eq_str(t, "cifs") || eq_str(t, "smb") {
        "cifs-utils"
    } else if eq_str(t, "nfs") || eq_str(t, "nfs4") {
        "nfs-utils"
    } else if eq_str(t, "fuse.sshfs") || eq_str(t, "sshfs") {
        "sshfs"
    } else if eq_str(t, "davfs") {
        "davfs2"
    } else {
        helper
    };
    let mut out = lit(helper);
    push_str(&mut out, " is not installed (package ");
    push_str(&mut out, package);
    push_str(&mut out, ")");
    Some(string_from(out.as_slice()))
}

// ---------------------------------------------------------------------------
// The root script
// ---------------------------------------------------------------------------

pub open spec fn quote_char(c: char) -> Seq<char> {
    if c == '\'' {
        seq!['\'', '\\', '\'', '\'']
    } else {
        seq![c]
    }
}

pub open spec fn quote_body(s: Seq<char>) -> Seq<char>
    decreases s.len(),
{
    if s.len() == 0 {
        Seq::empty()
    } else {
        quote_body(s.drop_last()) + quote_char(s.last())
    }
}

/// Single quotes around the text, each quote inside written as `'\''`.
pub open spec fn sh_quote_spec(s: Seq<char>) -> Seq<char> {
    seq!['\''] + quote_body(s) + seq!['\'']
}

fn sh_quote_chars(v: &[char]) -> (out: Vec<char>)
    ensures
        out@ == sh_quote_spec(v@),
{
    let mut out: Vec<char> = Vec::new();
    out.push('\'');
    let mut i: usize = 0;
    while i < v.len()
        invariant
            i <= v@.len(),
            out@ == seq!['\''] + quote_body(v@.subrange(0, i as int)),
        decreases v@.len() - i,
    {
        let c = v[i];
        let ghost pre = out@;
        if c == '\'' {
            out.push('\'');
            out.push('\\');
            out.push('\'');
            out.push('\'');
        } else {
            out.push(c);
        }
        let ghost p = v@.subrange(0, i + 1);
        assert(p.drop_last() =~= v@.subrange(0, i as int));
        assert(out@ =~= seq!['\''] + quote_body(p));
        i = i + 1;
    }
    assert(v@.subrange(0, v@.len() as int) =~= v@);
    out.push('\'');
    out
}

/// Shell-quote a single argument. Used when the sudo script embeds a path.
pub fn sh_quote(value: &str) -> (r: String)
    ensures
        r@ == sh_quote_spec(value@),
{
    let v = chars_of(value);
    let q = sh_quote_chars(v.as_slice());
    string_from(q.as_slice())
}

pub open spec fn with_nl(s: Seq<char>) -> Seq<char> {
    if s.len() > 0 && s.last() == '\n' {
        s
    } else {
        s.push('\n')
    }
}

pub open spec fn cred_block(c: Option<CredV>, dir: Seq<char>) -> Seq<char> {
    match c {
        Some(w) => "install -d -m 755 "@ + sh_quote_spec(dir) + "\n"@ + "cat > "@ + sh_quote_spec(
            w.path,
        ) + " << 'DISKTUI_CRED'\n"@ + with_nl(w.contents) + "DISKTUI_CRED\n"@ + "chmod 600 "@
            + sh_quote_spec(w.path) + "\n"@,
        None => Seq::empty(),
    }
}

pub open spec fn mount_block(m: Option<Seq<char>>) -> Seq<char> {
    match m {
        Some(t) => "mount -- "@ + sh_quote_spec(t) + "\n"@,
        None => Seq::empty(),
    }
}

/// The script run as root: back up fstab, write the credentials file into
/// `cred_dir`, replace fstab, and mount when asked.
pub open spec fn script_spec(
    backup: Seq<char>,
    contents: Seq<char>,
    creds: Option<CredV>,
    mount: Option<Seq<char>>,
    cred_dir: Seq<char>,
) -> Seq<char> {
    "set -eu\n"@ + "cp -a /etc/fstab "@ + sh_quote_spec(backup) + "\n"@ + cred_block(creds, cred_dir)
        + "cat > /etc/fstab << 'DISKTUI_FSTAB'\n"@ + with_nl(contents) + "DISKTUI_FSTAB\n"@
        + "chmod 644 /etc/fstab\n"@ + mount_block(mount)
}

pub open spec fn opt_str_view(m: Option<&str>) -> Option<Seq<char>> {
    match m {
        Some(t) => Some(t@),
        None => None,
    }
}

pub open spec fn opt_credref_view(c: Option<&CredWrite>) -> Option<CredV> {
    match c {
        Some(w) => Some(w@),
        None => None,
    }
}

fn push_with_nl(out: &mut Vec<char>, s: &str)
    ensures
        final(out)@ == old(out)@ + with_nl(s@),
{
    let v = chars_of(s);
    push_all(out, v.as_slice());
    if !(v.len() > 0 && v[v.len() - 1] == '\n') {
        out.push('\n');
    }
}

fn push_quoted(out: &mut Vec<char>, s: &str)
    ensures
        final(out)@ == old(out)@ + sh_quote_spec(s@),
{
    let v = chars_of(s);
    let q = sh_quote_chars(v.as_slice());
    push_all(out, q.as_slice());
}

/// The script, with the directory of the credentials file given.
pub fn render_script_in_dir(
    backup: &str,
    plan_contents: &str,
    creds: Option<&CredWrite>,
    mount: Option<&str>,
    cred_dir: &str,
) -> (r: String)
    ensures
        r@ == script_spec(
            backup@,
            plan_contents@,
            opt_credref_view(creds),
            opt_str_view(mount),
            cred_dir@,
        ),
{
    let mut out = lit("set -eu\n");
    push_str(&mut out, "cp -a /etc/fstab ");
    push_quoted(&mut out, backup);
    push_str(&mut out, "\n");
    let ghost head = out@;
    match creds {
        Some(cred) => {
            push_str(&mut out, "install -d -m 755 ");
            push_quoted(&mut out, cred_dir);
            push_str(&mut out, "\n");
            push_str(&mut out, "cat > ");
            push_quoted(&mut out, cred.path.as_str());
            push_str(&mut out, " << 'DISKTUI_CRED'\n");
            push_with_nl(&mut out, cred.contents.as_str());
            push_str(&mut out, "DISKTUI_CRED\n");
            push_str(&mut out, "chmod 600 ");
            push_quoted(&mut out, cred.path.as_str());
            push_str(&mut out, "\n");
        },
        None => {},
    }
    assert(out@ =~= head + cred_block(opt_credref_view(creds), cred_dir@));
    let ghost mid = out@;
    push_str(&mut out, "cat > /etc/fstab << 'DISKTUI_FSTAB'\n");
    push_with_nl(&mut out, plan_contents);
    push_str(&mut out, "DISKTUI_FSTAB\n");
    push_str(&mut out, "chmod 644 /etc/fstab\n");
    let ghost tail = out@;
    match mount {
        Some(target) => {
            push_str(&mut out, "mount -- ");
            push_quoted(&mut out, target);
            push_str(&mut out, "\n");
        },
        None => {},
    }
    assert(out@ =~= tail + mount_block(opt_str_view(mount)));
    string_from(out.as_slice())
}

/// The directory part of a path, as `std::path::Path::parent` gives it.
pub uninterp spec fn path_parent_name(p: Seq<char>) -> Option<Seq<char>>;

/// Calls `std::path::Path::parent` and converts the result to text. The
/// contract claims only that the result is the function `path_parent_name`
/// of the argument, which holds because `parent` inspects the text alone.
#[verifier::external_body]
fn path_parent(p: &str) -> (r: Option<String>)
    ensures
        r is Some <==> path_parent_name(p@) is Some,
        r matches Some(s) ==> path_parent_name(p@) == Some(s@),
{
    match std::path::Path::new(p).parent() {
        Some(q) => Some(q.to_string_lossy().into_owned()),
        None => None,
    }
}

/// Where the credentials file's directory is created.
pub open spec fn cred_dir_spec(creds: Option<CredV>) -> Seq<char> {
    match creds {
        Some(c) => match path_parent_name(c.path) {
            Some(d) => d,
            None => "/etc/samba"@,
        },
        None => "/etc/samba"@,
    }
}

pub fn render_script(backup: &str, plan_contents: &str, creds: Option<&CredWrite>, mount: Option<&str>) -> (r: String)
    ensures
        r@ == script_spec(
            backup@,
            plan_contents@,
            opt_credref_view(creds),
            opt_str_view(mount),
            cred_dir_spec(opt_credref_view(creds)),
        ),
{
    let dir: String = match creds {
        Some(cred) => match path_parent(cred.path.as_str()) {
            Some(d) => d,
            None => String::from_str("/etc/samba"),
        },
        None => String::from_str("/etc/samba"),
    };
    render_script_in_dir(backup, plan_contents, creds, mount, dir.as_str())
}

} // verus!
