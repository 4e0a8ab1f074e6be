//! The ATA SMART attribute table, as text.

use vstd::prelude::*;

use crate::objects::DValue;
use crate::text::{dec, dec_chars, dec_i64, dec_i64_chars, join, join_chars, push_all, string_from, views};

verus! {

pub open spec fn spaces(n: nat) -> Seq<char> {
    Seq::new(n, |i: int| ' ')
}

/// `{:<w}`: the text, then spaces up to the width.
pub open spec fn pad_after(s: Seq<char>, w: nat) -> Seq<char> {
    if s.len() < w {
        s + spaces((w - s.len()) as nat)
    } else {
        s
    }
}

/// `{:>w}`: spaces up to the width, then the text.
pub open spec fn pad_before(s: Seq<char>, w: nat) -> Seq<char> {
    if s.len() < w {
        spaces((w - s.len()) as nat) + s
    } else {
        s
    }
}

/// `u64 as i64`: values past `i64::MAX` wrap to negative numbers.
pub open spec fn wrap_i64(n: u64) -> i64 {
    if n <= i64::MAX {
        n as i64
    } else {
        (n - 0x1_0000_0000_0000_0000int) as i64
    }
}

/// A field of an attribute as a signed number; -1 when absent or of
/// another type.
pub open spec fn int_at(f: Seq<DValue>, i: int) -> i64 {
    if 0 <= i < f.len() {
        match f[i] {
            DValue::I32(n) => n as i64,
            DValue::I64(n) => n,
            DValue::U64(n) => wrap_i64(n),
            DValue::U8(n) => n as i64,
            _ => -1i64,
        }
    } else {
        -1i64
    }
}

pub open spec fn attr_id(f: Seq<DValue>) -> u8 {
    if f.len() > 0 {
        match f[0] {
            DValue::U8(n) => n,
            _ => 0,
        }
    } else {
        0
    }
}

pub open spec fn attr_name(f: Seq<DValue>) -> Seq<char> {
    if f.len() > 1 {
        match f[1] {
            DValue::Str(s) => s@,
            _ => Seq::empty(),
        }
    } else {
        Seq::empty()
    }
}

/// One row: id, name, normalised value, worst, threshold and the raw
/// (pretty) value, in columns.
pub open spec fn ata_line(f: Seq<DValue>) -> Seq<char> {
    pad_after(dec(attr_id(f) as nat), 3) + " "@ + pad_after(attr_name(f), 32) + " "@ + pad_before(
        dec_i64(int_at(f, 3)),
        6,
    ) + " "@ + pad_before(dec_i64(int_at(f, 4)), 6) + " "@ + pad_before(dec_i64(int_at(f, 5)), 10)
        + " "@ + pad_before(dec_i64(int_at(f, 6)), 8)
}

/// The rows of the attributes that are structures; other items are skipped.
pub open spec fn ata_lines(items: Seq<DValue>) -> Seq<Seq<char>>
    decreases items.len(),
{
    if items.len() == 0 {
        Seq::empty()
    } else {
        ata_lines(items.drop_last()) + match items.last() {
            DValue::Structure(fs) => seq![ata_line(fs@)],
            _ => Seq::empty(),
        }
    }
}

pub open spec fn ata_header() -> Seq<char> {
    "id  attribute                         value  worst  threshold  raw"@
}

/// The table for a reply of `Drive.Ata.SmartGetAttributes`; `None` when the
/// reply is not an array.
pub open spec fn ata_table_spec(v: DValue) -> Option<Seq<char>> {
    match v {
        DValue::Array(items) => Some(join(seq![ata_header()] + ata_lines(items@), "\n"@)),
        _ => None,
    }
}

fn push_spaces(out: &mut Vec<char>, n: usize)
    ensures
        final(out)@ == old(out)@ + spaces(n as nat),
{
    let ghost pre = out@;
    let mut i: usize = 0;
    while i < n
        invariant
            i <= n,
            out@ == pre + spaces(i as nat),
        decreases n - i,
    {
        out.push(' ');
        i = i + 1;
        assert(out@ =~= pre + spaces(i as nat));
    }
}

fn push_after(out: &mut Vec<char>, s: &[char], w: usize)
    ensures
        final(out)@ == old(out)@ + pad_after(s@, w as nat),
{
    let ghost pre = out@;
    push_all(out, s);
    if s.len() < w {
        push_spaces(out, w - s.len());
    }
    assert(out@ =~= pre + pad_after(s@, w as nat));
}

fn push_before(out: &mut Vec<char>, s: &[char], w: usize)
    ensures
        final(out)@ == old(out)@ + pad_before(s@, w as nat),
{
    let ghost pre = out@;
    if s.len() < w {
        push_spaces(out, w - s.len());
    }
    push_all(out, s);
    assert(out@ =~= pre + pad_before(s@, w as nat));
}

fn int_field(f: &Vec<DValue>, i: usize) -> (r: i64)
    ensures
        r == int_at(f@, i as int),
{
    if i < f.len() {
        match &f[i] {
            DValue::I32(n) => *n as i64,
            DValue::I64(n) => *n,
            DValue::U64(n) => {
                if *n <= 9223372036854775807u64 {
                    *n as i64
                } else {
                    let m: u64 = *n - 9223372036854775808u64;
                    let r: i64 = (m as i64) + i64::MIN;
                    assert(r == (*n - 0x1_0000_0000_0000_0000int) as i64);
                    r
                }
            },
            DValue::U8(n) => *n as i64,
            _ => -1,
        }
    } else {
        -1
    }
}

fn ata_row(f: &Vec<DValue>) -> (r: Vec<char>)
    ensures
        r@ == ata_line(f@),
{
    let id: u8 = if f.len() > 0 {
        match &f[0] {
            DValue::U8(n) => *n,
            _ => 0,
        }
    } else {
        0
    };
    let mut out: Vec<char> = Vec::new();
    let d = dec_chars(id as u64);
    push_after(&mut out, d.as_slice(), 3);
    out.push(' ');
    let name: Vec<char> = if f.len() > 1 {
        match &f[1] {
            DValue::Str(s) => crate::text::chars_of(s.as_str()),
            _ => Vec::new(),
        }
    } else {
        Vec::new()
    };
    assert(name@ == attr_name(f@));
    push_after(&mut out, name.as_slice(), 32);
    out.push(' ');
    let a = dec_i64_chars(int_field(f, 3));
    push_before(&mut out, a.as_slice(), 6);
    out.push(' ');
    let b = dec_i64_chars(int_field(f, 4));
    push_before(&mut out, b.as_slice(), 6);
    out.push(' ');
    let c = dec_i64_chars(int_field(f, 5));
    push_before(&mut out, c.as_slice(), 10);
    out.push(' ');
    let e = dec_i64_chars(int_field(f, 6));
    push_before(&mut out, e.as_slice(), 8);
    proof {
        reveal_strlit(" ");
        assert(" "@ =~= seq![' ']);
    }
    assert(out@ =~= ata_line(f@));
    out
}

/// The SMART attribute table of an ATA drive.
pub fn ata_table(v: &DValue) -> (r: Option<String>)
    ensures
        match r {
            Some(t) => ata_table_spec(*v) == Some(t@),
            None => ata_table_spec(*v) is None,
        },
{
    let items = match v {
        DValue::Array(items) => items,
        _ => return None,
    };
    let mut lines: Vec<Vec<char>> = Vec::new();
    let mut head: Vec<char> = Vec::new();
    crate::text::push_str(&mut head, "id  attribute                         value  worst  threshold  raw");
    lines.push(head);
    let mut i: usize = 0;
    while i < items.len()
        invariant
            i <= items@.len(),
            views(lines@) == seq![ata_header()] + ata_lines(items@.subrange(0, i as int)),
        decreases items@.len() - i,
    {
        let ghost pre = lines@;
        let ghost n = items@.subrange(0, i + 1);
        assert(n.drop_last() =~= items@.subrange(0, i as int));
        assert(n.last() == items@[i as int]);
        match &items[i] {
            DValue::Structure(fs) => {
                let row = ata_row(fs);
                lines.push(row);
                assert(views(lines@) =~= views(pre).push(row@));
            },
            _ => {},
        }
        assert(views(lines@) =~= seq![ata_header()] + ata_lines(n));
        i = i + 1;
    }
    assert(items@.subrange(0, items@.len() as int) =~= items@);
    let mut sep: Vec<char> = Vec::new();
    sep.push('\n');
    let text = join_chars(&lines, sep.as_slice());
    assert(sep@ =~= "\n"@) by {
        reveal_strlit("\n");
    }
    Some(string_from(text.as_slice()))
}

} // verus!
