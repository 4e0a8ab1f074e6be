//! What the screen shows, computed without drawing: the widths of the
//! partition map, which disk it maps, and how a form field reads.

use vstd::prelude::*;
use vstd::string::*;

use crate::form::{Field, FieldV};
use crate::model::{Model, RowKind, RowKindV, Segment, SegV};
use crate::select::block_at;
use crate::select::disk_pick;
use crate::smart::{pad_after, spaces};
use crate::text::{chars_of, push_all, same_str, slice_of, string_from};

verus! {

// ---------------------------------------------------------------------------
// The partition map
// ---------------------------------------------------------------------------

pub open spec fn sum_sizes(s: Seq<u64>) -> nat
    decreases s.len(),
{
    if s.len() == 0 {
        0
    } else {
        sum_sizes(s.drop_last()) + s.last() as nat
    }
}

pub open spec fn map_total(s: Seq<u64>) -> nat {
    if sum_sizes(s) == 0 {
        1
    } else {
        sum_sizes(s)
    }
}

/// `u64::saturating_mul`.
pub open spec fn sat_mul(a: u64, b: u64) -> u64 {
    if a * b > u64::MAX {
        u64::MAX
    } else {
        (a * b) as u64
    }
}

/// The cells of one segment: its share of the width, at least one; the
/// last segment takes what the others left.
pub open spec fn cell_of(sizes: Seq<u64>, width: u16, i: int, used: u16) -> u16 {
    if i == sizes.len() - 1 {
        if used >= width {
            0
        } else {
            (width - used) as u16
        }
    } else {
        let q = sat_mul(sizes[i], width as u64) as nat / map_total(sizes);
        if q == 0 {
            1
        } else {
            q as u16
        }
    }
}

/// The cells of the first `k` segments, and the cells they use together
/// (adding with saturation).
pub open spec fn cells_upto(sizes: Seq<u64>, width: u16, k: nat) -> (Seq<u16>, u16)
    decreases k,
{
    if k == 0 {
        (Seq::empty(), 0u16)
    } else {
        let (cs, used) = cells_upto(sizes, width, (k - 1) as nat);
        let c = cell_of(sizes, width, k - 1, used);
        (cs.push(c), if used + c > u16::MAX {
            u16::MAX
        } else {
            (used + c) as u16
        })
    }
}

proof fn lemma_sum_prefix(s: Seq<u64>, i: int)
    requires
        0 <= i < s.len(),
    ensures
        sum_sizes(s.subrange(0, i + 1)) == sum_sizes(s.subrange(0, i)) + s[i],
{
    assert(s.subrange(0, i + 1).drop_last() =~= s.subrange(0, i));
}

proof fn lemma_part_le_sum(s: Seq<u64>, i: int)
    requires
        0 <= i < s.len(),
    ensures
        s[i] <= sum_sizes(s),
    decreases s.len(),
{
    if i < s.len() - 1 {
        lemma_part_le_sum(s.drop_last(), i);
    }
}

proof fn lemma_share_fits(size: u64, width: u16, total: nat)
    requires
        size <= total,
        total > 0,
    ensures
        sat_mul(size, width as u64) as nat / total <= width,
{
    let p = sat_mul(size, width as u64) as nat;
    assert(p <= size * width) by (nonlinear_arith)
        requires
            p == (if size * width > u64::MAX { u64::MAX as int } else { size * width }),
    ;
    assert(size * width <= total * width) by (nonlinear_arith)
        requires
            size <= total,
    ;
    assert(p / total <= width) by (nonlinear_arith)
        requires
            p <= total * width,
            total > 0,
    ;
}

/// How many cells of a map `width` cells wide each segment takes.
pub fn bar_cells(sizes: &[u64], width: u16) -> (r: Vec<u16>)
    requires
        sum_sizes(sizes@) <= u64::MAX,
    ensures
        r@ == cells_upto(sizes@, width, sizes@.len()).0,
{
    let mut total: u64 = 0;
    let mut i: usize = 0;
    while i < sizes.len()
        invariant
            i <= sizes@.len(),
            sum_sizes(sizes@) <= u64::MAX,
            total == sum_sizes(sizes@.subrange(0, i as int)),
        decreases sizes@.len() - i,
    {
        proof {
            lemma_sum_prefix(sizes@, i as int);
            lemma_part_le_sum(sizes@, i as int);
            assert(sizes@.subrange(0, sizes@.len() as int) =~= sizes@);
            lemma_prefix_le(sizes@, i + 1);
        }
        total = total + sizes[i];
        i = i + 1;
    }
    assert(sizes@.subrange(0, sizes@.len() as int) =~= sizes@);
    if total == 0 {
        total = 1;
    }
    let mut r: Vec<u16> = Vec::new();
    let mut used: u16 = 0;
    let mut k: usize = 0;
    while k < sizes.len()
        invariant
            k <= sizes@.len(),
            total as nat == map_total(sizes@),
            (r@, used) == cells_upto(sizes@, width, k as nat),
        decreases sizes@.len() - k,
    {
        let cells: u16 = if k + 1 == sizes.len() {
            width.saturating_sub(used)
        } else {
            let p: u64 = match sizes[k].checked_mul(width as u64) {
                Some(p) => p,
                None => u64::MAX,
            };
            let q: u64 = p / total;
            proof {
                lemma_part_le_sum(sizes@, k as int);
                lemma_share_fits(sizes@[k as int], width, map_total(sizes@));
            }
            if q == 0 {
                1
            } else {
                q as u16
            }
        };
        assert(cells == cell_of(sizes@, width, k as int, used));
        r.push(cells);
        used = used.saturating_add(cells);
        k = k + 1;
    }
    r
}

proof fn lemma_prefix_le(s: Seq<u64>, k: int)
    requires
        0 <= k <= s.len(),
    ensures
        sum_sizes(s.subrange(0, k)) <= sum_sizes(s),
    decreases s.len() - k,
{
    if k < s.len() {
        lemma_sum_prefix(s, k);
        lemma_prefix_le(s, k + 1);
    } else {
        assert(s.subrange(0, k) =~= s);
    }
}

/// The text inside a segment: its label cut to the cells and padded with
/// spaces; only spaces when the segment has four cells or fewer.
pub open spec fn bar_text_spec(label: Seq<char>, cells: u16) -> Seq<char> {
    if cells > 4 {
        let l = if label.len() > cells {
            label.subrange(0, cells as int)
        } else {
            label
        };
        pad_after(l, cells as nat)
    } else {
        spaces(cells as nat)
    }
}

pub fn bar_text(label: &str, cells: u16) -> (r: String)
    ensures
        r@ == bar_text_spec(label@, cells),
{
    let mut out: Vec<char> = Vec::new();
    if cells > 4 {
        let v = chars_of(label);
        let l = if v.len() > cells as usize {
            slice_of(v.as_slice(), 0, cells as usize)
        } else {
            v
        };
        assert(l@.len() <= cells);
        push_all(&mut out, l.as_slice());
        let mut n: usize = l.len();
        while n < cells as usize
            invariant
                l@.len() <= n <= cells,
                out@ == l@ + spaces((n - l@.len()) as nat),
            decreases cells as usize - n,
        {
            out.push(' ');
            n = n + 1;
            assert(out@ =~= l@ + spaces((n - l@.len()) as nat));
        }
        assert(out@ =~= pad_after(l@, cells as nat));
    } else {
        let mut n: u16 = 0;
        while n < cells
            invariant
                n <= cells,
                out@ == spaces(n as nat),
            decreases cells - n,
        {
            out.push(' ');
            n = n + 1;
            assert(out@ =~= spaces(n as nat));
        }
    }
    string_from(out.as_slice())
}

/// The disk whose partitions the map shows for a row: the whole disk of a
/// drive, the table a partition lives in, the block itself otherwise.
pub open spec fn bar_disk_spec(m: Model, row: RowKindV) -> Option<Seq<char>> {
    match row {
        RowKindV::Drive { drive } => match disk_pick(m.blocks@, drive) {
            Some(b) => Some(b.path@),
            None => None,
        },
        RowKindV::Volume { block } => match block_at(m.blocks@, block) {
            Some(b) => match b.partition {
                Some(p) => Some(p.table@),
                None => Some(b.path@),
            },
            None => None,
        },
        RowKindV::Free { disk, .. } => Some(disk),
        _ => None,
    }
}

pub fn bar_disk(model: &Model, row: &RowKind) -> (r: Option<String>)
    ensures
        match r {
            Some(d) => bar_disk_spec(*model, row@) == Some(d@),
            None => bar_disk_spec(*model, row@) is None,
        },
{
    match row {
        RowKind::Drive { drive } => match model.disk_for_drive(drive.as_str()) {
            Some(b) => Some(b.path.clone()),
            None => None,
        },
        RowKind::Volume { block } => match model.block(block.as_str()) {
            Some(b) => match &b.partition {
                Some(p) => Some(p.table.clone()),
                None => Some(b.path.clone()),
            },
            None => None,
        },
        RowKind::Free { disk, .. } => Some(disk.clone()),
        _ => None,
    }
}

/// Whether a segment is the selected row: the partition of a volume row,
/// or the free space that starts where a free row starts.
pub open spec fn segment_selected_spec(row: Option<RowKindV>, seg: SegV) -> bool {
    match row {
        Some(RowKindV::Volume { block }) => seg.block == Some(block),
        Some(RowKindV::Free { start, .. }) => seg.free && seg.start == start,
        _ => false,
    }
}

pub fn segment_selected(row: Option<&RowKind>, seg: &Segment) -> (r: bool)
    ensures
        r == segment_selected_spec(
            match row {
                Some(k) => Some(k@),
                None => None,
            },
            seg@,
        ),
{
    match row {
        Some(RowKind::Volume { block }) => match &seg.block {
            Some(b) => same_str(b.as_str(), block.as_str()),
            None => false,
        },
        Some(RowKind::Free { start, .. }) => seg.free && seg.start == *start,
        _ => false,
    }
}

// ---------------------------------------------------------------------------
// Form fields
// ---------------------------------------------------------------------------

/// How a field's value reads: a bullet per character of a secret, `[x]` or
/// `[ ]` for a toggle, `< value >` for a choice, the text otherwise.
pub open spec fn field_shown_spec(f: FieldV) -> Seq<char> {
    if f.secret {
        Seq::new(f.value.len(), |i: int| '•')
    } else if f.toggle {
        if f.value == "yes"@ {
            "[x]"@
        } else {
            "[ ]"@
        }
    } else if f.choices.len() > 0 {
        "< "@ + f.value + " >"@
    } else {
        f.value
    }
}

pub fn field_shown(field: &Field) -> (r: String)
    ensures
        r@ == field_shown_spec(field@),
{
    if field.secret {
        let v = chars_of(field.value.as_str());
        let mut out: Vec<char> = Vec::new();
        let mut i: usize = 0;
        while i < v.len()
            invariant
                i <= v@.len(),
                out@ == Seq::new(i as nat, |j: int| '•'),
            decreases v@.len() - i,
        {
            out.push('•');
            i = i + 1;
            assert(out@ =~= Seq::new(i as nat, |j: int| '•'));
        }
        string_from(out.as_slice())
    } else if field.toggle {
        if same_str(field.value.as_str(), "yes") {
            String::from_str("[x]")
        } else {
            String::from_str("[ ]")
        }
    } else if field.choices.len() > 0 {
        String::from_str("< ").concat(field.value.as_str()).concat(" >")
    } else {
        field.value.clone()
    }
}

} // verus!
