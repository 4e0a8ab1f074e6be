//! Properties of the partition map and of the action menu.

use vstd::prelude::*;

use crate::actions::{actions_spec, fs_actions, image_actions_spec, luks_actions, part_actions, swap_actions, loop_actions, format_action, volume_actions_spec, drive_actions_spec, disk_section, hardware_section};
use crate::text::{is_ws, lower_seq, ltrim, rtrim, trim};
use crate::model::{part_type_spec, partition_type_label_spec, type_code_for_spec, type_index_from, type_label_from, alignment_prefix_spec, free_seg, ins_off, lemma_sort_off_sorted, sat_add, seg_fold, seg_step, segments_spec, sort_off, label_spec, ActionId, ActionV, Caps, Model, PartV, RowKindV, SegV, MIB};

verus! {

/// A segment and a partition share a byte.
pub open spec fn overlaps(f: SegV, p: PartV) -> bool {
    f.start < sat_add(p.0, p.1) && p.0 < f.start + f.size
}

proof fn lemma_ins_off_has(s: Seq<PartV>, x: PartV)
    ensures
        ins_off(s, x).contains(x),
        forall|k: int| 0 <= k < s.len() ==> ins_off(s, x).contains(#[trigger] s[k]),
    decreases s.len(),
{
    let r = ins_off(s, x);
    if s.len() == 0 {
        assert(r[0] == x);
    } else if s.last().0 <= x.0 {
        assert(r[s.len() as int] == x);
        assert forall|k: int| 0 <= k < s.len() implies r.contains(#[trigger] s[k]) by {
            assert(r[k] == s[k]);
        }
    } else {
        let t = s.drop_last();
        lemma_ins_off_has(t, x);
        let q = ins_off(t, x);
        assert(r == q.push(s.last()));
        let i = choose|i: int| 0 <= i < q.len() && q[i] == x;
        assert(r[i] == x);
        assert forall|k: int| 0 <= k < s.len() implies r.contains(#[trigger] s[k]) by {
            if k == s.len() - 1 {
                assert(r[q.len() as int] == s[k]);
            } else {
                assert(t[k] == s[k]);
                assert(q.contains(t[k]));
                let j = choose|j: int| 0 <= j < q.len() && q[j] == t[k];
                assert(r[j] == s[k]);
            }
        }
    }
}

/// Sorting keeps every partition.
proof fn lemma_sort_off_has(s: Seq<PartV>)
    ensures
        forall|k: int| 0 <= k < s.len() ==> sort_off(s).contains(#[trigger] s[k]),
    decreases s.len(),
{
    if s.len() > 0 {
        let t = s.drop_last();
        lemma_sort_off_has(t);
        let q = sort_off(t);
        lemma_ins_off_has(q, s.last());
        assert forall|k: int| 0 <= k < s.len() implies sort_off(s).contains(#[trigger] s[k]) by {
            if k == s.len() - 1 {
            } else {
                assert(t[k] == s[k]);
                assert(q.contains(t[k]));
                let j = choose|j: int| 0 <= j < q.len() && q[j] == t[k];
                assert(sort_off(s).contains(q[j]));
            }
        }
    }
}

/// What the fold over sorted partitions keeps: the cursor is past every
/// partition seen, and every free segment is a MiB or more, not the
/// alignment prefix, and clear of every partition.
proof fn lemma_fold_free(ps: Seq<PartV>, n: int)
    requires
        0 <= n <= ps.len(),
        forall|i: int, j: int| 0 <= i <= j < ps.len() ==> ps[i].0 <= ps[j].0,
    ensures
        forall|k: int| 0 <= k < n ==> sat_add(ps[k].0, ps[k].1) <= seg_fold(ps, n).1,
        forall|i: int|
            0 <= i < seg_fold(ps, n).0.len() && (#[trigger] seg_fold(ps, n).0[i]).free ==> {
                let f = seg_fold(ps, n).0[i];
                &&& f.size >= MIB
                &&& !alignment_prefix_spec(f.start as int, f.size as int)
                &&& forall|k: int| 0 <= k < ps.len() ==> !overlaps(f, #[trigger] ps[k])
            },
    decreases n,
{
    if n > 0 {
        lemma_fold_free(ps, n - 1);
        let st = seg_fold(ps, n - 1);
        let p = ps[n - 1];
        let (out, cursor) = st;
        let nx = seg_step(st, p);
        assert(seg_fold(ps, n) == nx);
        let gap = p.0 > cursor && p.0 - cursor >= MIB && !alignment_prefix_spec(
            cursor as int,
            p.0 - cursor,
        );
        let with_gap = if gap {
            out.push(free_seg(cursor, (p.0 - cursor) as u64))
        } else {
            out
        };
        assert(nx.0 == with_gap.push(
            SegV { label: p.3, start: p.0, size: p.1, free: false, block: Some(p.2) },
        ));
        assert forall|i: int| 0 <= i < nx.0.len() && (#[trigger] nx.0[i]).free implies {
            let f = nx.0[i];
            &&& f.size >= MIB
            &&& !alignment_prefix_spec(f.start as int, f.size as int)
            &&& forall|k: int| 0 <= k < ps.len() ==> !overlaps(f, #[trigger] ps[k])
        } by {
            if i < out.len() {
                assert(nx.0[i] == out[i]);
            } else {
                assert(gap && i == out.len());
                let f = nx.0[i];
                assert(f == free_seg(cursor, (p.0 - cursor) as u64));
                assert forall|k: int| 0 <= k < ps.len() implies !overlaps(f, #[trigger] ps[k]) by {
                    if k < n - 1 {
                        assert(sat_add(ps[k].0, ps[k].1) <= cursor);
                    } else {
                        assert(ps[n - 1].0 <= ps[k].0);
                    }
                }
            }
        }
    }
}

/// Free space on the map is at least a MiB, never the alignment space
/// before the first MiB when a partition ends past the start of the disk,
/// and never shares a byte with a partition.
pub proof fn law_free_space_is_free(disk_size: u64, parts: Seq<PartV>)
    ensures
        forall|i: int|
            0 <= i < segments_spec(disk_size, parts).len() && (#[trigger] segments_spec(
                disk_size,
                parts,
            )[i]).free ==> {
                let f = segments_spec(disk_size, parts)[i];
                &&& f.size >= MIB
                &&& forall|k: int| 0 <= k < parts.len() ==> !overlaps(f, #[trigger] parts[k])
                &&& (exists|k: int| 0 <= k < parts.len() && sat_add(parts[k].0, parts[k].1) > 0)
                    ==> !alignment_prefix_spec(f.start as int, f.size as int)
            },
{
    let ps = sort_off(parts);
    lemma_sort_off_sorted(parts);
    lemma_sort_off_has(parts);
    lemma_fold_free(ps, ps.len() as int);
    let (out, cursor) = seg_fold(ps, ps.len() as int);
    let segs = segments_spec(disk_size, parts);
    assert forall|i: int| 0 <= i < segs.len() && (#[trigger] segs[i]).free implies {
        let f = segs[i];
        &&& f.size >= MIB
        &&& forall|k: int| 0 <= k < parts.len() ==> !overlaps(f, #[trigger] parts[k])
        &&& (exists|k: int| 0 <= k < parts.len() && sat_add(parts[k].0, parts[k].1) > 0)
            ==> !alignment_prefix_spec(f.start as int, f.size as int)
    } by {
        let f = segs[i];
        assert forall|k: int| 0 <= k < parts.len() implies !overlaps(f, #[trigger] parts[k]) by {
            assert(ps.contains(parts[k]));
            let j = choose|j: int| 0 <= j < ps.len() && ps[j] == parts[k];
            if i < out.len() {
                assert(f == out[i]);
                assert(!overlaps(out[i], ps[j]));
            } else {
                assert(sat_add(ps[j].0, ps[j].1) <= cursor);
            }
        }
        if i < out.len() {
            assert(f == out[i]);
        } else {
            if exists|k: int| 0 <= k < parts.len() && sat_add(parts[k].0, parts[k].1) > 0 {
                let k = choose|k: int| 0 <= k < parts.len() && sat_add(parts[k].0, parts[k].1) > 0;
                assert(ps.contains(parts[k]));
                let j = choose|j: int| 0 <= j < ps.len() && ps[j] == parts[k];
                assert(sat_add(ps[j].0, ps[j].1) <= cursor);
            }
        }
    }
}


proof fn lemma_ins_off_from(s: Seq<PartV>, x: PartV)
    ensures
        forall|k: int|
            0 <= k < ins_off(s, x).len() ==> #[trigger] ins_off(s, x)[k] == x || s.contains(ins_off(s, x)[k]),
    decreases s.len(),
{
    let r = ins_off(s, x);
    if s.len() == 0 {
    } else if s.last().0 <= x.0 {
        assert forall|k: int| 0 <= k < r.len() implies #[trigger] r[k] == x || s.contains(r[k]) by {
            if k < s.len() {
                assert(r[k] == s[k]);
            }
        }
    } else {
        let t = s.drop_last();
        lemma_ins_off_from(t, x);
        let q = ins_off(t, x);
        assert(r == q.push(s.last()));
        assert forall|k: int| 0 <= k < r.len() implies #[trigger] r[k] == x || s.contains(r[k]) by {
            if k < q.len() {
                assert(r[k] == q[k]);
                if q[k] != x {
                    assert(t.contains(q[k]));
                    let j = choose|j: int| 0 <= j < t.len() && t[j] == q[k];
                    assert(s[j] == t[j]);
                }
            } else {
                assert(r[k] == s[s.len() - 1]);
            }
        }
    }
}

/// Sorting adds no partition.
proof fn lemma_sort_off_from(s: Seq<PartV>)
    ensures
        forall|k: int| 0 <= k < sort_off(s).len() ==> s.contains(#[trigger] sort_off(s)[k]),
    decreases s.len(),
{
    if s.len() > 0 {
        let t = s.drop_last();
        lemma_sort_off_from(t);
        let q = sort_off(t);
        lemma_ins_off_from(q, s.last());
        assert forall|k: int| 0 <= k < sort_off(s).len() implies s.contains(#[trigger] sort_off(s)[k]) by {
            let e = sort_off(s)[k];
            if e == s.last() {
                assert(s[s.len() - 1] == e);
            } else {
                assert(q.contains(e));
                let j = choose|j: int| 0 <= j < q.len() && q[j] == e;
                assert(t.contains(q[j]));
                let i = choose|i: int| 0 <= i < t.len() && t[i] == e;
                assert(s[i] == t[i]);
            }
        }
    }
}

/// The cursor never passes a point that every partition seen ends at or
/// before.
proof fn lemma_fold_cursor(ps: Seq<PartV>, n: int, a: u64)
    requires
        0 <= n <= ps.len(),
        forall|k: int| 0 <= k < n ==> sat_add(#[trigger] ps[k].0, ps[k].1) <= a,
    ensures
        seg_fold(ps, n).1 <= a,
    decreases n,
{
    if n > 0 {
        lemma_fold_cursor(ps, n - 1, a);
        assert(sat_add(ps[n - 1].0, ps[n - 1].1) <= a);
    }
}

/// Later steps of the fold only add segments.
proof fn lemma_fold_grows(ps: Seq<PartV>, n: int, m: int)
    requires
        0 <= n <= m <= ps.len(),
    ensures
        seg_fold(ps, n).0.len() <= seg_fold(ps, m).0.len(),
        forall|i: int| 0 <= i < seg_fold(ps, n).0.len() ==> #[trigger] seg_fold(ps, m).0[i] == seg_fold(ps, n).0[i],
    decreases m - n,
{
    if n < m {
        lemma_fold_grows(ps, n, m - 1);
        let st = seg_fold(ps, m - 1);
        let p = ps[m - 1];
        assert(seg_fold(ps, m) == seg_step(st, p));
        let (out, cursor) = st;
        let with_gap = if p.0 > cursor && p.0 - cursor >= MIB && !alignment_prefix_spec(
            cursor as int,
            p.0 - cursor,
        ) {
            out.push(free_seg(cursor, (p.0 - cursor) as u64))
        } else {
            out
        };
        assert(seg_fold(ps, m).0 == with_gap.push(
            SegV { label: p.3, start: p.0, size: p.1, free: false, block: Some(p.2) },
        ));
        assert forall|i: int| 0 <= i < seg_fold(ps, n).0.len() implies #[trigger] seg_fold(ps, m).0[i]
            == seg_fold(ps, n).0[i] by {
            assert(seg_fold(ps, m).0[i] == with_gap[i]);
            assert(with_gap[i] == out[i]);
        }
    }
}

/// The first partition, from `i` on, that starts at or after `b`.
proof fn lemma_first_from(ps: Seq<PartV>, b: u64, i: int) -> (n: int)
    requires
        0 <= i <= ps.len(),
        forall|k: int| 0 <= k < i ==> (#[trigger] ps[k]).0 < b,
    ensures
        i <= n <= ps.len(),
        forall|k: int| 0 <= k < n ==> (#[trigger] ps[k]).0 < b,
        n < ps.len() ==> ps[n].0 >= b,
    decreases ps.len() - i,
{
    if i == ps.len() || ps[i].0 >= b {
        i
    } else {
        lemma_first_from(ps, b, i + 1)
    }
}

/// The map leaves out no free space: every stretch of a MiB or more inside
/// the disk that no partition touches (other than the alignment space that
/// ends within the first MiB) lies within one free segment of the map.
pub proof fn law_free_space_is_listed(disk_size: u64, parts: Seq<PartV>, a: u64, b: u64)
    requires
        a < b <= disk_size,
        b - a >= MIB,
        b > MIB,
        forall|k: int| #![trigger parts[k]] 0 <= k < parts.len() ==> parts[k].0 + parts[k].1 <= a || b
            <= parts[k].0,
    ensures
        exists|i: int|
            0 <= i < segments_spec(disk_size, parts).len() && (#[trigger] segments_spec(disk_size, parts)[i]).free
                && segments_spec(disk_size, parts)[i].start <= a && b <= segments_spec(disk_size, parts)[i].start
                + segments_spec(disk_size, parts)[i].size,
{
    let ps = sort_off(parts);
    lemma_sort_off_sorted(parts);
    lemma_sort_off_from(parts);
    let segs = segments_spec(disk_size, parts);
    let len = ps.len() as int;
    assert forall|k: int| 0 <= k < len implies (#[trigger] ps[k]).0 + ps[k].1 <= a || b <= ps[k].0 by {
        assert(parts.contains(ps[k]));
        let j = choose|j: int| 0 <= j < parts.len() && parts[j] == ps[k];
        assert(parts[j].0 + parts[j].1 <= a || b <= parts[j].0);
    }
    let n = lemma_first_from(ps, b, 0);
    assert forall|k: int| 0 <= k < n implies sat_add(#[trigger] ps[k].0, ps[k].1) <= a by {
        assert(ps[k].0 < b);
        assert(ps[k].0 + ps[k].1 <= a);
    }
    lemma_fold_cursor(ps, n, a);
    let (out_n, c) = seg_fold(ps, n);
    let (out, cursor) = seg_fold(ps, len);
    if n < len {
        let p = ps[n];
        assert(p.0 >= b);
        assert(!alignment_prefix_spec(c as int, p.0 - c));
        let g = free_seg(c, (p.0 - c) as u64);
        assert(seg_fold(ps, n + 1) == seg_step(seg_fold(ps, n), p));
        assert(seg_fold(ps, n + 1).0 == out_n.push(g).push(
            SegV { label: p.3, start: p.0, size: p.1, free: false, block: Some(p.2) },
        ));
        let i = out_n.len() as int;
        assert(seg_fold(ps, n + 1).0[i] == g);
        lemma_fold_grows(ps, n + 1, len);
        assert(out[i] == g);
        assert(segs[i] == g);
    } else {
        assert(cursor <= a);
        assert(segs == out.push(free_seg(cursor, (disk_size - cursor) as u64)));
        assert(segs[out.len() as int] == free_seg(cursor, (disk_size - cursor) as u64));
    }
}

// ---------------------------------------------------------------------------
// Dimmed actions say why
// ---------------------------------------------------------------------------

/// An enabled action carries no reason; a dimmed one carries one.
pub open spec fn says_why(a: ActionV) -> bool {
    &&& a.enabled ==> a.reason.len() == 0
    &&& !a.enabled ==> a.reason.len() > 0
}

pub open spec fn all_say_why(s: Seq<ActionV>) -> bool
    decreases s.len(),
{
    s.len() == 0 || (says_why(s.last()) && all_say_why(s.drop_last()))
}

proof fn lemma_all_concat(a: Seq<ActionV>, b: Seq<ActionV>)
    requires
        all_say_why(a),
        all_say_why(b),
    ensures
        all_say_why(a + b),
    decreases b.len(),
{
    if b.len() == 0 {
        assert(a + b =~= a);
    } else {
        lemma_all_concat(a, b.drop_last());
        assert((a + b).drop_last() =~= a + b.drop_last());
        assert((a + b).last() == b.last());
    }
}

proof fn lemma_all_index(s: Seq<ActionV>)
    requires
        all_say_why(s),
    ensures
        forall|i: int| 0 <= i < s.len() ==> says_why(#[trigger] s[i]),
    decreases s.len(),
{
    if s.len() > 0 {
        lemma_all_index(s.drop_last());
        assert forall|i: int| 0 <= i < s.len() implies says_why(#[trigger] s[i]) by {
            if i < s.len() - 1 {
                assert(s[i] == s.drop_last()[i]);
            }
        }
    }
}

proof fn lemma_image_say_why(b: crate::model::Block)
    ensures
        all_say_why(image_actions_spec(b)),
{
    reveal_strlit("Unmount it first");
    reveal_strlit("Device is read-only");
    reveal_with_fuel(all_say_why, 4);
}

proof fn lemma_volume_say_why(bs: Seq<crate::model::Block>, caps: Caps, b: crate::model::Block)
    ensures
        all_say_why(volume_actions_spec(bs, caps, b)),
{
    reveal_strlit("Unmount it first");
    reveal_strlit("Device is read-only");
    reveal_strlit("Volume is locked");
    reveal_strlit("Lock the volume first");
    reveal_strlit("Already mounted");
    reveal_strlit("Not mounted");
    reveal_strlit("Mount the filesystem first");
    reveal_strlit("Swap is already on");
    reveal_strlit("Swap is off");
    reveal_strlit("Formatting tools are missing");
    reveal_strlit("This filesystem cannot be resized");
    reveal_strlit("install ");
    reveal_strlit("Tool is not installed");
    let l = luks_actions(bs, b);
    assert(all_say_why(l)) by {
        reveal_with_fuel(all_say_why, 7);
    }
    let f = fs_actions(caps, b);
    assert(all_say_why(f)) by {
        reveal_with_fuel(all_say_why, 8);
    }
    assert(all_say_why(swap_actions(b))) by {
        reveal_with_fuel(all_say_why, 5);
    }
    assert(all_say_why(loop_actions(b))) by {
        reveal_with_fuel(all_say_why, 2);
    }
    assert(all_say_why(seq![format_action(caps, b)])) by {
        reveal_with_fuel(all_say_why, 2);
    }
    assert(all_say_why(part_actions(caps, b))) by {
        reveal_with_fuel(all_say_why, 4);
    }
    lemma_image_say_why(b);
    assert(all_say_why(seq![crate::model::act(ActionId::Rescan, true, Seq::empty())])) by {
        reveal_with_fuel(all_say_why, 2);
    }
    lemma_all_concat(l, f);
    lemma_all_concat(l + f, swap_actions(b));
    lemma_all_concat(l + f + swap_actions(b), loop_actions(b));
    lemma_all_concat(l + f + swap_actions(b) + loop_actions(b), seq![format_action(caps, b)]);
    lemma_all_concat(
        l + f + swap_actions(b) + loop_actions(b) + seq![format_action(caps, b)],
        part_actions(caps, b));
    lemma_all_concat(
        l + f + swap_actions(b) + loop_actions(b) + seq![format_action(caps, b)] + part_actions(
            caps,
            b,
        ),
        image_actions_spec(b));
    lemma_all_concat(
        l + f + swap_actions(b) + loop_actions(b) + seq![format_action(caps, b)] + part_actions(
            caps,
            b,
        ) + image_actions_spec(b),
        seq![crate::model::act(ActionId::Rescan, true, Seq::empty())]);
}

proof fn lemma_drive_say_why(m: Model, drive: Seq<char>)
    ensures
        all_say_why(drive_actions_spec(m, drive)),
{
    reveal_strlit("No whole-disk device");
    reveal_strlit("Format the disk with a partition table first");
    reveal_strlit("No free space");
    reveal_strlit("This drive does not report SMART");
    reveal_strlit("No ATA settings on this drive");
    reveal_strlit("Power management is not available");
    reveal_strlit("Secure erase is not available");
    reveal_strlit("Not an NVMe controller");
    reveal_strlit("This drive cannot be powered off");
    reveal_strlit("Nothing to eject");
    let disk = crate::select::disk_pick(m.blocks@, drive);
    let a = seq![crate::model::act(ActionId::FormatDisk, disk is Some, "No whole-disk device"@)];
    assert(all_say_why(a)) by {
        reveal_with_fuel(all_say_why, 2);
    }
    let d = disk_section(m, disk);
    match disk {
        Some(x) => {
            lemma_image_say_why(x);
            let c = d.subrange(0, 1);
            assert(all_say_why(c)) by {
                reveal_with_fuel(all_say_why, 2);
            }
            assert(d =~= c + image_actions_spec(x));
            lemma_all_concat(c, image_actions_spec(x));
        },
        None => {},
    }
    let h = hardware_section(crate::select::drive_at(m.drives@, drive));
    assert(all_say_why(h)) by {
        reveal_with_fuel(all_say_why, 10);
    }
    let t = seq![
        crate::model::act(ActionId::AttachImage, true, Seq::empty()),
        crate::model::act(ActionId::RaidCreate, true, Seq::empty()),
    ];
    assert(all_say_why(t)) by {
        reveal_with_fuel(all_say_why, 3);
    }
    let r = if disk is Some {
        seq![crate::model::act(ActionId::Rescan, true, Seq::empty())]
    } else {
        Seq::empty()
    };
    assert(all_say_why(r)) by {
        reveal_with_fuel(all_say_why, 2);
    }
    lemma_all_concat(a, d);
    lemma_all_concat(a + d, h);
    lemma_all_concat(a + d + h, t);
    lemma_all_concat(a + d + h + t, r);
    assert(drive_actions_spec(m, drive) == a + d + h + t + r);
}

/// An action that cannot run stays in the menu and says why: an enabled
/// action carries no reason, and a dimmed one carries a reason.
pub proof fn law_dimmed_actions_say_why(m: Model, caps: Caps, row: RowKindV)
    ensures
        forall|i: int|
            0 <= i < actions_spec(m, caps, row).len() ==> says_why(#[trigger] actions_spec(m, caps, row)[i]),
{
    let s = actions_spec(m, caps, row);
    reveal_strlit("Already running");
    reveal_strlit("Array is stopped");
    match row {
        RowKindV::Shares => {},
        RowKindV::Raid { raid } => {
            assert(all_say_why(s)) by {
                reveal_with_fuel(all_say_why, 5);
            }
        },
        RowKindV::Free { .. } => {
            assert(all_say_why(s)) by {
                reveal_with_fuel(all_say_why, 2);
            }
        },
        RowKindV::Drive { drive } => {
            lemma_drive_say_why(m, drive);
        },
        RowKindV::Volume { block } => {
            match crate::select::block_at(m.blocks@, block) {
                Some(b) => {
                    lemma_volume_say_why(m.blocks@, caps, b);
                },
                None => {},
            }
        },
    }
    lemma_all_index(s);
}


/// Every action with this id in the list is dimmed, with the given reason
/// when one is given.
pub open spec fn dims(s: Seq<ActionV>, id: ActionId, why: Option<Seq<char>>) -> bool
    decreases s.len(),
{
    s.len() == 0 || ((s.last().id == id ==> !s.last().enabled && (why matches Some(r) ==> s.last().reason
        == r)) && dims(s.drop_last(), id, why))
}

proof fn lemma_dims_concat(a: Seq<ActionV>, b: Seq<ActionV>, id: ActionId, why: Option<Seq<char>>)
    requires
        dims(a, id, why),
        dims(b, id, why),
    ensures
        dims(a + b, id, why),
    decreases b.len(),
{
    if b.len() == 0 {
        assert(a + b =~= a);
    } else {
        lemma_dims_concat(a, b.drop_last(), id, why);
        assert((a + b).drop_last() =~= a + b.drop_last());
        assert((a + b).last() == b.last());
    }
}

proof fn lemma_dims_index(s: Seq<ActionV>, id: ActionId, why: Option<Seq<char>>)
    requires
        dims(s, id, why),
    ensures
        forall|i: int|
            0 <= i < s.len() && (#[trigger] s[i]).id == id ==> !s[i].enabled && (why matches Some(r)
                ==> s[i].reason == r),
    decreases s.len(),
{
    if s.len() > 0 {
        lemma_dims_index(s.drop_last(), id, why);
        assert forall|i: int| 0 <= i < s.len() && (#[trigger] s[i]).id == id implies !s[i].enabled && (
        why matches Some(r) ==> s[i].reason == r) by {
            if i < s.len() - 1 {
                assert(s[i] == s.drop_last()[i]);
            }
        }
    }
}

/// The menu of a volume in use dims Delete (saying to unmount first) and
/// Format.
proof fn lemma_volume_dims(bs: Seq<crate::model::Block>, caps: Caps, b: crate::model::Block, id: ActionId, why: Option<Seq<char>>)
    requires
        b.mount_points@.len() > 0 || b.swap_active,
        (id == ActionId::Delete && why == Some("Unmount it first"@)) || (id == ActionId::Format && why
            is None),
    ensures
        dims(volume_actions_spec(bs, caps, b), id, why),
{
    let l = luks_actions(bs, b);
    let f = fs_actions(caps, b);
    let w = swap_actions(b);
    let lp = loop_actions(b);
    let fm = seq![format_action(caps, b)];
    let pa = part_actions(caps, b);
    let im = image_actions_spec(b);
    let rs = seq![crate::model::act(ActionId::Rescan, true, Seq::empty())];
    assert(dims(l, id, why)) by {
        reveal_with_fuel(dims, 7);
    }
    assert(dims(f, id, why)) by {
        reveal_with_fuel(dims, 8);
    }
    assert(dims(w, id, why)) by {
        reveal_with_fuel(dims, 5);
    }
    assert(dims(lp, id, why)) by {
        reveal_with_fuel(dims, 2);
    }
    assert(dims(fm, id, why)) by {
        reveal_with_fuel(dims, 2);
    }
    assert(dims(pa, id, why)) by {
        reveal_with_fuel(dims, 4);
    }
    assert(dims(im, id, why)) by {
        reveal_with_fuel(dims, 4);
    }
    assert(dims(rs, id, why)) by {
        reveal_with_fuel(dims, 2);
    }
    lemma_dims_concat(l, f, id, why);
    lemma_dims_concat(l + f, w, id, why);
    lemma_dims_concat(l + f + w, lp, id, why);
    lemma_dims_concat(l + f + w + lp, fm, id, why);
    lemma_dims_concat(l + f + w + lp + fm, pa, id, why);
    lemma_dims_concat(l + f + w + lp + fm + pa, im, id, why);
    lemma_dims_concat(l + f + w + lp + fm + pa + im, rs, id, why);
}

/// A volume that is mounted somewhere or is active swap cannot be deleted
/// or formatted from its menu: every Delete and Format entry there is
/// dimmed, and Delete says to unmount it first.
pub proof fn law_in_use_volume_keeps_its_data(m: Model, caps: Caps, path: Seq<char>)
    requires
        crate::select::block_at(m.blocks@, path) is Some,
        crate::select::block_at(m.blocks@, path)->0.mount_points@.len() > 0
            || crate::select::block_at(m.blocks@, path)->0.swap_active,
    ensures
        forall|i: int|
            0 <= i < actions_spec(m, caps, RowKindV::Volume { block: path }).len() && (
            #[trigger] actions_spec(m, caps, RowKindV::Volume { block: path })[i]).id
                == ActionId::Delete ==> !actions_spec(m, caps, RowKindV::Volume { block: path })[i].enabled
                && actions_spec(m, caps, RowKindV::Volume { block: path })[i].reason == "Unmount it first"@,
        forall|i: int|
            0 <= i < actions_spec(m, caps, RowKindV::Volume { block: path }).len() && (
            #[trigger] actions_spec(m, caps, RowKindV::Volume { block: path })[i]).id
                == ActionId::Format ==> !actions_spec(m, caps, RowKindV::Volume { block: path })[i].enabled,
{
    let b = crate::select::block_at(m.blocks@, path)->0;
    let s = actions_spec(m, caps, RowKindV::Volume { block: path });
    assert(s == volume_actions_spec(m.blocks@, caps, b));
    lemma_volume_dims(m.blocks@, caps, b, ActionId::Delete, Some("Unmount it first"@));
    lemma_dims_index(s, ActionId::Delete, Some("Unmount it first"@));
    lemma_volume_dims(m.blocks@, caps, b, ActionId::Format, None);
    lemma_dims_index(s, ActionId::Format, None);
}

// ---------------------------------------------------------------------------
// Action labels
// ---------------------------------------------------------------------------

/// The action a menu label names.
pub open spec fn action_of_label(l: Seq<char>) -> Option<ActionId> {
    if l == "Mount"@ {
        Some(ActionId::Mount)
    } else if l == "Unmount"@ {
        Some(ActionId::Unmount)
    } else if l == "Mount options"@ {
        Some(ActionId::MountOptions)
    } else if l == "Edit label"@ {
        Some(ActionId::Label)
    } else if l == "Format"@ {
        Some(ActionId::Format)
    } else if l == "Format disk"@ {
        Some(ActionId::FormatDisk)
    } else if l == "Delete partition"@ {
        Some(ActionId::Delete)
    } else if l == "Create partition"@ {
        Some(ActionId::CreatePartition)
    } else if l == "Resize"@ {
        Some(ActionId::Resize)
    } else if l == "Edit partition"@ {
        Some(ActionId::EditPartition)
    } else if l == "Check filesystem"@ {
        Some(ActionId::Check)
    } else if l == "Repair filesystem"@ {
        Some(ActionId::Repair)
    } else if l == "Take ownership"@ {
        Some(ActionId::TakeOwnership)
    } else if l == "Unlock"@ {
        Some(ActionId::Unlock)
    } else if l == "Lock"@ {
        Some(ActionId::Lock)
    } else if l == "Change passphrase"@ {
        Some(ActionId::ChangePassphrase)
    } else if l == "Back up LUKS header"@ {
        Some(ActionId::HeaderBackup)
    } else if l == "Restore LUKS header"@ {
        Some(ActionId::RestoreHeader)
    } else if l == "Convert LUKS version"@ {
        Some(ActionId::ConvertLuks)
    } else if l == "Enable swap"@ {
        Some(ActionId::SwapOn)
    } else if l == "Disable swap"@ {
        Some(ActionId::SwapOff)
    } else if l == "SMART data"@ {
        Some(ActionId::Smart)
    } else if l == "SMART self-test"@ {
        Some(ActionId::SmartTest)
    } else if l == "Benchmark"@ {
        Some(ActionId::Benchmark)
    } else if l == "Create disk image"@ {
        Some(ActionId::CreateImage)
    } else if l == "Restore disk image"@ {
        Some(ActionId::RestoreImage)
    } else if l == "Drive settings"@ {
        Some(ActionId::DriveSettings)
    } else if l == "Standby"@ {
        Some(ActionId::Standby)
    } else if l == "Wake up"@ {
        Some(ActionId::Wakeup)
    } else if l == "Power off"@ {
        Some(ActionId::PowerOff)
    } else if l == "Eject"@ {
        Some(ActionId::Eject)
    } else if l == "Attach disk image"@ {
        Some(ActionId::AttachImage)
    } else if l == "Detach loop"@ {
        Some(ActionId::DetachLoop)
    } else if l == "Secure erase"@ {
        Some(ActionId::SecureErase)
    } else if l == "NVMe sanitize"@ {
        Some(ActionId::Sanitize)
    } else if l == "Create RAID"@ {
        Some(ActionId::RaidCreate)
    } else if l == "Start RAID"@ {
        Some(ActionId::RaidStart)
    } else if l == "Stop RAID"@ {
        Some(ActionId::RaidStop)
    } else if l == "Delete RAID"@ {
        Some(ActionId::RaidDelete)
    } else if l == "Rescan"@ {
        Some(ActionId::Rescan)
    } else {
        None
    }
}

/// The length and first four characters of each label, which tell the
/// labels apart.
proof fn lemma_label_chars()
    ensures
        "Mount"@.len() == 5 && "Mount"@[0] == 'M' && "Mount"@[1] == 'o' && "Mount"@[2] == 'u' && "Mount"@[3] == 'n',
        "Unmount"@.len() == 7 && "Unmount"@[0] == 'U' && "Unmount"@[1] == 'n' && "Unmount"@[2] == 'm' && "Unmount"@[3] == 'o',
        "Mount options"@.len() == 13 && "Mount options"@[0] == 'M' && "Mount options"@[1] == 'o' && "Mount options"@[2] == 'u' && "Mount options"@[3] == 'n',
        "Edit label"@.len() == 10 && "Edit label"@[0] == 'E' && "Edit label"@[1] == 'd' && "Edit label"@[2] == 'i' && "Edit label"@[3] == 't',
        "Format"@.len() == 6 && "Format"@[0] == 'F' && "Format"@[1] == 'o' && "Format"@[2] == 'r' && "Format"@[3] == 'm',
        "Format disk"@.len() == 11 && "Format disk"@[0] == 'F' && "Format disk"@[1] == 'o' && "Format disk"@[2] == 'r' && "Format disk"@[3] == 'm',
        "Delete partition"@.len() == 16 && "Delete partition"@[0] == 'D' && "Delete partition"@[1] == 'e' && "Delete partition"@[2] == 'l' && "Delete partition"@[3] == 'e',
        "Create partition"@.len() == 16 && "Create partition"@[0] == 'C' && "Create partition"@[1] == 'r' && "Create partition"@[2] == 'e' && "Create partition"@[3] == 'a',
        "Resize"@.len() == 6 && "Resize"@[0] == 'R' && "Resize"@[1] == 'e' && "Resize"@[2] == 's' && "Resize"@[3] == 'i',
        "Edit partition"@.len() == 14 && "Edit partition"@[0] == 'E' && "Edit partition"@[1] == 'd' && "Edit partition"@[2] == 'i' && "Edit partition"@[3] == 't',
        "Check filesystem"@.len() == 16 && "Check filesystem"@[0] == 'C' && "Check filesystem"@[1] == 'h' && "Check filesystem"@[2] == 'e' && "Check filesystem"@[3] == 'c',
        "Repair filesystem"@.len() == 17 && "Repair filesystem"@[0] == 'R' && "Repair filesystem"@[1] == 'e' && "Repair filesystem"@[2] == 'p' && "Repair filesystem"@[3] == 'a',
        "Take ownership"@.len() == 14 && "Take ownership"@[0] == 'T' && "Take ownership"@[1] == 'a' && "Take ownership"@[2] == 'k' && "Take ownership"@[3] == 'e',
        "Unlock"@.len() == 6 && "Unlock"@[0] == 'U' && "Unlock"@[1] == 'n' && "Unlock"@[2] == 'l' && "Unlock"@[3] == 'o',
        "Lock"@.len() == 4 && "Lock"@[0] == 'L' && "Lock"@[1] == 'o' && "Lock"@[2] == 'c' && "Lock"@[3] == 'k',
        "Change passphrase"@.len() == 17 && "Change passphrase"@[0] == 'C' && "Change passphrase"@[1] == 'h' && "Change passphrase"@[2] == 'a' && "Change passphrase"@[3] == 'n',
        "Back up LUKS header"@.len() == 19 && "Back up LUKS header"@[0] == 'B' && "Back up LUKS header"@[1] == 'a' && "Back up LUKS header"@[2] == 'c' && "Back up LUKS header"@[3] == 'k',
        "Restore LUKS header"@.len() == 19 && "Restore LUKS header"@[0] == 'R' && "Restore LUKS header"@[1] == 'e' && "Restore LUKS header"@[2] == 's' && "Restore LUKS header"@[3] == 't',
        "Convert LUKS version"@.len() == 20 && "Convert LUKS version"@[0] == 'C' && "Convert LUKS version"@[1] == 'o' && "Convert LUKS version"@[2] == 'n' && "Convert LUKS version"@[3] == 'v',
        "Enable swap"@.len() == 11 && "Enable swap"@[0] == 'E' && "Enable swap"@[1] == 'n' && "Enable swap"@[2] == 'a' && "Enable swap"@[3] == 'b',
        "Disable swap"@.len() == 12 && "Disable swap"@[0] == 'D' && "Disable swap"@[1] == 'i' && "Disable swap"@[2] == 's' && "Disable swap"@[3] == 'a',
        "SMART data"@.len() == 10 && "SMART data"@[0] == 'S' && "SMART data"@[1] == 'M' && "SMART data"@[2] == 'A' && "SMART data"@[3] == 'R',
        "SMART self-test"@.len() == 15 && "SMART self-test"@[0] == 'S' && "SMART self-test"@[1] == 'M' && "SMART self-test"@[2] == 'A' && "SMART self-test"@[3] == 'R',
        "Benchmark"@.len() == 9 && "Benchmark"@[0] == 'B' && "Benchmark"@[1] == 'e' && "Benchmark"@[2] == 'n' && "Benchmark"@[3] == 'c',
        "Create disk image"@.len() == 17 && "Create disk image"@[0] == 'C' && "Create disk image"@[1] == 'r' && "Create disk image"@[2] == 'e' && "Create disk image"@[3] == 'a',
        "Restore disk image"@.len() == 18 && "Restore disk image"@[0] == 'R' && "Restore disk image"@[1] == 'e' && "Restore disk image"@[2] == 's' && "Restore disk image"@[3] == 't',
        "Drive settings"@.len() == 14 && "Drive settings"@[0] == 'D' && "Drive settings"@[1] == 'r' && "Drive settings"@[2] == 'i' && "Drive settings"@[3] == 'v',
        "Standby"@.len() == 7 && "Standby"@[0] == 'S' && "Standby"@[1] == 't' && "Standby"@[2] == 'a' && "Standby"@[3] == 'n',
        "Wake up"@.len() == 7 && "Wake up"@[0] == 'W' && "Wake up"@[1] == 'a' && "Wake up"@[2] == 'k' && "Wake up"@[3] == 'e',
        "Power off"@.len() == 9 && "Power off"@[0] == 'P' && "Power off"@[1] == 'o' && "Power off"@[2] == 'w' && "Power off"@[3] == 'e',
        "Eject"@.len() == 5 && "Eject"@[0] == 'E' && "Eject"@[1] == 'j' && "Eject"@[2] == 'e' && "Eject"@[3] == 'c',
        "Attach disk image"@.len() == 17 && "Attach disk image"@[0] == 'A' && "Attach disk image"@[1] == 't' && "Attach disk image"@[2] == 't' && "Attach disk image"@[3] == 'a',
        "Detach loop"@.len() == 11 && "Detach loop"@[0] == 'D' && "Detach loop"@[1] == 'e' && "Detach loop"@[2] == 't' && "Detach loop"@[3] == 'a',
        "Secure erase"@.len() == 12 && "Secure erase"@[0] == 'S' && "Secure erase"@[1] == 'e' && "Secure erase"@[2] == 'c' && "Secure erase"@[3] == 'u',
        "NVMe sanitize"@.len() == 13 && "NVMe sanitize"@[0] == 'N' && "NVMe sanitize"@[1] == 'V' && "NVMe sanitize"@[2] == 'M' && "NVMe sanitize"@[3] == 'e',
        "Create RAID"@.len() == 11 && "Create RAID"@[0] == 'C' && "Create RAID"@[1] == 'r' && "Create RAID"@[2] == 'e' && "Create RAID"@[3] == 'a',
        "Start RAID"@.len() == 10 && "Start RAID"@[0] == 'S' && "Start RAID"@[1] == 't' && "Start RAID"@[2] == 'a' && "Start RAID"@[3] == 'r',
        "Stop RAID"@.len() == 9 && "Stop RAID"@[0] == 'S' && "Stop RAID"@[1] == 't' && "Stop RAID"@[2] == 'o' && "Stop RAID"@[3] == 'p',
        "Delete RAID"@.len() == 11 && "Delete RAID"@[0] == 'D' && "Delete RAID"@[1] == 'e' && "Delete RAID"@[2] == 'l' && "Delete RAID"@[3] == 'e',
        "Rescan"@.len() == 6 && "Rescan"@[0] == 'R' && "Rescan"@[1] == 'e' && "Rescan"@[2] == 's' && "Rescan"@[3] == 'c',
{
    reveal_strlit("Mount");
    reveal_strlit("Unmount");
    reveal_strlit("Mount options");
    reveal_strlit("Edit label");
    reveal_strlit("Format");
    reveal_strlit("Format disk");
    reveal_strlit("Delete partition");
    reveal_strlit("Create partition");
    reveal_strlit("Resize");
    reveal_strlit("Edit partition");
    reveal_strlit("Check filesystem");
    reveal_strlit("Repair filesystem");
    reveal_strlit("Take ownership");
    reveal_strlit("Unlock");
    reveal_strlit("Lock");
    reveal_strlit("Change passphrase");
    reveal_strlit("Back up LUKS header");
    reveal_strlit("Restore LUKS header");
    reveal_strlit("Convert LUKS version");
    reveal_strlit("Enable swap");
    reveal_strlit("Disable swap");
    reveal_strlit("SMART data");
    reveal_strlit("SMART self-test");
    reveal_strlit("Benchmark");
    reveal_strlit("Create disk image");
    reveal_strlit("Restore disk image");
    reveal_strlit("Drive settings");
    reveal_strlit("Standby");
    reveal_strlit("Wake up");
    reveal_strlit("Power off");
    reveal_strlit("Eject");
    reveal_strlit("Attach disk image");
    reveal_strlit("Detach loop");
    reveal_strlit("Secure erase");
    reveal_strlit("NVMe sanitize");
    reveal_strlit("Create RAID");
    reveal_strlit("Start RAID");
    reveal_strlit("Stop RAID");
    reveal_strlit("Delete RAID");
    reveal_strlit("Rescan");
}

proof fn lemma_label_names(a: ActionId)
    ensures
        action_of_label(label_spec(a)) == Some(a),
        label_spec(a).len() > 0,
{
    lemma_label_chars();
}

/// Every action has a label of its own: no label is empty, and two
/// different actions never share one.
pub proof fn law_labels_distinct(a: ActionId, b: ActionId)
    ensures
        label_spec(a).len() > 0,
        a != b ==> label_spec(a) != label_spec(b),
{
    lemma_label_names(a);
    lemma_label_names(b);
}


// ---------------------------------------------------------------------------
// Partition types
// ---------------------------------------------------------------------------

/// Lengths and leading characters that tell the type names and codes apart.
proof fn lemma_type_chars()
    ensures
        "Linux filesystem"@.len() == 16 && "Linux filesystem"@[0] == 'L' && "Linux filesystem"@[1] == 'i' && "Linux filesystem"@[2] == 'n' && "Linux filesystem"@[3] == 'u' && "Linux filesystem"@[4] == 'x' && "Linux filesystem"@[5] == ' ' && "Linux filesystem"@[6] == 'f',
        "0fc63daf-8483-4772-8e79-3d69d8477de4"@.len() == 36 && "0fc63daf-8483-4772-8e79-3d69d8477de4"@[0] == '0' && "0fc63daf-8483-4772-8e79-3d69d8477de4"@[1] == 'f',
        "0x83"@.len() == 4,
        "Linux home"@.len() == 10 && "Linux home"@[0] == 'L' && "Linux home"@[1] == 'i' && "Linux home"@[2] == 'n' && "Linux home"@[3] == 'u' && "Linux home"@[4] == 'x' && "Linux home"@[5] == ' ' && "Linux home"@[6] == 'h',
        "933ac7e1-2eb4-4f13-b844-0e14e2aef915"@.len() == 36 && "933ac7e1-2eb4-4f13-b844-0e14e2aef915"@[0] == '9' && "933ac7e1-2eb4-4f13-b844-0e14e2aef915"@[1] == '3',
        "0x83"@.len() == 4,
        "Linux swap"@.len() == 10 && "Linux swap"@[0] == 'L' && "Linux swap"@[1] == 'i' && "Linux swap"@[2] == 'n' && "Linux swap"@[3] == 'u' && "Linux swap"@[4] == 'x' && "Linux swap"@[5] == ' ' && "Linux swap"@[6] == 's',
        "0657fd6d-a4ab-43c4-84e5-0933c84b4f4f"@.len() == 36 && "0657fd6d-a4ab-43c4-84e5-0933c84b4f4f"@[0] == '0' && "0657fd6d-a4ab-43c4-84e5-0933c84b4f4f"@[1] == '6',
        "0x82"@.len() == 4,
        "EFI system"@.len() == 10 && "EFI system"@[0] == 'E' && "EFI system"@[1] == 'F' && "EFI system"@[2] == 'I' && "EFI system"@[3] == ' ' && "EFI system"@[4] == 's' && "EFI system"@[5] == 'y' && "EFI system"@[6] == 's',
        "c12a7328-f81f-11d2-ba4b-00a0c93ec93b"@.len() == 36 && "c12a7328-f81f-11d2-ba4b-00a0c93ec93b"@[0] == 'c' && "c12a7328-f81f-11d2-ba4b-00a0c93ec93b"@[1] == '1',
        "0xef"@.len() == 4,
        "BIOS boot"@.len() == 9 && "BIOS boot"@[0] == 'B' && "BIOS boot"@[1] == 'I' && "BIOS boot"@[2] == 'O' && "BIOS boot"@[3] == 'S' && "BIOS boot"@[4] == ' ' && "BIOS boot"@[5] == 'b' && "BIOS boot"@[6] == 'o',
        "21686148-6449-6e6f-744e-656564454649"@.len() == 36 && "21686148-6449-6e6f-744e-656564454649"@[0] == '2' && "21686148-6449-6e6f-744e-656564454649"@[1] == '1',
        "0x00"@.len() == 4,
        "Microsoft basic data"@.len() == 20 && "Microsoft basic data"@[0] == 'M' && "Microsoft basic data"@[1] == 'i' && "Microsoft basic data"@[2] == 'c' && "Microsoft basic data"@[3] == 'r' && "Microsoft basic data"@[4] == 'o' && "Microsoft basic data"@[5] == 's' && "Microsoft basic data"@[6] == 'o',
        "ebd0a0a2-b9e5-4433-87c0-68b6b72699c7"@.len() == 36 && "ebd0a0a2-b9e5-4433-87c0-68b6b72699c7"@[0] == 'e' && "ebd0a0a2-b9e5-4433-87c0-68b6b72699c7"@[1] == 'b',
        "0x07"@.len() == 4,
        "Linux LVM"@.len() == 9 && "Linux LVM"@[0] == 'L' && "Linux LVM"@[1] == 'i' && "Linux LVM"@[2] == 'n' && "Linux LVM"@[3] == 'u' && "Linux LVM"@[4] == 'x' && "Linux LVM"@[5] == ' ' && "Linux LVM"@[6] == 'L',
        "e6d6d379-f507-44c2-a23c-238f2a3df928"@.len() == 36 && "e6d6d379-f507-44c2-a23c-238f2a3df928"@[0] == 'e' && "e6d6d379-f507-44c2-a23c-238f2a3df928"@[1] == '6',
        "0x8e"@.len() == 4,
        "Linux RAID"@.len() == 10 && "Linux RAID"@[0] == 'L' && "Linux RAID"@[1] == 'i' && "Linux RAID"@[2] == 'n' && "Linux RAID"@[3] == 'u' && "Linux RAID"@[4] == 'x' && "Linux RAID"@[5] == ' ' && "Linux RAID"@[6] == 'R',
        "a19d880f-05fc-4d3b-a006-743f0f84911e"@.len() == 36 && "a19d880f-05fc-4d3b-a006-743f0f84911e"@[0] == 'a' && "a19d880f-05fc-4d3b-a006-743f0f84911e"@[1] == '1',
        "0xfd"@.len() == 4,
{
    reveal_strlit("Linux filesystem");
    reveal_strlit("0fc63daf-8483-4772-8e79-3d69d8477de4");
    reveal_strlit("0x83");
    reveal_strlit("Linux home");
    reveal_strlit("933ac7e1-2eb4-4f13-b844-0e14e2aef915");
    reveal_strlit("Linux swap");
    reveal_strlit("0657fd6d-a4ab-43c4-84e5-0933c84b4f4f");
    reveal_strlit("0x82");
    reveal_strlit("EFI system");
    reveal_strlit("c12a7328-f81f-11d2-ba4b-00a0c93ec93b");
    reveal_strlit("0xef");
    reveal_strlit("BIOS boot");
    reveal_strlit("21686148-6449-6e6f-744e-656564454649");
    reveal_strlit("0x00");
    reveal_strlit("Microsoft basic data");
    reveal_strlit("ebd0a0a2-b9e5-4433-87c0-68b6b72699c7");
    reveal_strlit("0x07");
    reveal_strlit("Linux LVM");
    reveal_strlit("e6d6d379-f507-44c2-a23c-238f2a3df928");
    reveal_strlit("0x8e");
    reveal_strlit("Linux RAID");
    reveal_strlit("a19d880f-05fc-4d3b-a006-743f0f84911e");
    reveal_strlit("0xfd");
}

/// The GUIDs hold no upper-case letter and no whitespace, so reading them
/// (trimmed, lower-cased) gives them back.
proof fn lemma_guids_plain(i: int)
    requires
        0 <= i < 8,
    ensures
        lower_seq(trim(part_type_spec(i).1)) == part_type_spec(i).1,
{
    reveal_strlit("0fc63daf-8483-4772-8e79-3d69d8477de4");
    reveal_strlit("933ac7e1-2eb4-4f13-b844-0e14e2aef915");
    reveal_strlit("0657fd6d-a4ab-43c4-84e5-0933c84b4f4f");
    reveal_strlit("c12a7328-f81f-11d2-ba4b-00a0c93ec93b");
    reveal_strlit("21686148-6449-6e6f-744e-656564454649");
    reveal_strlit("ebd0a0a2-b9e5-4433-87c0-68b6b72699c7");
    reveal_strlit("e6d6d379-f507-44c2-a23c-238f2a3df928");
    reveal_strlit("a19d880f-05fc-4d3b-a006-743f0f84911e");
    let g = part_type_spec(i).1;
    assert(forall|j: int| 0 <= j < g.len() ==> !is_ws(#[trigger] g[j]) && !('A' <= g[j] && g[j] <= 'Z'));
    assert(g.len() == 36);
    assert(ltrim(g) == g);
    assert(rtrim(g) == g);
    assert(lower_seq(g) =~= g);
}

proof fn lemma_type_index(i: int)
    requires
        0 <= i < 8,
    ensures
        type_index_from(part_type_spec(i).0, 0) == i,
        type_label_from(part_type_spec(i).1, 0) == Some(part_type_spec(i).0),
{
    lemma_type_chars();
    reveal_with_fuel(type_index_from, 9);
    reveal_with_fuel(type_label_from, 9);
}

/// A known type survives the trip through its code: in any table but `dos`
/// the code chosen for the type's label is its GUID; that GUID reads the
/// same trimmed and lower-cased; and any code that reads as that GUID once
/// trimmed and lower-cased (so the GUID in any case, with any surrounding
/// spaces) gives back the type's label.
pub proof fn law_partition_type_round_trip(i: int, table: Seq<char>)
    requires
        0 <= i < 8,
        table != "dos"@,
    ensures
        type_code_for_spec(table, part_type_spec(i).0) == part_type_spec(i).1,
        lower_seq(trim(part_type_spec(i).1)) == part_type_spec(i).1,
        partition_type_label_spec(part_type_spec(i).1) == part_type_spec(i).0,
        forall|code: Seq<char>|
            lower_seq(trim(code)) == part_type_spec(i).1 ==> #[trigger] partition_type_label_spec(code)
                == part_type_spec(i).0,
{
    lemma_type_index(i);
    lemma_guids_plain(i);
}

} // verus!
