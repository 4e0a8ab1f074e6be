//! The device tree: drives with their disks and partitions, other volumes,
//! arrays, and the network shares entry.

use vstd::prelude::*;

use crate::model::{drive_label, drive_label_spec, raid_name, raid_name_spec, row_views, seg_views, segments, segments_spec, volume_label, volume_label_spec, Block, Drive, Model, Raid, Row, RowKind, RowKindV, RowV, SegV, is_set, is_set_spec};
use crate::select::{block_at, busy, cleartext_at, disk_pick, part_entries, tree_mounted_spec};
use crate::text::{chars_of, same_str};

verus! {

// ---------------------------------------------------------------------------
// Drive order
// ---------------------------------------------------------------------------

/// Lexicographic order of texts: negative, zero or positive. `String`'s
/// order compares UTF-8 bytes, which orders code points the same way.
pub open spec fn lex_sign(a: Seq<char>, b: Seq<char>) -> int
    decreases a.len(),
{
    if a.len() == 0 {
        if b.len() == 0 {
            0
        } else {
            -1
        }
    } else if b.len() == 0 {
        1
    } else if a[0] < b[0] {
        -1
    } else if a[0] > b[0] {
        1
    } else {
        lex_sign(a.drop_first(), b.drop_first())
    }
}

/// Drives are listed by sort key, then by object path.
pub open spec fn drive_le(a: Drive, b: Drive) -> bool {
    let k = lex_sign(a.sort_key@, b.sort_key@);
    k < 0 || (k == 0 && lex_sign(a.path@, b.path@) <= 0)
}

/// Stable insertion: after every drive that is not ordered after it.
pub open spec fn ins_drive(s: Seq<Drive>, x: Drive) -> Seq<Drive>
    decreases s.len(),
{
    if s.len() == 0 {
        seq![x]
    } else if drive_le(s.last(), x) {
        s.push(x)
    } else {
        ins_drive(s.drop_last(), x).push(s.last())
    }
}

/// `sort_by` on (sort key, path): a stable sort.
pub open spec fn sort_drives(s: Seq<Drive>) -> Seq<Drive>
    decreases s.len(),
{
    if s.len() == 0 {
        s
    } else {
        ins_drive(sort_drives(s.drop_last()), s.last())
    }
}

fn lex_sign_chars(a: &[char], b: &[char]) -> (r: i8)
    ensures
        r as int == lex_sign(a@, b@),
{
    let mut i: usize = 0;
    assert(a@.skip(0) =~= a@);
    assert(b@.skip(0) =~= b@);
    while i < a.len() && i < b.len() && a[i] == b[i]
        invariant
            i <= a@.len(),
            i <= b@.len(),
            lex_sign(a@, b@) == lex_sign(a@.skip(i as int), b@.skip(i as int)),
        decreases a@.len() - i,
    {
        assert(a@.skip(i as int).drop_first() =~= a@.skip(i + 1));
        assert(b@.skip(i as int).drop_first() =~= b@.skip(i + 1));
        i = i + 1;
    }
    if i == a.len() {
        if i == b.len() {
            0
        } else {
            -1
        }
    } else if i == b.len() {
        1
    } else if a[i] < b[i] {
        -1
    } else {
        1
    }
}

fn drive_le_exec(a: &Drive, b: &Drive) -> (r: bool)
    ensures
        r == drive_le(*a, *b),
{
    let ak = chars_of(a.sort_key.as_str());
    let bk = chars_of(b.sort_key.as_str());
    let k = lex_sign_chars(ak.as_slice(), bk.as_slice());
    if k < 0 {
        return true;
    }
    if k > 0 {
        return false;
    }
    let ap = chars_of(a.path.as_str());
    let bp = chars_of(b.path.as_str());
    lex_sign_chars(ap.as_slice(), bp.as_slice()) <= 0
}

proof fn lemma_ins_drive_at(s: Seq<Drive>, x: Drive, p: int)
    requires
        0 <= p <= s.len(),
        forall|j: int| p <= j < s.len() ==> !drive_le(#[trigger] s[j], x),
        p == 0 || drive_le(s[p - 1], x),
    ensures
        ins_drive(s, x) == s.subrange(0, p).push(x) + s.subrange(p, s.len() as int),
    decreases s.len(),
{
    if s.len() == 0 {
        assert(s.subrange(0, p).push(x) + s.subrange(p, s.len() as int) =~= seq![x]);
    } else if p == s.len() {
        assert(s.subrange(0, p) =~= s);
        assert(s.subrange(0, p).push(x) + s.subrange(p, s.len() as int) =~= s.push(x));
    } else {
        assert(!drive_le(s[s.len() - 1], x));
        lemma_ins_drive_at(s.drop_last(), x, p);
        assert(s.drop_last().subrange(0, p) =~= s.subrange(0, p));
        assert((s.subrange(0, p).push(x) + s.drop_last().subrange(p, s.len() - 1)).push(s.last())
            =~= s.subrange(0, p).push(x) + s.subrange(p, s.len() as int));
    }
}

pub open spec fn derefs(v: Seq<&Drive>) -> Seq<Drive> {
    v.map_values(|d: &Drive| *d)
}

fn sorted_drives(drives: &Vec<Drive>) -> (r: Vec<&Drive>)
    ensures
        derefs(r@) == sort_drives(drives@),
{
    let mut r: Vec<&Drive> = Vec::new();
    let mut i: usize = 0;
    while i < drives.len()
        invariant
            i <= drives@.len(),
            derefs(r@) == sort_drives(drives@.subrange(0, i as int)),
        decreases drives@.len() - i,
    {
        let x = &drives[i];
        let ghost sv = derefs(r@);
        let mut p = r.len();
        while p > 0 && !drive_le_exec(r[p - 1], x)
            invariant
                p <= r@.len(),
                sv == derefs(r@),
                forall|j: int| p <= j < r@.len() ==> !drive_le(#[trigger] sv[j], *x),
            decreases p,
        {
            p = p - 1;
        }
        proof {
            lemma_ins_drive_at(sv, *x, p as int);
        }
        r.insert(p, x);
        proof {
            let pv = drives@.subrange(0, i + 1);
            assert(pv.drop_last() =~= drives@.subrange(0, i as int));
            assert(pv.last() == *x);
            assert(derefs(r@) =~= sv.subrange(0, p as int).push(*x) + sv.subrange(
                p as int,
                sv.len() as int,
            ));
        }
        i = i + 1;
    }
    assert(drives@.subrange(0, drives@.len() as int) =~= drives@);
    r
}

// ---------------------------------------------------------------------------
// Rows
// ---------------------------------------------------------------------------

/// The rows built so far and the paths already shown.
pub type TreeState = (Seq<RowV>, Seq<Seq<char>>);

pub open spec fn str_views(v: Seq<String>) -> Seq<Seq<char>> {
    v.map_values(|s: String| s@)
}

pub open spec fn vol_row(path: Seq<char>, depth: u8, label: Seq<char>, size: u64, mounted: bool) -> RowV {
    RowV { kind: RowKindV::Volume { block: path }, depth, label, size: Some(size), mounted }
}

pub open spec fn free_row(disk: Seq<char>, start: u64, size: u64) -> RowV {
    RowV {
        kind: RowKindV::Free { disk, start, size },
        depth: 1,
        label: "Free space"@,
        size: Some(size),
        mounted: false,
    }
}

/// One segment of a disk: free space, or the partition and, below it, the
/// device unlocked from it.
pub open spec fn child_step(bs: Seq<Block>, disk: Seq<char>, st: TreeState, seg: SegV) -> TreeState {
    if seg.free {
        (st.0.push(free_row(disk, seg.start, seg.size)), st.1)
    } else {
        match seg.block {
            None => st,
            Some(path) => match block_at(bs, path) {
                None => st,
                Some(b) => {
                    let rows = st.0.push(vol_row(path, 1, volume_label_spec(b), b.size, busy(b)));
                    let used = st.1.push(path);
                    match cleartext_at(bs, path) {
                        Some(c) => (
                            rows.push(
                                vol_row(
                                    c.path@,
                                    2,
                                    "unlocked "@ + volume_label_spec(c),
                                    c.size,
                                    c.mount_points@.len() > 0,
                                ),
                            ),
                            used.push(c.path@),
                        ),
                        None => (rows, used),
                    }
                },
            },
        }
    }
}

pub open spec fn children_fold(bs: Seq<Block>, disk: Seq<char>, segs: Seq<SegV>, n: int, st: TreeState) -> TreeState
    decreases n,
{
    if n <= 0 {
        st
    } else {
        child_step(bs, disk, children_fold(bs, disk, segs, n - 1, st), segs[n - 1])
    }
}

/// The rows below a partitioned disk, following its map.
pub open spec fn children_spec(bs: Seq<Block>, disk: Block, st: TreeState) -> TreeState {
    if disk.table is None {
        st
    } else {
        let segs = segments_spec(disk.size, part_entries(bs, disk.path@));
        children_fold(bs, disk.path@, segs, segs.len() as int, st)
    }
}

/// A drive, sized by the larger of the drive and its disk, then its tree.
pub open spec fn drive_step(bs: Seq<Block>, st: TreeState, dr: Drive) -> TreeState {
    let disk = disk_pick(bs, dr.path@);
    let mounted = disk is Some && tree_mounted_spec(bs, disk->0.path@);
    let disk_size: u64 = match disk {
        Some(d) => d.size,
        None => 0,
    };
    let size = if dr.size >= disk_size {
        dr.size
    } else {
        disk_size
    };
    let row = RowV {
        kind: RowKindV::Drive { drive: dr.path@ },
        depth: 0,
        label: drive_label_spec(dr),
        size: Some(size),
        mounted,
    };
    match disk {
        Some(d) => children_spec(bs, d, (st.0.push(row), st.1.push(d.path@))),
        None => (st.0.push(row), st.1),
    }
}

pub open spec fn drive_fold(bs: Seq<Block>, ds: Seq<Drive>, n: int, st: TreeState) -> TreeState
    decreases n,
{
    if n <= 0 {
        st
    } else {
        drive_step(bs, drive_fold(bs, ds, n - 1, st), ds[n - 1])
    }
}

/// A block not shown yet: loop devices, arrays and unpartitioned devices get
/// a top-level row, with their partitions when they carry a table.
pub open spec fn block_step(bs: Seq<Block>, st: TreeState, b: Block) -> TreeState {
    if st.1.contains(b.path@) || b.hint_ignore || is_set_spec(b.crypto_backing@) || !(b.loopback
        || is_set_spec(b.mdraid@) || b.partition is None) {
        st
    } else {
        let rows = st.0.push(
            vol_row(b.path@, 0, volume_label_spec(b), b.size, tree_mounted_spec(bs, b.path@)),
        );
        let used = st.1.push(b.path@);
        if b.table is Some {
            children_spec(bs, b, (rows, used))
        } else {
            (rows, used)
        }
    }
}

pub open spec fn block_fold(bs: Seq<Block>, n: int, st: TreeState) -> TreeState
    decreases n,
{
    if n <= 0 {
        st
    } else {
        block_step(bs, block_fold(bs, n - 1, st), bs[n - 1])
    }
}

pub open spec fn raid_row(r: Raid) -> RowV {
    RowV {
        kind: RowKindV::Raid { raid: r.path@ },
        depth: 0,
        label: r.level@ + " "@ + raid_name_spec(r),
        size: Some(r.size),
        mounted: r.running,
    }
}

pub open spec fn shares_row() -> RowV {
    RowV { kind: RowKindV::Shares, depth: 0, label: "Network shares"@, size: None, mounted: false }
}

/// The whole tree: drives in order with their disks, the volumes not shown
/// under a drive, the arrays, and the shares entry last.
pub open spec fn rows_spec(m: Model) -> Seq<RowV> {
    let bs = m.blocks@;
    let ds = sort_drives(m.drives@);
    let st1 = drive_fold(bs, ds, ds.len() as int, (Seq::empty(), Seq::empty()));
    let st2 = block_fold(bs, bs.len() as int, st1);
    st2.0 + m.raids@.map_values(|r: Raid| raid_row(r)) + seq![shares_row()]
}

fn used_contains(used: &Vec<String>, path: &str) -> (r: bool)
    ensures
        r == str_views(used@).contains(path@),
{
    let mut i: usize = 0;
    while i < used.len()
        invariant
            i <= used@.len(),
            forall|j: int| 0 <= j < i ==> used@[j]@ != path@,
        decreases used@.len() - i,
    {
        if same_str(used[i].as_str(), path) {
            assert(str_views(used@)[i as int] == path@);
            return true;
        }
        i = i + 1;
    }
    assert forall|j: int| 0 <= j < str_views(used@).len() implies str_views(used@)[j] != path@ by {
        assert(str_views(used@)[j] == used@[j]@);
    }
    false
}

fn push_row(rows: &mut Vec<Row>, row: Row)
    ensures
        row_views(final(rows)@) == row_views(old(rows)@).push(row@),
{
    let ghost pre = row_views(rows@);
    rows.push(row);
    assert(row_views(rows@) =~= pre.push(row@));
}

fn push_used(used: &mut Vec<String>, path: String)
    ensures
        str_views(final(used)@) == str_views(old(used)@).push(path@),
{
    let ghost pre = str_views(used@);
    used.push(path);
    assert(str_views(used@) =~= pre.push(path@));
}

impl Model {
    fn push_child(&self, rows: &mut Vec<Row>, disk: &Block, seg: &crate::model::Segment, used: &mut Vec<String>)
        ensures
            (row_views(final(rows)@), str_views(final(used)@)) == child_step(
                self.blocks@,
                disk.path@,
                (row_views(old(rows)@), str_views(old(used)@)),
                seg@,
            ),
    {
        if seg.free {
            push_row(
                rows,
                Row {
                    kind: RowKind::Free { disk: disk.path.clone(), start: seg.start, size: seg.size },
                    depth: 1,
                    label: String::from_str("Free space"),
                    size: Some(seg.size),
                    mounted: false,
                },
            );
            return ;
        }
        let path = match &seg.block {
            Some(p) => p,
            None => return ,
        };
        let block = match self.block(path.as_str()) {
            Some(b) => b,
            None => return ,
        };
        push_row(
            rows,
            Row {
                kind: RowKind::Volume { block: path.clone() },
                depth: 1,
                label: volume_label(block),
                size: Some(block.size),
                mounted: !block.mount_points.is_empty() || block.swap_active,
            },
        );
        push_used(used, path.clone());
        match self.cleartext_of(path.as_str()) {
            Some(clear) => {
                push_used(used, clear.path.clone());
                let label = String::from_str("unlocked ").concat(volume_label(clear).as_str());
                push_row(
                    rows,
                    Row {
                        kind: RowKind::Volume { block: clear.path.clone() },
                        depth: 2,
                        label,
                        size: Some(clear.size),
                        mounted: !clear.mount_points.is_empty(),
                    },
                );
            },
            None => {},
        }
    }

    fn push_disk_children(&self, rows: &mut Vec<Row>, disk: &Block, used: &mut Vec<String>)
        ensures
            (row_views(final(rows)@), str_views(final(used)@)) == children_spec(
                self.blocks@,
                *disk,
                (row_views(old(rows)@), str_views(old(used)@)),
            ),
    {
        if disk.table.is_none() {
            return ;
        }
        let spec = self.part_entries_of(disk.path.as_str());
        let segs = segments(disk.size, spec.as_slice());
        let ghost sv = seg_views(segs@);
        let ghost st0 = (row_views(rows@), str_views(used@));
        let mut i: usize = 0;
        while i < segs.len()
            invariant
                i <= segs@.len(),
                sv == seg_views(segs@),
                sv == segments_spec(disk.size, part_entries(self.blocks@, disk.path@)),
                (row_views(rows@), str_views(used@)) == children_fold(
                    self.blocks@,
                    disk.path@,
                    sv,
                    i as int,
                    st0,
                ),
            decreases segs@.len() - i,
        {
            assert(sv[i as int] == segs@[i as int]@);
            self.push_child(rows, disk, &segs[i], used);
            i = i + 1;
        }
    }

    fn push_drive(&self, rows: &mut Vec<Row>, drive: &Drive, used: &mut Vec<String>)
        ensures
            (row_views(final(rows)@), str_views(final(used)@)) == drive_step(
                self.blocks@,
                (row_views(old(rows)@), str_views(old(used)@)),
                *drive,
            ),
    {
        let disk = self.disk_for_drive(drive.path.as_str());
        let mounted = match disk {
            Some(d) => self.tree_mounted(d.path.as_str()),
            None => false,
        };
        let disk_size: u64 = match disk {
            Some(d) => d.size,
            None => 0,
        };
        let size = if drive.size >= disk_size {
            drive.size
        } else {
            disk_size
        };
        push_row(
            rows,
            Row {
                kind: RowKind::Drive { drive: drive.path.clone() },
                depth: 0,
                label: drive_label(drive),
                size: Some(size),
                mounted,
            },
        );
        match disk {
            Some(d) => {
                push_used(used, d.path.clone());
                self.push_disk_children(rows, d, used);
            },
            None => {},
        }
    }

    fn push_block(&self, rows: &mut Vec<Row>, block: &Block, used: &mut Vec<String>)
        ensures
            (row_views(final(rows)@), str_views(final(used)@)) == block_step(
                self.blocks@,
                (row_views(old(rows)@), str_views(old(used)@)),
                *block,
            ),
    {
        if used_contains(used, block.path.as_str()) || block.hint_ignore {
            return ;
        }
        if is_set(block.crypto_backing.as_str()) {
            return ;
        }
        let show = block.loopback || is_set(block.mdraid.as_str()) || block.partition.is_none();
        if !show {
            return ;
        }
        push_used(used, block.path.clone());
        push_row(
            rows,
            Row {
                kind: RowKind::Volume { block: block.path.clone() },
                depth: 0,
                label: volume_label(block),
                size: Some(block.size),
                mounted: self.tree_mounted(block.path.as_str()),
            },
        );
        if block.table.is_some() {
            self.push_disk_children(rows, block, used);
        }
    }

    pub fn rows(&self) -> (r: Vec<Row>)
        ensures
            row_views(r@) == rows_spec(*self),
    {
        let mut rows: Vec<Row> = Vec::new();
        let mut used: Vec<String> = Vec::new();
        let drives = sorted_drives(&self.drives);
        let ghost ds = derefs(drives@);
        let ghost st0: TreeState = (Seq::empty(), Seq::empty());
        assert(row_views(rows@) =~= Seq::<RowV>::empty());
        assert(str_views(used@) =~= Seq::<Seq<char>>::empty());
        let mut i: usize = 0;
        while i < drives.len()
            invariant
                i <= drives@.len(),
                ds == derefs(drives@),
                ds == sort_drives(self.drives@),
                (row_views(rows@), str_views(used@)) == drive_fold(self.blocks@, ds, i as int, st0),
            decreases drives@.len() - i,
        {
            assert(ds[i as int] == *drives@[i as int]);
            self.push_drive(&mut rows, drives[i], &mut used);
            i = i + 1;
        }
        let ghost st1 = (row_views(rows@), str_views(used@));
        let mut j: usize = 0;
        while j < self.blocks.len()
            invariant
                j <= self.blocks@.len(),
                st1 == drive_fold(self.blocks@, ds, ds.len() as int, st0),
                ds == sort_drives(self.drives@),
                (row_views(rows@), str_views(used@)) == block_fold(self.blocks@, j as int, st1),
            decreases self.blocks@.len() - j,
        {
            self.push_block(&mut rows, &self.blocks[j], &mut used);
            j = j + 1;
        }
        let ghost st2 = row_views(rows@);
        let mut k: usize = 0;
        while k < self.raids.len()
            invariant
                k <= self.raids@.len(),
                row_views(rows@) == st2 + self.raids@.subrange(0, k as int).map_values(
                    |r: Raid| raid_row(r),
                ),
            decreases self.raids@.len() - k,
        {
            let raid = &self.raids[k];
            let label = raid.level.clone().concat(" ").concat(raid_name(raid).as_str());
            push_row(
                &mut rows,
                Row {
                    kind: RowKind::Raid { raid: raid.path.clone() },
                    depth: 0,
                    label,
                    size: Some(raid.size),
                    mounted: raid.running,
                },
            );
            assert(self.raids@.subrange(0, k + 1).map_values(|r: Raid| raid_row(r)) =~= self.raids@.subrange(
                0,
                k as int,
            ).map_values(|r: Raid| raid_row(r)).push(raid_row(*raid)));
            k = k + 1;
        }
        assert(self.raids@.subrange(0, self.raids@.len() as int) =~= self.raids@);
        push_row(
            &mut rows,
            Row {
                kind: RowKind::Shares,
                depth: 0,
                label: String::from_str("Network shares"),
                size: None,
                mounted: false,
            },
        );
        rows
    }
}

} // verus!
