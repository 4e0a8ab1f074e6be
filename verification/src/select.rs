//! Looking things up in the model, and which actions the selection offers.
//!
//! Destructive work is not refused here; the confirm dialog stands between the user and it.

use vstd::prelude::*;

use crate::model::{
    deref_opt, device_path_spec, first_where, is_set, is_set_spec, is_system_mount,
    is_system_mount_spec, lemma_first_at, lemma_first_none, part_view, part_views, seg_views,
    segments, segments_spec, short_part, volume_label, volume_label_spec, Block, Drive, Model,
    PartSpec, PartV, Raid, RowKind, RowKindV, SegV, Segment,
};
use crate::text::same_str;
use crate::util::{after_last_slash, kernel_name};

verus! {

// ---------------------------------------------------------------------------
// Lookups
// ---------------------------------------------------------------------------

pub open spec fn block_at(bs: Seq<Block>, path: Seq<char>) -> Option<Block> {
    first_where(bs, |b: Block| b.path@ == path)
}

pub open spec fn drive_at(ds: Seq<Drive>, path: Seq<char>) -> Option<Drive> {
    first_where(ds, |d: Drive| d.path@ == path)
}

pub open spec fn raid_at(rs: Seq<Raid>, path: Seq<char>) -> Option<Raid> {
    first_where(rs, |r: Raid| r.path@ == path)
}

/// A block of an MD array: the first one that belongs to it.
pub open spec fn array_block(bs: Seq<Block>, raid: Seq<char>) -> Option<Block> {
    first_where(bs, |b: Block| b.mdraid@ == raid)
}

/// The unlocked device of an encrypted one: the first block backed by it.
pub open spec fn cleartext_at(bs: Seq<Block>, encrypted: Seq<char>) -> Option<Block> {
    first_where(bs, |b: Block| b.crypto_backing@ == encrypted)
}

/// A whole-disk device of the drive, not a partition, not an unlocked
/// device and not hidden.
pub open spec fn disk_candidate(b: Block, drive: Seq<char>) -> bool {
    b.drive@ == drive && b.partition is None && !is_set_spec(b.crypto_backing@) && !b.hint_ignore
}

/// `max_by_key` on the size over the candidates: the largest, and of equally
/// large ones the last.
pub open spec fn disk_pick(bs: Seq<Block>, drive: Seq<char>) -> Option<Block>
    decreases bs.len(),
{
    if bs.len() == 0 {
        None
    } else {
        let prev = disk_pick(bs.drop_last(), drive);
        let b = bs.last();
        if disk_candidate(b, drive) && (prev is None || prev->0.size <= b.size) {
            Some(b)
        } else {
            prev
        }
    }
}

pub open spec fn part_of(b: Block, table: Seq<char>) -> bool {
    match b.partition {
        Some(p) => p.table@ == table,
        None => false,
    }
}

/// Mounted or in use as swap.
pub open spec fn busy(b: Block) -> bool {
    b.mount_points@.len() > 0 || b.swap_active
}

/// The block, or one of its partitions, is mounted or active swap.
pub open spec fn tree_mounted_spec(bs: Seq<Block>, path: Seq<char>) -> bool {
    match block_at(bs, path) {
        None => false,
        Some(b) => busy(b) || exists|i: int|
            0 <= i < bs.len() && part_of(bs[i], path) && busy(#[trigger] bs[i]),
    }
}

/// Flagged by UDisks as a system device, active swap, or mounted where the
/// running system lives.
pub open spec fn is_system_block_spec(b: Block) -> bool {
    b.hint_system || b.swap_active || exists|i: int|
        0 <= i < b.mount_points@.len() && is_system_mount_spec(#[trigger] b.mount_points@[i]@)
}

/// The block, one of its partitions, or the device unlocked from it, is a
/// system device.
pub open spec fn is_system_tree_spec(bs: Seq<Block>, path: Seq<char>) -> bool {
    match block_at(bs, path) {
        None => false,
        Some(b) => is_system_block_spec(b) || exists|i: int|
            0 <= i < bs.len() && (part_of(bs[i], path) || bs[i].crypto_backing@ == path)
                && is_system_block_spec(#[trigger] bs[i]),
    }
}

/// The partitions of a disk as `segments` takes them, in model order.
pub open spec fn part_entries(bs: Seq<Block>, disk: Seq<char>) -> Seq<PartV>
    decreases bs.len(),
{
    if bs.len() == 0 {
        Seq::empty()
    } else {
        let prev = part_entries(bs.drop_last(), disk);
        let b = bs.last();
        match b.partition {
            Some(p) => if p.table@ == disk {
                prev.push((p.offset, p.size, b.path@, volume_label_spec(b)))
            } else {
                prev
            },
            None => prev,
        }
    }
}

/// The map of a disk; a disk without partitions is one segment.
pub open spec fn segments_for_spec(bs: Seq<Block>, disk: Seq<char>) -> Seq<SegV> {
    match block_at(bs, disk) {
        None => Seq::empty(),
        Some(b) => {
            let ps = part_entries(bs, disk);
            if ps.len() == 0 {
                seq![
                    SegV {
                        label: volume_label_spec(b),
                        start: 0,
                        size: b.size,
                        free: false,
                        block: Some(b.path@),
                    },
                ]
            } else {
                segments_spec(b.size, ps)
            }
        },
    }
}

/// The name the confirm dialog asks to type for a row.
pub open spec fn confirm_name_spec(m: Model, row: RowKindV) -> Seq<char> {
    match row {
        RowKindV::Volume { block } => match block_at(m.blocks@, block) {
            Some(b) => after_last_slash(device_path_spec(b)),
            None => Seq::empty(),
        },
        RowKindV::Drive { drive } => match disk_pick(m.blocks@, drive) {
            Some(b) => after_last_slash(device_path_spec(b)),
            None => Seq::empty(),
        },
        RowKindV::Raid { raid } => match raid_at(m.raids@, raid) {
            Some(r) => if r.name@.len() == 0 {
                "raid"@
            } else {
                r.name@
            },
            None => "raid"@,
        },
        RowKindV::Free { disk, .. } => match block_at(m.blocks@, disk) {
            Some(b) => after_last_slash(device_path_spec(b)),
            None => Seq::empty(),
        },
        RowKindV::Shares => Seq::empty(),
    }
}

/// Whether acting on a row touches the running system.
pub open spec fn row_is_system_spec(m: Model, row: RowKindV) -> bool {
    match row {
        RowKindV::Volume { block } => match block_at(m.blocks@, block) {
            Some(b) => is_system_block_spec(b),
            None => false,
        },
        RowKindV::Drive { drive } => match disk_pick(m.blocks@, drive) {
            Some(d) => is_system_tree_spec(m.blocks@, d.path@),
            None => false,
        },
        RowKindV::Free { disk, .. } => is_system_tree_spec(m.blocks@, disk),
        _ => false,
    }
}

impl Model {
    pub fn block(&self, path: &str) -> (r: Option<&Block>)
        ensures
            deref_opt(r) == block_at(self.blocks@, path@),
    {
        let ghost f = |b: Block| b.path@ == path@;
        let mut i: usize = 0;
        while i < self.blocks.len()
            invariant
                i <= self.blocks@.len(),
                f == (|b: Block| b.path@ == path@),
                forall|j: int| 0 <= j < i ==> !f(#[trigger] self.blocks@[j]),
            decreases self.blocks@.len() - i,
        {
            if same_str(self.blocks[i].path.as_str(), path) {
                proof {
                    lemma_first_at(self.blocks@, f, i as int);
                }
                return Some(&self.blocks[i]);
            }
            i = i + 1;
        }
        proof {
            lemma_first_none(self.blocks@, f);
        }
        None
    }

    pub fn drive(&self, path: &str) -> (r: Option<&Drive>)
        ensures
            deref_opt(r) == drive_at(self.drives@, path@),
    {
        let ghost f = |d: Drive| d.path@ == path@;
        let mut i: usize = 0;
        while i < self.drives.len()
            invariant
                i <= self.drives@.len(),
                f == (|d: Drive| d.path@ == path@),
                forall|j: int| 0 <= j < i ==> !f(#[trigger] self.drives@[j]),
            decreases self.drives@.len() - i,
        {
            if same_str(self.drives[i].path.as_str(), path) {
                proof {
                    lemma_first_at(self.drives@, f, i as int);
                }
                return Some(&self.drives[i]);
            }
            i = i + 1;
        }
        proof {
            lemma_first_none(self.drives@, f);
        }
        None
    }

    pub fn raid(&self, path: &str) -> (r: Option<&Raid>)
        ensures
            deref_opt(r) == raid_at(self.raids@, path@),
    {
        let ghost f = |x: Raid| x.path@ == path@;
        let mut i: usize = 0;
        while i < self.raids.len()
            invariant
                i <= self.raids@.len(),
                f == (|x: Raid| x.path@ == path@),
                forall|j: int| 0 <= j < i ==> !f(#[trigger] self.raids@[j]),
            decreases self.raids@.len() - i,
        {
            if same_str(self.raids[i].path.as_str(), path) {
                proof {
                    lemma_first_at(self.raids@, f, i as int);
                }
                return Some(&self.raids[i]);
            }
            i = i + 1;
        }
        proof {
            lemma_first_none(self.raids@, f);
        }
        None
    }

    pub(crate) fn array_block(&self, raid: &str) -> (r: Option<&Block>)
        ensures
            deref_opt(r) == array_block(self.blocks@, raid@),
    {
        let ghost f = |b: Block| b.mdraid@ == raid@;
        let mut i: usize = 0;
        while i < self.blocks.len()
            invariant
                i <= self.blocks@.len(),
                f == (|b: Block| b.mdraid@ == raid@),
                forall|j: int| 0 <= j < i ==> !f(#[trigger] self.blocks@[j]),
            decreases self.blocks@.len() - i,
        {
            if same_str(self.blocks[i].mdraid.as_str(), raid) {
                proof {
                    lemma_first_at(self.blocks@, f, i as int);
                }
                return Some(&self.blocks[i]);
            }
            i = i + 1;
        }
        proof {
            lemma_first_none(self.blocks@, f);
        }
        None
    }

    pub fn disk_for_drive(&self, drive: &str) -> (r: Option<&Block>)
        ensures
            deref_opt(r) == disk_pick(self.blocks@, drive@),
    {
        let mut best: Option<usize> = None;
        let mut i: usize = 0;
        while i < self.blocks.len()
            invariant
                i <= self.blocks@.len(),
                match best {
                    Some(j) => j < i && disk_pick(self.blocks@.subrange(0, i as int), drive@)
                        == Some(self.blocks@[j as int]),
                    None => disk_pick(self.blocks@.subrange(0, i as int), drive@) is None,
                },
            decreases self.blocks@.len() - i,
        {
            let ghost n = self.blocks@.subrange(0, i + 1);
            assert(n.drop_last() =~= self.blocks@.subrange(0, i as int));
            assert(n.last() == self.blocks@[i as int]);
            let b = &self.blocks[i];
            let cand = same_str(b.drive.as_str(), drive) && b.partition.is_none() && !is_set(
                b.crypto_backing.as_str(),
            ) && !b.hint_ignore;
            let better = match best {
                None => true,
                Some(j) => self.blocks[j].size <= b.size,
            };
            if cand && better {
                best = Some(i);
            }
            i = i + 1;
        }
        assert(self.blocks@.subrange(0, self.blocks@.len() as int) =~= self.blocks@);
        match best {
            Some(j) => Some(&self.blocks[j]),
            None => None,
        }
    }

    pub(crate) fn cleartext_of(&self, encrypted: &str) -> (r: Option<&Block>)
        ensures
            deref_opt(r) == cleartext_at(self.blocks@, encrypted@),
    {
        let ghost f = |b: Block| b.crypto_backing@ == encrypted@;
        let mut i: usize = 0;
        while i < self.blocks.len()
            invariant
                i <= self.blocks@.len(),
                f == (|b: Block| b.crypto_backing@ == encrypted@),
                forall|j: int| 0 <= j < i ==> !f(#[trigger] self.blocks@[j]),
            decreases self.blocks@.len() - i,
        {
            if same_str(self.blocks[i].crypto_backing.as_str(), encrypted) {
                proof {
                    lemma_first_at(self.blocks@, f, i as int);
                }
                return Some(&self.blocks[i]);
            }
            i = i + 1;
        }
        proof {
            lemma_first_none(self.blocks@, f);
        }
        None
    }

    pub(crate) fn tree_mounted(&self, path: &str) -> (r: bool)
        ensures
            r == tree_mounted_spec(self.blocks@, path@),
    {
        let block = match self.block(path) {
            Some(b) => b,
            None => return false,
        };
        if !block.mount_points.is_empty() || block.swap_active {
            return true;
        }
        let mut i: usize = 0;
        while i < self.blocks.len()
            invariant
                i <= self.blocks@.len(),
                block_at(self.blocks@, path@) == Some(*block),
                !busy(*block),
                forall|j: int|
                    0 <= j < i ==> !(part_of(self.blocks@[j], path@) && busy(#[trigger] self.blocks@[j])),
            decreases self.blocks@.len() - i,
        {
            let b = &self.blocks[i];
            let inside = match &b.partition {
                Some(p) => same_str(p.table.as_str(), path),
                None => false,
            };
            if inside && (!b.mount_points.is_empty() || b.swap_active) {
                assert(part_of(self.blocks@[i as int], path@) && busy(self.blocks@[i as int]));
                return true;
            }
            i = i + 1;
        }
        false
    }

    pub fn is_system_block(&self, block: &Block) -> (r: bool)
        ensures
            r == is_system_block_spec(*block),
    {
        if block.hint_system || block.swap_active {
            return true;
        }
        let mut i: usize = 0;
        while i < block.mount_points.len()
            invariant
                i <= block.mount_points@.len(),
                forall|j: int| 0 <= j < i ==> !is_system_mount_spec(#[trigger] block.mount_points@[j]@),
            decreases block.mount_points@.len() - i,
        {
            if is_system_mount(block.mount_points[i].as_str()) {
                return true;
            }
            i = i + 1;
        }
        false
    }

    pub fn is_system_tree(&self, path: &str) -> (r: bool)
        ensures
            r == is_system_tree_spec(self.blocks@, path@),
    {
        let block = match self.block(path) {
            Some(b) => b,
            None => return false,
        };
        if self.is_system_block(block) {
            return true;
        }
        let mut i: usize = 0;
        while i < self.blocks.len()
            invariant
                i <= self.blocks@.len(),
                block_at(self.blocks@, path@) == Some(*block),
                !is_system_block_spec(*block),
                forall|j: int|
                    0 <= j < i ==> !((part_of(self.blocks@[j], path@) || self.blocks@[j].crypto_backing@
                        == path@) && is_system_block_spec(#[trigger] self.blocks@[j])),
            decreases self.blocks@.len() - i,
        {
            let b = &self.blocks[i];
            let inside = match &b.partition {
                Some(p) => same_str(p.table.as_str(), path),
                None => false,
            };
            let related = inside || same_str(b.crypto_backing.as_str(), path);
            if related && self.is_system_block(b) {
                assert(is_system_block_spec(self.blocks@[i as int]));
                return true;
            }
            i = i + 1;
        }
        false
    }

    pub fn confirm_name(&self, row: &RowKind) -> (r: String)
        ensures
            r@ == confirm_name_spec(*self, row@),
    {
        match row {
            RowKind::Volume { block } => match self.block(block.as_str()) {
                Some(b) => String::from_str(kernel_name(b.device_path())),
                None => String::new(),
            },
            RowKind::Drive { drive } => match self.disk_for_drive(drive.as_str()) {
                Some(b) => String::from_str(kernel_name(b.device_path())),
                None => String::new(),
            },
            RowKind::Raid { raid } => match self.raid(raid.as_str()) {
                Some(r) => if r.name.as_str().is_empty() {
                    String::from_str("raid")
                } else {
                    r.name.clone()
                },
                None => String::from_str("raid"),
            },
            RowKind::Free { disk, .. } => match self.block(disk.as_str()) {
                Some(b) => String::from_str(kernel_name(b.device_path())),
                None => String::new(),
            },
            RowKind::Shares => String::new(),
        }
    }

    pub fn row_is_system(&self, row: &RowKind) -> (r: bool)
        ensures
            r == row_is_system_spec(*self, row@),
    {
        match row {
            RowKind::Volume { block } => match self.block(block.as_str()) {
                Some(b) => self.is_system_block(b),
                None => false,
            },
            RowKind::Drive { drive } => match self.disk_for_drive(drive.as_str()) {
                Some(d) => self.is_system_tree(d.path.as_str()),
                None => false,
            },
            RowKind::Free { disk, .. } => self.is_system_tree(disk.as_str()),
            _ => false,
        }
    }

    pub(crate) fn part_entries_of(&self, disk: &str) -> (r: Vec<PartSpec>)
        ensures
            part_views(r@) == part_entries(self.blocks@, disk@),
    {
        let mut r: Vec<PartSpec> = Vec::new();
        let mut i: usize = 0;
        while i < self.blocks.len()
            invariant
                i <= self.blocks@.len(),
                part_views(r@) == part_entries(self.blocks@.subrange(0, i as int), disk@),
            decreases self.blocks@.len() - i,
        {
            let ghost n = self.blocks@.subrange(0, i + 1);
            assert(n.drop_last() =~= self.blocks@.subrange(0, i as int));
            assert(n.last() == self.blocks@[i as int]);
            let ghost pre = part_views(r@);
            let b = &self.blocks[i];
            match &b.partition {
                Some(p) => {
                    if same_str(p.table.as_str(), disk) {
                        let e: PartSpec = (p.offset, p.size, b.path.clone(), short_part(b));
                        r.push(e);
                        assert(part_views(r@) =~= pre.push(part_view(e)));
                    }
                },
                None => {},
            }
            i = i + 1;
        }
        assert(self.blocks@.subrange(0, self.blocks@.len() as int) =~= self.blocks@);
        r
    }

    pub fn segments_for(&self, disk: &str) -> (r: Vec<Segment>)
        ensures
            seg_views(r@) == segments_for_spec(self.blocks@, disk@),
    {
        let block = match self.block(disk) {
            Some(b) => b,
            None => return Vec::new(),
        };
        let spec = self.part_entries_of(disk);
        if spec.len() == 0 {
            let mut v: Vec<Segment> = Vec::new();
            v.push(
                Segment {
                    label: volume_label(block),
                    start: 0,
                    size: block.size,
                    free: false,
                    block: Some(block.path.clone()),
                },
            );
            assert(seg_views(v@) =~= segments_for_spec(self.blocks@, disk@));
            return v;
        }
        segments(block.size, spec.as_slice())
    }
}

} // verus!
