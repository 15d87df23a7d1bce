//! The device inventory and the selection of candidate disks.

use crate::text::{has_segment, split_on, text_eq};
use vstd::prelude::*;

verus! {

/// One node of the block-device tree: a disk, a partition or a mapped device.
#[derive(Debug, PartialEq, Eq)]
pub struct BlockDevice {
    /// Path of the device node.
    pub path: String,
    /// Size of the device in bytes.
    pub size: i64,
    /// Colon-separated chain of subsystems, such as `block:scsi:usb:pci`.
    pub subsystems: String,
    /// Every place where the device is mounted; `None` stands for an empty slot.
    pub mountpoints: Vec<Option<String>>,
    /// Kind of device: `disk`, `part`, `crypt`, `loop`, ...
    pub type_: String,
    /// Filesystem UUID, where the device carries one.
    pub uuid: Option<String>,
    /// `Some(true)` for spinning media, `Some(false)` for solid state.
    pub rota: Option<bool>,
    /// Partitions and mapped devices that sit on this device.
    pub children: Vec<BlockDevice>,
}

/// Whether at least one entry of a mount-point list names a mount point.
pub open spec fn has_mount(mountpoints: Seq<Option<String>>) -> bool {
    exists|i: int| 0 <= i < mountpoints.len() && (#[trigger] mountpoints[i]) is Some
}

/// A device is in use when it, or any device below it, is mounted somewhere.
pub open spec fn in_use_spec(device: BlockDevice) -> bool
    decreases device,
{
    has_mount(device.mountpoints@) || exists|i: int|
        0 <= i < device.children.len() && in_use_spec(#[trigger] device.children[i])
}

/// Tells whether `mountpoints` holds a mount point.
pub fn any_mounted(mountpoints: &Vec<Option<String>>) -> (r: bool)
    ensures
        r == has_mount(mountpoints@),
{
    let mut i: usize = 0;
    while i < mountpoints.len()
        invariant
            i <= mountpoints.len(),
            forall|j: int| 0 <= j < i ==> (#[trigger] mountpoints@[j]) is None,
        decreases mountpoints.len() - i,
    {
        if mountpoints[i].is_some() {
            return true;
        }
        i += 1;
    }
    false
}

/// Tells whether `device` or anything below it is mounted.
pub fn in_use(device: &BlockDevice) -> (r: bool)
    ensures
        r == in_use_spec(*device),
    decreases *device,
{
    if any_mounted(&device.mountpoints) {
        return true;
    }
    let mut i: usize = 0;
    while i < device.children.len()
        invariant
            i <= device.children.len(),
            !has_mount(device.mountpoints@),
            forall|j: int| 0 <= j < i ==> !in_use_spec(#[trigger] device.children[j]),
        decreases device.children.len() - i,
    {
        if in_use(&device.children[i]) {
            return true;
        }
        i += 1;
    }
    false
}

/// A candidate is a whole disk that is not attached over USB and is not in use.
pub open spec fn is_candidate(device: BlockDevice) -> bool {
    &&& device.type_@ == "disk"@
    &&& !split_on(device.subsystems@, ':').contains("usb"@)
    &&& !in_use_spec(device)
}

/// Where a device of `size` bytes goes in a list ordered from the largest
/// down: behind every device that is at least as large.
pub open spec fn insert_pos(sorted: Seq<BlockDevice>, size: i64) -> nat
    decreases sorted.len(),
{
    if sorted.len() == 0 || sorted[0].size < size {
        0
    } else {
        1 + insert_pos(sorted.drop_first(), size)
    }
}

/// `devices` ordered from the largest down; devices of one size keep the
/// order they came in.
pub open spec fn largest_first(devices: Seq<BlockDevice>) -> Seq<BlockDevice>
    decreases devices.len(),
{
    if devices.len() == 0 {
        Seq::empty()
    } else {
        let rest = largest_first(devices.drop_last());
        rest.insert(insert_pos(rest, devices.last().size) as int, devices.last())
    }
}

/// The candidates among `blocks`, largest first.
pub open spec fn unused_candidates(blocks: Seq<BlockDevice>) -> Seq<BlockDevice> {
    largest_first(blocks.filter(|d: BlockDevice| is_candidate(d)))
}

/// `insert_pos` is the first position that holds a smaller device.
pub proof fn lemma_insert_pos(sorted: Seq<BlockDevice>, size: i64, k: int)
    requires
        0 <= k <= sorted.len(),
        forall|j: int| 0 <= j < k ==> sorted[j].size >= size,
        k == sorted.len() || sorted[k].size < size,
    ensures
        insert_pos(sorted, size) == k,
    decreases k,
{
    if k > 0 {
        lemma_insert_pos(sorted.drop_first(), size, k - 1);
    }
}

/// Tells whether `device` is a candidate.
pub fn eligible(device: &BlockDevice) -> (r: bool)
    ensures
        r == is_candidate(*device),
{
    text_eq(device.type_.as_str(), "disk") && !has_segment(device.subsystems.as_str(), ':', "usb")
        && !in_use(device)
}

/// Selects the disks that may be formatted: whole disks, not attached over
/// USB, with nothing mounted on them or below them. The largest comes first;
/// disks of one size stay in the order of the inventory.
pub fn find_unused(blocks: Vec<BlockDevice>) -> (r: Vec<BlockDevice>)
    ensures
        r@ == unused_candidates(blocks@),
        forall|i: int| 0 <= i < r.len() ==> blocks@.contains(#[trigger] r@[i]),
        forall|i: int| 0 <= i < r.len() ==> is_candidate(#[trigger] r@[i]),
        forall|i: int, j: int| 0 <= i < j < r.len() ==> r@[i].size >= r@[j].size,
        forall|i: int|
            0 <= i < blocks.len() && is_candidate(#[trigger] blocks@[i]) ==> r@.contains(
                blocks@[i],
            ),
{
    let ghost all = blocks@;
    let ghost pred = |d: BlockDevice| is_candidate(d);
    let mut blocks = blocks;
    let mut out: Vec<BlockDevice> = Vec::new();
    let ghost mut done: int = 0;
    assert(all.take(0).filter(pred) == Seq::<BlockDevice>::empty());
    assert(all.skip(0) == all);
    while blocks.len() > 0
        invariant
            0 <= done <= all.len(),
            pred == |d: BlockDevice| is_candidate(d),
            blocks@ == all.skip(done),
            out@ == largest_first(all.take(done).filter(pred)),
        decreases blocks.len(),
    {
        let candidate = blocks.remove(0);
        proof {
            assert(all.take(done + 1) == all.take(done).push(candidate));
            all.take(done).lemma_filter_push(candidate, pred);
        }
        if eligible(&candidate) {
            let mut pos: usize = 0;
            while pos < out.len() && out[pos].size >= candidate.size
                invariant
                    pos <= out.len(),
                    forall|j: int| 0 <= j < pos ==> out@[j].size >= candidate.size,
                decreases out.len() - pos,
            {
                pos += 1;
            }
            proof {
                lemma_insert_pos(out@, candidate.size, pos as int);
                assert(all.take(done + 1).filter(pred).drop_last() == all.take(done).filter(pred));
            }
            out.insert(pos, candidate);
        }
        proof {
            done = done + 1;
        }
    }
    assert(all.take(done) == all);
    proof {
        lemma_unused_candidates(all);
    }
    out
}

/// Whether no device of `devices` is larger than one before it.
pub open spec fn sorted_by_size(devices: Seq<BlockDevice>) -> bool {
    forall|i: int, j: int| 0 <= i < j < devices.len() ==> devices[i].size >= devices[j].size
}

/// What `insert_pos` returns lies in the list, behind the devices that are at
/// least as large and before a smaller one.
pub proof fn lemma_insert_pos_bounds(sorted: Seq<BlockDevice>, size: i64)
    ensures
        insert_pos(sorted, size) <= sorted.len(),
        forall|j: int| 0 <= j < insert_pos(sorted, size) ==> sorted[j].size >= size,
        insert_pos(sorted, size) == sorted.len() || sorted[insert_pos(sorted, size) as int].size
            < size,
    decreases sorted.len(),
{
    if !(sorted.len() == 0 || sorted[0].size < size) {
        let rest = sorted.drop_first();
        lemma_insert_pos_bounds(rest, size);
        let p = insert_pos(rest, size) as int;
        assert forall|j: int| 0 <= j < p + 1 implies sorted[j].size >= size by {
            if j > 0 {
                assert(sorted[j] == rest[j - 1]);
            }
        }
        if p < rest.len() {
            assert(sorted[p + 1] == rest[p]);
        }
    }
}

/// `largest_first` yields an ordered list with the same devices, each as often
/// as it came in.
pub proof fn lemma_largest_first_sorted(devices: Seq<BlockDevice>)
    ensures
        sorted_by_size(largest_first(devices)),
        largest_first(devices).len() == devices.len(),
        largest_first(devices).to_multiset() == devices.to_multiset(),
    decreases devices.len(),
{
    broadcast use vstd::seq_lib::to_multiset_insert, vstd::seq_lib::to_multiset_build;

    if devices.len() == 0 {
        assert(largest_first(devices) == devices);
    } else {
        let rest = largest_first(devices.drop_last());
        let x = devices.last();
        lemma_largest_first_sorted(devices.drop_last());
        lemma_insert_pos_bounds(rest, x.size);
        let p = insert_pos(rest, x.size) as int;
        let out = rest.insert(p, x);
        assert forall|i: int, j: int| 0 <= i < j < out.len() implies out[i].size
            >= out[j].size by {
            if j > p && p < rest.len() {
                assert(rest[p].size >= out[j].size);
            }
        }
        assert(devices == devices.drop_last().push(x));
        assert(devices.to_multiset() == devices.drop_last().to_multiset().insert(x));
    }
}

/// Among devices of one size `largest_first` changes nothing: they stand in
/// the result in the order in which they came in.
pub proof fn lemma_largest_first_keeps_ties(devices: Seq<BlockDevice>, size: i64)
    ensures
        largest_first(devices).filter(|d: BlockDevice| d.size == size) == devices.filter(
            |d: BlockDevice| d.size == size,
        ),
    decreases devices.len(),
{
    let same = |d: BlockDevice| d.size == size;
    if devices.len() == 0 {
        assert(largest_first(devices) == devices);
    } else {
        let rest = largest_first(devices.drop_last());
        let x = devices.last();
        lemma_largest_first_keeps_ties(devices.drop_last(), size);
        lemma_largest_first_sorted(devices.drop_last());
        lemma_insert_pos_bounds(rest, x.size);
        let p = insert_pos(rest, x.size) as int;
        let head = rest.take(p);
        let tail = rest.skip(p);
        assert(rest.insert(p, x) == head.push(x) + tail);
        assert(rest == head + tail);
        Seq::filter_distributes_over_add(head.push(x), tail, same);
        Seq::filter_distributes_over_add(head, tail, same);
        head.lemma_filter_push(x, same);
        assert(devices == devices.drop_last().push(x));
        devices.drop_last().lemma_filter_push(x, same);
        if x.size == size {
            assert(tail.all(|d: BlockDevice| !same(d))) by {
                assert forall|i: int| 0 <= i < tail.len() implies !same(tail[i]) by {}
            }
            tail.lemma_all_neg_filter_empty(same);
            assert(tail.filter(same) == Seq::<BlockDevice>::empty());
            assert(head.filter(same).push(x) + tail.filter(same) == (head.filter(same)
                + tail.filter(same)).push(x));
        }
    }
}

/// What is selected is taken from the inventory, is a candidate, and no
/// selected disk is larger than one before it. No candidate is left out.
pub proof fn lemma_unused_candidates(blocks: Seq<BlockDevice>)
    ensures
        forall|i: int|
            0 <= i < unused_candidates(blocks).len() ==> blocks.contains(
                #[trigger] unused_candidates(blocks)[i],
            ) && is_candidate(unused_candidates(blocks)[i]),
        sorted_by_size(unused_candidates(blocks)),
        forall|i: int|
            0 <= i < blocks.len() && is_candidate(#[trigger] blocks[i])
                ==> unused_candidates(blocks).contains(blocks[i]),
{
    broadcast use vstd::seq_lib::to_multiset_contains;

    let pred = |d: BlockDevice| is_candidate(d);
    let kept = blocks.filter(pred);
    let out = unused_candidates(blocks);
    lemma_largest_first_sorted(kept);
    assert forall|i: int| 0 <= i < out.len() implies blocks.contains(#[trigger] out[i])
        && is_candidate(out[i]) by {
        assert(out.to_multiset().contains(out[i]));
        let k = choose|k: int| 0 <= k < kept.len() && kept[k] == out[i];
        blocks.lemma_filter_contains_rev(pred, out[i]);
        blocks.lemma_filter_pred(pred, k);
    }
    assert forall|i: int| 0 <= i < blocks.len() && is_candidate(#[trigger] blocks[i]) implies out.contains(
        blocks[i],
    ) by {
        blocks.lemma_filter_contains(pred, i);
        assert(kept.to_multiset().contains(blocks[i]));
    }
}

/// The device reached from `device` by going down the tree: each entry of
/// `path` is a position among the children of the device reached so far.
pub open spec fn descend(device: BlockDevice, path: Seq<int>) -> Option<BlockDevice>
    decreases path.len(),
{
    if path.len() == 0 {
        Some(device)
    } else if 0 <= path[0] < device.children.len() {
        descend(device.children[path[0]], path.drop_first())
    } else {
        None
    }
}

/// Whether `path` leads from `device` to a device that is mounted somewhere.
pub open spec fn mounted_at(device: BlockDevice, path: Seq<int>) -> bool {
    match descend(device, path) {
        Some(d) => has_mount(d.mountpoints@),
        None => false,
    }
}

/// A mounted device at the end of a path puts the device at its start in use.
pub proof fn lemma_mounted_at_in_use(device: BlockDevice, path: Seq<int>)
    requires
        mounted_at(device, path),
    ensures
        in_use_spec(device),
    decreases path.len(),
{
    if path.len() > 0 {
        lemma_mounted_at_in_use(device.children[path[0]], path.drop_first());
    }
}

/// A device is in use exactly when it or one of its descendants holds a mount
/// point.
pub proof fn lemma_in_use_iff_mounted_below(device: BlockDevice)
    ensures
        in_use_spec(device) <==> exists|path: Seq<int>| mounted_at(device, path),
    decreases device,
{
    if in_use_spec(device) {
        if has_mount(device.mountpoints@) {
            assert(mounted_at(device, Seq::<int>::empty()));
        } else {
            let i = choose|i: int|
                0 <= i < device.children.len() && in_use_spec(#[trigger] device.children[i]);
            lemma_in_use_iff_mounted_below(device.children[i]);
            let below = choose|path: Seq<int>| mounted_at(device.children[i], path);
            let path = seq![i] + below;
            assert(path.drop_first() == below);
            assert(mounted_at(device, path));
        }
    }
    if exists|path: Seq<int>| mounted_at(device, path) {
        let path = choose|path: Seq<int>| mounted_at(device, path);
        lemma_mounted_at_in_use(device, path);
    }
}

/// A device that is not mounted, and whose children are not mounted and have
/// no children of their own, is not in use.
pub proof fn lemma_idle_leaves_not_in_use(device: BlockDevice)
    requires
        !has_mount(device.mountpoints@),
        forall|i: int|
            0 <= i < device.children.len() ==> !has_mount(
                (#[trigger] device.children[i]).mountpoints@,
            ) && device.children[i].children.len() == 0,
    ensures
        !in_use_spec(device),
{
    assert forall|i: int| 0 <= i < device.children.len() implies !in_use_spec(
        #[trigger] device.children[i],
    ) by {
        let child = device.children[i];
        assert(child.children@.len() == 0);
    }
}

} // verus!
