//! Areas copied out of a voxel collection: putting them in the order of
//! their ids, turning them into signed arrays, and laying their neurons out
//! in one row.

use vstd::prelude::*;
use crate::areas::{AreaOutput, AreaView};
use crate::le::{lemma_wrapping_sum, signed32, to_signed};
use crate::voxels::{Voxel, VoxelArea};

verus! {

/// One area as plain values: the bytes of its id and its voxels.
pub type AreaVoxels = (Seq<u8>, Seq<Voxel>);

impl View for VoxelArea {
    type V = AreaVoxels;

    open spec fn view(&self) -> AreaVoxels {
        (self.id@, self.neurons@)
    }
}

/// The areas of `areas` as plain values.
pub open spec fn views(areas: Seq<VoxelArea>) -> Seq<AreaVoxels> {
    areas.map_values(|a: VoxelArea| a@)
}

/// No id occurs twice in `s`.
pub open spec fn no_id_twice(s: Seq<AreaVoxels>) -> bool {
    forall|i: int, j: int| 0 <= i < j < s.len() ==> (#[trigger] s[i]).0 != (#[trigger] s[j]).0
}

/// `s` lists what `m` holds: each key once, with its voxels.
pub open spec fn lists(s: Seq<AreaVoxels>, m: Map<Seq<u8>, Seq<Voxel>>) -> bool {
    &&& forall|i: int|
        0 <= i < s.len() ==> m.contains_key((#[trigger] s[i]).0) && m[s[i].0] == s[i].1
    &&& no_id_twice(s)
    &&& forall|id: Seq<u8>| #[trigger]
        m.contains_key(id) ==> exists|i: int| 0 <= i < s.len() && (#[trigger] s[i]).0 == id
}

/// Every id of `s` has six bytes.
pub open spec fn six_byte_ids(s: Seq<AreaVoxels>) -> bool {
    forall|i: int| 0 <= i < s.len() ==> (#[trigger] s[i]).0.len() == 6
}

/// The number that a six-byte id spells in base 256, first byte first. Ids
/// are put in the order of these numbers.
pub open spec fn id_key(id: Seq<u8>) -> int {
    ((((id[0] as int * 256 + id[1] as int) * 256 + id[2] as int) * 256 + id[3] as int) * 256
        + id[4] as int) * 256 + id[5] as int
}

/// The ids of `s` grow from each entry to the next.
pub open spec fn increasing(s: Seq<AreaVoxels>) -> bool {
    forall|i: int, j: int|
        0 <= i < j < s.len() ==> id_key((#[trigger] s[i]).0) < id_key((#[trigger] s[j]).0)
}

/// `s` lists what `m` holds, in the order of the ids.
pub open spec fn is_sorted_listing(s: Seq<AreaVoxels>, m: Map<Seq<u8>, Seq<Voxel>>) -> bool {
    lists(s, m) && six_byte_ids(s) && increasing(s)
}

/// The listing of `m` in the order of the ids.
pub open spec fn sorted_listing(m: Map<Seq<u8>, Seq<Voxel>>) -> Seq<AreaVoxels> {
    choose|s: Seq<AreaVoxels>| is_sorted_listing(s, m)
}

/// Two six-byte ids that spell the same number are the same id.
pub proof fn lemma_id_key_injective(a: Seq<u8>, b: Seq<u8>)
    requires
        a.len() == 6,
        b.len() == 6,
        id_key(a) == id_key(b),
    ensures
        a == b,
{
    assert(a[5] == b[5]);
    assert(a[4] == b[4]);
    assert(a[3] == b[3]);
    assert(a[2] == b[2]);
    assert(a[1] == b[1]);
    assert(a[0] == b[0]);
    assert(a =~= b);
}

/// Computes the number that a six-byte id spells.
pub fn key_of(id: &Vec<u8>) -> (k: u64)
    requires
        id@.len() == 6,
    ensures
        k == id_key(id@),
{
    let b0: u64 = id[0] as u64;
    let b1: u64 = id[1] as u64;
    let b2: u64 = id[2] as u64;
    let b3: u64 = id[3] as u64;
    let b4: u64 = id[4] as u64;
    let b5: u64 = id[5] as u64;
    ((((b0 * 256 + b1) * 256 + b2) * 256 + b3) * 256 + b4) * 256 + b5
}

/// The two sequences have the same members.
pub open spec fn same_members(s: Seq<AreaVoxels>, t: Seq<AreaVoxels>) -> bool {
    forall|a: AreaVoxels| s.contains(a) <==> t.contains(a)
}

/// A sequence with the members of a listing and growing ids is the sorted
/// listing.
pub proof fn lemma_sorted_members_list(
    s: Seq<AreaVoxels>,
    t: Seq<AreaVoxels>,
    m: Map<Seq<u8>, Seq<Voxel>>,
)
    requires
        lists(s, m),
        six_byte_ids(s),
        same_members(s, t),
        increasing(t),
    ensures
        is_sorted_listing(t, m),
{
    assert forall|i: int| 0 <= i < t.len() implies m.contains_key((#[trigger] t[i]).0) && m[t[i].0]
        == t[i].1 && t[i].0.len() == 6 by {
        assert(t.contains(t[i]));
        assert(s.contains(t[i]));
        let j = choose|j: int| 0 <= j < s.len() && s[j] == t[i];
        assert(m.contains_key(s[j].0));
    }
    assert forall|id: Seq<u8>| #[trigger] m.contains_key(id) implies exists|i: int|
        0 <= i < t.len() && (#[trigger] t[i]).0 == id by {
        let j = choose|j: int| 0 <= j < s.len() && (#[trigger] s[j]).0 == id;
        assert(s.contains(s[j]));
        assert(t.contains(s[j]));
        let i = choose|i: int| 0 <= i < t.len() && t[i] == s[j];
        assert(t[i].0 == id);
    }
}

/// The ids of `s` shrink from each entry to the next.
pub open spec fn decreasing(s: Seq<AreaVoxels>) -> bool {
    forall|i: int, j: int|
        0 <= i < j < s.len() ==> id_key((#[trigger] s[i]).0) > id_key((#[trigger] s[j]).0)
}

/// Every id of `s` is larger than every id of `t`.
pub open spec fn all_above(s: Seq<AreaVoxels>, t: Seq<AreaVoxels>) -> bool {
    forall|i: int, j: int|
        0 <= i < s.len() && 0 <= j < t.len() ==> id_key((#[trigger] s[i]).0) > id_key(
            (#[trigger] t[j]).0,
        )
}

/// No id of `s` is an id of `t`.
pub open spec fn no_common_id(s: Seq<AreaVoxels>, t: Seq<AreaVoxels>) -> bool {
    forall|i: int, j: int|
        0 <= i < s.len() && 0 <= j < t.len() ==> (#[trigger] s[i]).0 != (#[trigger] t[j]).0
}

/// Turns a row of areas whose ids shrink into the row whose ids grow.
fn reversed(stack: Vec<VoxelArea>) -> (out: Vec<VoxelArea>)
    requires
        decreasing(views(stack@)),
    ensures
        increasing(views(out@)),
        same_members(views(stack@), views(out@)),
        out@.len() == stack@.len(),
{
    let ghost given = views(stack@);
    let mut stack = stack;
    let mut out: Vec<VoxelArea> = Vec::new();
    while stack.len() > 0
        invariant
            views(stack@) == given.take(stack@.len() as int),
            stack@.len() <= given.len(),
            decreasing(given),
            increasing(views(out@)),
            all_above(views(stack@), views(out@)),
            forall|a: AreaVoxels|
                given.contains(a) <==> views(stack@).contains(a) || views(out@).contains(a),
            out@.len() + stack@.len() == given.len(),
        decreases stack@.len(),
    {
        let ghost stack0 = views(stack@);
        let ghost out0 = views(out@);
        let area = stack.pop().unwrap();
        out.push(area);
        proof {
            let stack1 = views(stack@);
            let out1 = views(out@);
            let n = out0.len() as int;
            let top = stack0.len() - 1;
            assert(stack1 =~= given.take(stack@.len() as int));
            assert(out1 =~= out0.push(area@));
            assert(area@ == stack0[top]);
            assert forall|i: int, j: int| 0 <= i < j < out1.len() implies id_key(
                (#[trigger] out1[i]).0,
            ) < id_key((#[trigger] out1[j]).0) by {
                if j < n {
                    assert(out1[i] == out0[i] && out1[j] == out0[j]);
                } else {
                    assert(out1[i] == out0[i]);
                    assert(id_key(stack0[top].0) > id_key(out0[i].0));
                }
            }
            assert forall|i: int, j: int| 0 <= i < stack1.len() && 0 <= j < out1.len() implies id_key(
                (#[trigger] stack1[i]).0,
            ) > id_key((#[trigger] out1[j]).0) by {
                assert(stack1[i] == stack0[i]);
                if j < n {
                    assert(out1[j] == out0[j]);
                } else {
                    assert(stack0[i] == given[i] && stack0[top] == given[top]);
                }
            }
            assert forall|a: AreaVoxels|
                given.contains(a) <==> stack1.contains(a) || out1.contains(a) by {
                if stack0.contains(a) {
                    let i = choose|i: int| 0 <= i < stack0.len() && stack0[i] == a;
                    if i == top {
                        assert(out1[n] == a);
                    } else {
                        assert(stack1[i] == a);
                    }
                }
                if out0.contains(a) {
                    let i = choose|i: int| 0 <= i < out0.len() && out0[i] == a;
                    assert(out1[i] == a);
                }
                if stack1.contains(a) {
                    let i = choose|i: int| 0 <= i < stack1.len() && stack1[i] == a;
                    assert(stack0[i] == a);
                }
                if out1.contains(a) {
                    let i = choose|i: int| 0 <= i < out1.len() && out1[i] == a;
                    if i < n {
                        assert(out0[i] == a);
                    } else {
                        assert(stack0[top] == a);
                    }
                }
            }
        }
    }
    proof {
        assert(given.take(0) =~= Seq::<AreaVoxels>::empty());
        assert forall|a: AreaVoxels| given.contains(a) <==> views(out@).contains(a) by {
            if views(stack@).contains(a) {
                let i = choose|i: int| 0 <= i < views(stack@).len() && views(stack@)[i] == a;
            }
        }
    }
    out
}

/// Merges two rows of areas whose ids grow, and that share no id, into one
/// row whose ids grow.
fn merge_by_id(left: Vec<VoxelArea>, right: Vec<VoxelArea>) -> (out: Vec<VoxelArea>)
    requires
        increasing(views(left@)),
        increasing(views(right@)),
        six_byte_ids(views(left@)),
        six_byte_ids(views(right@)),
        no_common_id(views(left@), views(right@)),
    ensures
        increasing(views(out@)),
        forall|a: AreaVoxels|
            views(out@).contains(a) <==> views(left@).contains(a) || views(right@).contains(a),
        out@.len() == left@.len() + right@.len(),
{
    let ghost left0 = views(left@);
    let ghost right0 = views(right@);
    let mut left = left;
    let mut right = right;
    let mut stack: Vec<VoxelArea> = Vec::new();
    while left.len() > 0 || right.len() > 0
        invariant
            left@.len() <= left0.len(),
            right@.len() <= right0.len(),
            views(left@) == left0.take(left@.len() as int),
            views(right@) == right0.take(right@.len() as int),
            increasing(left0),
            increasing(right0),
            six_byte_ids(left0),
            six_byte_ids(right0),
            no_common_id(left0, right0),
            decreasing(views(stack@)),
            all_above(views(stack@), views(left@)),
            all_above(views(stack@), views(right@)),
            forall|a: AreaVoxels|
                left0.contains(a) || right0.contains(a) <==> views(stack@).contains(a) || views(
                    left@,
                ).contains(a) || views(right@).contains(a),
            stack@.len() + left@.len() + right@.len() == left0.len() + right0.len(),
        decreases left@.len() + right@.len(),
    {
        let ghost l = views(left@);
        let ghost r = views(right@);
        let ghost s0 = views(stack@);
        let from_left: bool = if right.len() == 0 {
            true
        } else if left.len() == 0 {
            false
        } else {
            proof {
                assert(l[l.len() - 1] == left0[l.len() - 1]);
                assert(r[r.len() - 1] == right0[r.len() - 1]);
            }
            key_of(&left[left.len() - 1].id) > key_of(&right[right.len() - 1].id)
        };
        let area = if from_left {
            left.pop().unwrap()
        } else {
            right.pop().unwrap()
        };
        stack.push(area);
        proof {
            let l1 = views(left@);
            let r1 = views(right@);
            let s1 = views(stack@);
            let n = s0.len() as int;
            assert(l1 =~= left0.take(left@.len() as int));
            assert(r1 =~= right0.take(right@.len() as int));
            assert(s1 =~= s0.push(area@));
            if from_left {
                let top = l.len() - 1;
                assert(area@ == l[top]);
                assert(l[top] == left0[top]);
                assert forall|j: int| 0 <= j < l1.len() implies id_key(area@.0) > id_key(
                    (#[trigger] l1[j]).0,
                ) by {
                    assert(l1[j] == left0[j]);
                }
                assert forall|j: int| 0 <= j < r1.len() implies id_key(area@.0) > id_key(
                    (#[trigger] r1[j]).0,
                ) by {
                    let last = r.len() - 1;
                    assert(r1[j] == right0[j] && r[last] == right0[last]);
                    assert(id_key(area@.0) > id_key(r[last].0));
                }
            } else {
                let top = r.len() - 1;
                assert(area@ == r[top]);
                assert(r[top] == right0[top]);
                assert forall|j: int| 0 <= j < r1.len() implies id_key(area@.0) > id_key(
                    (#[trigger] r1[j]).0,
                ) by {
                    assert(r1[j] == right0[j]);
                }
                assert forall|j: int| 0 <= j < l1.len() implies id_key(area@.0) > id_key(
                    (#[trigger] l1[j]).0,
                ) by {
                    let last = l.len() - 1;
                    assert(l1[j] == left0[j] && l[last] == left0[last]);
                    assert(left0[last].0 != right0[top].0);
                    if id_key(l[last].0) == id_key(r[top].0) {
                        lemma_id_key_injective(l[last].0, r[top].0);
                    }
                    assert(id_key(area@.0) > id_key(l[last].0));
                }
            }
            assert forall|i: int, j: int| 0 <= i < j < s1.len() implies id_key(
                (#[trigger] s1[i]).0,
            ) > id_key((#[trigger] s1[j]).0) by {
                assert(s1[i] == s0[i]);
                if j < n {
                    assert(s1[j] == s0[j]);
                } else {
                    if from_left {
                        assert(id_key(s0[i].0) > id_key(l[l.len() - 1].0));
                    } else {
                        assert(id_key(s0[i].0) > id_key(r[r.len() - 1].0));
                    }
                }
            }
            assert forall|i: int, j: int| 0 <= i < s1.len() && 0 <= j < l1.len() implies id_key(
                (#[trigger] s1[i]).0,
            ) > id_key((#[trigger] l1[j]).0) by {
                if i < n {
                    assert(s1[i] == s0[i]);
                    assert(l1[j] == l[j]);
                }
            }
            assert forall|i: int, j: int| 0 <= i < s1.len() && 0 <= j < r1.len() implies id_key(
                (#[trigger] s1[i]).0,
            ) > id_key((#[trigger] r1[j]).0) by {
                if i < n {
                    assert(s1[i] == s0[i]);
                    assert(r1[j] == r[j]);
                }
            }
            assert forall|a: AreaVoxels|
                left0.contains(a) || right0.contains(a) <==> s1.contains(a) || l1.contains(a)
                    || r1.contains(a) by {
                if s0.contains(a) {
                    let i = choose|i: int| 0 <= i < s0.len() && s0[i] == a;
                    assert(s1[i] == a);
                }
                if l.contains(a) {
                    let i = choose|i: int| 0 <= i < l.len() && l[i] == a;
                    if from_left && i == l.len() - 1 {
                        assert(s1[n] == a);
                    } else {
                        assert(l1[i] == a);
                    }
                }
                if r.contains(a) {
                    let i = choose|i: int| 0 <= i < r.len() && r[i] == a;
                    if !from_left && i == r.len() - 1 {
                        assert(s1[n] == a);
                    } else {
                        assert(r1[i] == a);
                    }
                }
                if s1.contains(a) {
                    let i = choose|i: int| 0 <= i < s1.len() && s1[i] == a;
                    if i < n {
                        assert(s0[i] == a);
                    } else if from_left {
                        assert(l[l.len() - 1] == a);
                    } else {
                        assert(r[r.len() - 1] == a);
                    }
                }
                if l1.contains(a) {
                    let i = choose|i: int| 0 <= i < l1.len() && l1[i] == a;
                    assert(l[i] == a);
                }
                if r1.contains(a) {
                    let i = choose|i: int| 0 <= i < r1.len() && r1[i] == a;
                    assert(r[i] == a);
                }
            }
        }
    }
    proof {
        assert(left0.take(left0.len() as int) =~= left0);
        assert(right0.take(right0.len() as int) =~= right0);
    }
    let ghost s = views(stack@);
    let out = reversed(stack);
    proof {
        assert forall|a: AreaVoxels|
            views(out@).contains(a) <==> left0.contains(a) || right0.contains(a) by {
            if views(left@).contains(a) {
                let i = choose|i: int| 0 <= i < views(left@).len() && views(left@)[i] == a;
            }
            if views(right@).contains(a) {
                let i = choose|i: int| 0 <= i < views(right@).len() && views(right@)[i] == a;
            }
            assert(s.contains(a) <==> views(out@).contains(a));
        }
    }
    out
}

/// Puts areas with different six-byte ids in the order of their ids.
pub fn sort_by_id(areas: Vec<VoxelArea>) -> (sorted: Vec<VoxelArea>)
    requires
        six_byte_ids(views(areas@)),
        no_id_twice(views(areas@)),
    ensures
        increasing(views(sorted@)),
        same_members(views(areas@), views(sorted@)),
        sorted@.len() == areas@.len(),
    decreases areas@.len(),
{
    let n: usize = areas.len();
    if n <= 1 {
        return areas;
    }
    let ghost given = views(areas@);
    let mut left = areas;
    let right = left.split_off(n / 2);
    let ghost half = (n / 2) as int;
    let ghost l0 = views(left@);
    let ghost r0 = views(right@);
    proof {
        assert(l0 =~= given.subrange(0, half));
        assert(r0 =~= given.subrange(half, n as int));
        assert forall|i: int| 0 <= i < l0.len() implies (#[trigger] l0[i]).0.len() == 6 by {
            assert(l0[i] == given[i]);
        }
        assert forall|i: int| 0 <= i < r0.len() implies (#[trigger] r0[i]).0.len() == 6 by {
            assert(r0[i] == given[half + i]);
        }
        assert forall|i: int, j: int| 0 <= i < j < l0.len() implies (#[trigger] l0[i]).0
            != (#[trigger] l0[j]).0 by {
            assert(l0[i] == given[i] && l0[j] == given[j]);
        }
        assert forall|i: int, j: int| 0 <= i < j < r0.len() implies (#[trigger] r0[i]).0
            != (#[trigger] r0[j]).0 by {
            assert(r0[i] == given[half + i] && r0[j] == given[half + j]);
        }
    }
    let left = sort_by_id(left);
    let right = sort_by_id(right);
    proof {
        let l = views(left@);
        let r = views(right@);
        assert forall|i: int| 0 <= i < l.len() implies (#[trigger] l[i]).0.len() == 6 by {
            assert(l.contains(l[i]));
            let k = choose|k: int| 0 <= k < l0.len() && l0[k] == l[i];
        }
        assert forall|i: int| 0 <= i < r.len() implies (#[trigger] r[i]).0.len() == 6 by {
            assert(r.contains(r[i]));
            let k = choose|k: int| 0 <= k < r0.len() && r0[k] == r[i];
        }
        assert forall|i: int, j: int| 0 <= i < l.len() && 0 <= j < r.len() implies (#[trigger] l[i]).0
            != (#[trigger] r[j]).0 by {
            assert(l.contains(l[i]));
            assert(r.contains(r[j]));
            let ki = choose|k: int| 0 <= k < l0.len() && l0[k] == l[i];
            let kj = choose|k: int| 0 <= k < r0.len() && r0[k] == r[j];
            assert(l0[ki] == given[ki] && r0[kj] == given[half + kj]);
        }
    }
    let sorted = merge_by_id(left, right);
    proof {
        let out = views(sorted@);
        assert forall|a: AreaVoxels| given.contains(a) <==> out.contains(a) by {
            if given.contains(a) {
                let k = choose|k: int| 0 <= k < given.len() && given[k] == a;
                if k < half {
                    assert(l0[k] == a);
                } else {
                    assert(r0[k - half] == a);
                }
            }
            if l0.contains(a) {
                let k = choose|k: int| 0 <= k < l0.len() && l0[k] == a;
                assert(given[k] == a);
            }
            if r0.contains(a) {
                let k = choose|k: int| 0 <= k < r0.len() && r0[k] == a;
                assert(given[half + k] == a);
            }
        }
    }
    sorted
}

/// One area as signed arrays, with the bytes of its id.
pub type KeyedView = (Seq<u8>, AreaView);

/// An area's arrays together with the six bytes of its cortical id.
#[derive(Clone, Debug, PartialEq, Eq)]
pub struct KeyedArea {
    pub id: Vec<u8>,
    pub area: AreaOutput,
}

impl View for KeyedArea {
    type V = KeyedView;

    open spec fn view(&self) -> KeyedView {
        (self.id@, self.area@)
    }
}

/// The areas of `areas` as plain values.
pub open spec fn keyed_views(areas: Seq<KeyedArea>) -> Seq<KeyedView> {
    areas.map_values(|a: KeyedArea| a@)
}

/// The voxels as four parallel arrays; each coordinate is read as a two's
/// complement number.
pub open spec fn signed_area(voxels: Seq<Voxel>) -> AreaView {
    AreaView {
        x: Seq::new(voxels.len(), |k: int| signed32(voxels[k].0 as int) as i32),
        y: Seq::new(voxels.len(), |k: int| signed32(voxels[k].1 as int) as i32),
        z: Seq::new(voxels.len(), |k: int| signed32(voxels[k].2 as int) as i32),
        p: Seq::new(voxels.len(), |k: int| voxels[k].3),
    }
}

/// The first `n` areas of `s` as signed arrays, without the areas that
/// hold no voxel.
pub open spec fn converted_upto(s: Seq<AreaVoxels>, n: int) -> Seq<KeyedView>
    decreases n,
{
    if n <= 0 {
        Seq::empty()
    } else if s[n - 1].1.len() == 0 {
        converted_upto(s, n - 1)
    } else {
        converted_upto(s, n - 1).push((s[n - 1].0, signed_area(s[n - 1].1)))
    }
}

/// The voxels of the first `n` areas of `s`, counted.
pub open spec fn count_upto(s: Seq<AreaVoxels>, n: int) -> int
    decreases n,
{
    if n <= 0 {
        0
    } else {
        count_upto(s, n - 1) + s[n - 1].1.len()
    }
}

/// The voxels of the first `n` areas of `s` in one row, area after area.
pub open spec fn flattened_upto(s: Seq<AreaVoxels>, n: int) -> Seq<Voxel>
    decreases n,
{
    if n <= 0 {
        Seq::empty()
    } else {
        flattened_upto(s, n - 1) + s[n - 1].1
    }
}

/// The areas of `s` as signed arrays, without the areas that hold no voxel.
pub open spec fn converted(s: Seq<AreaVoxels>) -> Seq<KeyedView> {
    converted_upto(s, s.len() as int)
}

/// The voxels of all areas of `s`, counted.
pub open spec fn voxel_count(s: Seq<AreaVoxels>) -> int {
    count_upto(s, s.len() as int)
}

/// The voxels of all areas of `s` in one row, area after area.
pub open spec fn flattened(s: Seq<AreaVoxels>) -> Seq<Voxel> {
    flattened_upto(s, s.len() as int)
}

/// The first `max_neurons` entries of `s` where `max_neurons` is positive
/// and `s` is longer; else all of `s`.
pub open spec fn capped<T>(s: Seq<T>, max_neurons: int) -> Seq<T> {
    if 0 < max_neurons < s.len() {
        s.take(max_neurons)
    } else {
        s
    }
}

/// What decoding through the voxel collection answers.
#[derive(Clone, Debug, PartialEq, Eq)]
pub struct DecodedAreas {
    /// The areas that hold a voxel.
    pub areas: Vec<KeyedArea>,
    /// The voxels of all areas, counted modulo 2^32 and read as a two's
    /// complement number.
    pub total_neurons: i32,
}

impl DecodedAreas {
    /// This is what the areas `s` convert to.
    pub open spec fn holds(&self, s: Seq<AreaVoxels>) -> bool {
        &&& keyed_views(self.areas@) == converted(s)
        &&& self.total_neurons == signed32(voxel_count(s) % 0x1_0000_0000)
    }
}

/// Copies bytes.
pub fn copy_bytes(bytes: &Vec<u8>) -> (copy: Vec<u8>)
    ensures
        copy@ == bytes@,
{
    let mut copy: Vec<u8> = Vec::with_capacity(bytes.len());
    let mut k: usize = 0;
    while k < bytes.len()
        invariant
            k <= bytes@.len(),
            copy@ == bytes@.take(k as int),
        decreases bytes@.len() - k,
    {
        copy.push(bytes[k]);
        k = k + 1;
        assert(copy@ =~= bytes@.take(k as int));
    }
    assert(bytes@.take(bytes@.len() as int) =~= bytes@);
    copy
}

/// Splits voxels into four parallel arrays.
pub fn convert_area(voxels: &Vec<Voxel>) -> (area: AreaOutput)
    ensures
        area@ == signed_area(voxels@),
{
    let n: usize = voxels.len();
    let mut x_array: Vec<i32> = Vec::with_capacity(n);
    let mut y_array: Vec<i32> = Vec::with_capacity(n);
    let mut z_array: Vec<i32> = Vec::with_capacity(n);
    let mut p_array: Vec<u32> = Vec::with_capacity(n);
    let mut k: usize = 0;
    while k < n
        invariant
            k <= n == voxels@.len(),
            x_array@ == signed_area(voxels@).x.take(k as int),
            y_array@ == signed_area(voxels@).y.take(k as int),
            z_array@ == signed_area(voxels@).z.take(k as int),
            p_array@ == signed_area(voxels@).p.take(k as int),
        decreases n - k,
    {
        let v: Voxel = voxels[k];
        x_array.push(to_signed(v.0));
        y_array.push(to_signed(v.1));
        z_array.push(to_signed(v.2));
        p_array.push(v.3);
        k = k + 1;
        assert(x_array@ =~= signed_area(voxels@).x.take(k as int));
        assert(y_array@ =~= signed_area(voxels@).y.take(k as int));
        assert(z_array@ =~= signed_area(voxels@).z.take(k as int));
        assert(p_array@ =~= signed_area(voxels@).p.take(k as int));
    }
    assert(x_array@ =~= signed_area(voxels@).x);
    assert(y_array@ =~= signed_area(voxels@).y);
    assert(z_array@ =~= signed_area(voxels@).z);
    assert(p_array@ =~= signed_area(voxels@).p);
    AreaOutput { x_array, y_array, z_array, p_array }
}

/// Turns areas into signed arrays and counts their voxels. Areas that hold
/// no voxel are left out.
pub fn convert_neuron_data(areas: &Vec<VoxelArea>) -> (out: DecodedAreas)
    ensures
        out.holds(views(areas@)),
{
    let ghost s = views(areas@);
    let mut converted: Vec<KeyedArea> = Vec::new();
    let mut total: u32 = 0;
    let mut i: usize = 0;
    while i < areas.len()
        invariant
            i <= areas@.len(),
            s == views(areas@),
            keyed_views(converted@) == converted_upto(s, i as int),
            total == count_upto(s, i as int) % 0x1_0000_0000,
        decreases areas@.len() - i,
    {
        let area = &areas[i];
        let n: usize = area.neurons.len();
        assert(s[i as int] == area@);
        i = i + 1;
        if n == 0 {
            continue ;
        }
        let low: u32 = (n as u64 % 0x1_0000_0000) as u32;
        proof {
            lemma_wrapping_sum(total, low, count_upto(s, i - 1), n as int);
        }
        total = total.wrapping_add(low);
        let ghost before = keyed_views(converted@);
        converted.push(KeyedArea { id: copy_bytes(&area.id), area: convert_area(&area.neurons) });
        assert(keyed_views(converted@) =~= before.push((area.id@, signed_area(area.neurons@))));
    }
    DecodedAreas { areas: converted, total_neurons: to_signed(total) }
}

/// The row of the first `i` areas starts the row of the first `n`.
pub proof fn lemma_flattened_prefix(s: Seq<AreaVoxels>, i: int, n: int)
    requires
        0 <= i <= n,
    ensures
        flattened_upto(s, i).len() <= flattened_upto(s, n).len(),
        flattened_upto(s, n).take(flattened_upto(s, i).len() as int) == flattened_upto(s, i),
    decreases n - i,
{
    if i < n {
        lemma_flattened_prefix(s, i, n - 1);
        assert(flattened_upto(s, n).take(flattened_upto(s, i).len() as int) =~= flattened_upto(
            s,
            n - 1,
        ).take(flattened_upto(s, i).len() as int));
    } else {
        assert(flattened_upto(s, n).take(flattened_upto(s, i).len() as int) =~= flattened_upto(
            s,
            i,
        ));
    }
}

/// Lays the voxels of all areas out in one row, area after area, and stops
/// after `max_neurons` voxels where `max_neurons` is positive.
pub fn collect_neurons(areas: &Vec<VoxelArea>, max_neurons: i32) -> (row: Vec<Voxel>)
    ensures
        row@ == capped(flattened(views(areas@)), max_neurons as int),
{
    let ghost s = views(areas@);
    let ghost whole = flattened(s);
    let limited: bool = max_neurons > 0;
    let limit: usize = if limited {
        max_neurons as usize
    } else {
        0
    };
    let mut row: Vec<Voxel> = Vec::new();
    let mut i: usize = 0;
    while i < areas.len()
        invariant
            i <= areas@.len(),
            s == views(areas@),
            whole == flattened(s),
            limited == (max_neurons > 0),
            limited ==> limit == max_neurons,
            limited ==> row@.len() <= limit,
            row@ == flattened_upto(s, i as int),
        decreases areas@.len() - i,
    {
        let neurons = &areas[i].neurons;
        assert(s[i as int].1 == neurons@);
        let mut k: usize = 0;
        while k < neurons.len()
            invariant
                i < areas@.len(),
                s == views(areas@),
                whole == flattened(s),
                s[i as int].1 == neurons@,
                k <= neurons@.len(),
                limited == (max_neurons > 0),
                limited ==> limit == max_neurons,
                limited ==> row@.len() <= limit,
                row@ == flattened_upto(s, i as int) + neurons@.take(k as int),
            decreases neurons@.len() - k,
        {
            if limited && row.len() >= limit {
                proof {
                    lemma_flattened_prefix(s, i as int + 1, s.len() as int);
                    let upto = flattened_upto(s, i as int + 1);
                    assert(upto == flattened_upto(s, i as int) + neurons@);
                    assert(row@ =~= upto.take(limit as int));
                    assert(whole.take(upto.len() as int) == upto);
                    assert(row@ =~= whole.take(limit as int));
                }
                return row;
            }
            row.push(neurons[k]);
            k = k + 1;
            assert(row@ =~= flattened_upto(s, i as int) + neurons@.take(k as int));
        }
        assert(neurons@.take(k as int) =~= neurons@);
        i = i + 1;
    }
    row
}

/// A map has one sorted listing.
pub proof fn lemma_sorted_listing_unique(
    s: Seq<AreaVoxels>,
    t: Seq<AreaVoxels>,
    m: Map<Seq<u8>, Seq<Voxel>>,
)
    requires
        is_sorted_listing(s, m),
        is_sorted_listing(t, m),
    ensures
        s == t,
    decreases s.len(),
{
    if s.len() == 0 {
        if t.len() > 0 {
            assert(m.contains_key(t[0].0));
        }
        assert(s =~= t);
    } else if t.len() == 0 {
        assert(m.contains_key(s[0].0));
    } else {
        let a = s.last();
        let b = t.last();
        assert(m.contains_key(a.0) && m.contains_key(b.0));
        let i = choose|i: int| 0 <= i < t.len() && (#[trigger] t[i]).0 == a.0;
        let j = choose|j: int| 0 <= j < s.len() && (#[trigger] s[j]).0 == b.0;
        assert(id_key(a.0) <= id_key(b.0));
        assert(id_key(b.0) <= id_key(a.0));
        lemma_id_key_injective(a.0, b.0);
        assert(a == b);
        let s1 = s.drop_last();
        let t1 = t.drop_last();
        let m1 = m.remove(a.0);
        assert forall|id: Seq<u8>| #[trigger] m1.contains_key(id) implies exists|k: int|
            0 <= k < s1.len() && (#[trigger] s1[k]).0 == id by {
            let k = choose|k: int| 0 <= k < s.len() && (#[trigger] s[k]).0 == id;
            assert(s1[k].0 == id);
        }
        assert forall|id: Seq<u8>| #[trigger] m1.contains_key(id) implies exists|k: int|
            0 <= k < t1.len() && (#[trigger] t1[k]).0 == id by {
            let k = choose|k: int| 0 <= k < t.len() && (#[trigger] t[k]).0 == id;
            assert(t1[k].0 == id);
        }
        assert forall|k: int| 0 <= k < s1.len() implies m1.contains_key((#[trigger] s1[k]).0)
            && m1[s1[k].0] == s1[k].1 by {
            assert(s1[k] == s[k]);
        }
        assert forall|k: int| 0 <= k < t1.len() implies m1.contains_key((#[trigger] t1[k]).0)
            && m1[t1[k].0] == t1[k].1 by {
            assert(t1[k] == t[k]);
        }
        assert(is_sorted_listing(s1, m1));
        assert(is_sorted_listing(t1, m1));
        lemma_sorted_listing_unique(s1, t1, m1);
        assert(s =~= s1.push(a));
        assert(t =~= t1.push(b));
    }
}

/// A sorted listing of a map is the sorted listing of that map.
pub proof fn lemma_is_the_sorted_listing(s: Seq<AreaVoxels>, m: Map<Seq<u8>, Seq<Voxel>>)
    requires
        is_sorted_listing(s, m),
    ensures
        s == sorted_listing(m),
{
    lemma_sorted_listing_unique(s, sorted_listing(m), m);
}

/// The lattice positions of voxels, in their order.
pub open spec fn positions_of(voxels: Seq<Voxel>) -> Seq<(u32, u32, u32)> {
    voxels.map_values(|v: Voxel| (v.0, v.1, v.2))
}

/// Takes the lattice position of each voxel.
pub fn positions(voxels: &Vec<Voxel>) -> (coords: Vec<(u32, u32, u32)>)
    ensures
        coords@ == positions_of(voxels@),
{
    let mut coords: Vec<(u32, u32, u32)> = Vec::with_capacity(voxels.len());
    let mut i: usize = 0;
    while i < voxels.len()
        invariant
            i <= voxels@.len(),
            coords@ == positions_of(voxels@).take(i as int),
        decreases voxels@.len() - i,
    {
        let v: Voxel = voxels[i];
        coords.push((v.0, v.1, v.2));
        i = i + 1;
        assert(coords@ =~= positions_of(voxels@).take(i as int));
    }
    assert(positions_of(voxels@).take(voxels@.len() as int) =~= positions_of(voxels@));
    coords
}

} // verus!
