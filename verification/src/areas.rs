//! The decoded arrays of one cortical area, and areas keyed by their id.

use vstd::prelude::*;

verus! {

/// The arrays of one area as sequences.
pub struct AreaView {
    pub x: Seq<i32>,
    pub y: Seq<i32>,
    pub z: Seq<i32>,
    pub p: Seq<u32>,
}

/// The decoded arrays of one cortical area. The four arrays are parallel:
/// entry `k` of each belongs to neuron `k`. A potential is held as the bit
/// pattern of its IEEE 754 single-precision value.
#[derive(Clone, Debug, PartialEq, Eq)]
pub struct AreaOutput {
    pub x_array: Vec<i32>,
    pub y_array: Vec<i32>,
    pub z_array: Vec<i32>,
    pub p_array: Vec<u32>,
}

impl View for AreaOutput {
    type V = AreaView;

    open spec fn view(&self) -> AreaView {
        AreaView { x: self.x_array@, y: self.y_array@, z: self.z_array@, p: self.p_array@ }
    }
}

/// One area with the id it is filed under.
#[derive(Clone, Debug, PartialEq, Eq)]
pub struct AreaEntry {
    pub id: String,
    pub area: AreaOutput,
}

/// Some entry of `entries` is filed under `id`.
pub open spec fn has_id(entries: Seq<AreaEntry>, id: Seq<char>) -> bool {
    exists|i: int| 0 <= i < entries.len() && (#[trigger] entries[i]).id@ == id
}

/// The position of an entry filed under `id`.
pub open spec fn position_of(entries: Seq<AreaEntry>, id: Seq<char>) -> int {
    choose|i: int| 0 <= i < entries.len() && (#[trigger] entries[i]).id@ == id
}

/// No two entries share an id.
pub open spec fn distinct_ids(entries: Seq<AreaEntry>) -> bool {
    forall|i: int, j: int|
        0 <= i < j < entries.len() ==> (#[trigger] entries[i]).id@ != (#[trigger] entries[j]).id@
}

/// The map from id to arrays that `entries` lists.
pub open spec fn entries_map(entries: Seq<AreaEntry>) -> Map<Seq<char>, AreaView> {
    Map::new(|id: Seq<char>| has_id(entries, id), |id: Seq<char>| entries[position_of(entries, id)].area@)
}

/// Areas keyed by id. An id occurs once; filing an area under an id that
/// is present replaces the arrays that were there.
#[derive(Debug, PartialEq, Eq)]
pub struct AreaMap {
    entries: Vec<AreaEntry>,
}

impl View for AreaMap {
    type V = Map<Seq<char>, AreaView>;

    closed spec fn view(&self) -> Map<Seq<char>, AreaView> {
        entries_map(self.entries@)
    }
}

/// Finds the entry that is filed under `id`.
fn find_entry(entries: &Vec<AreaEntry>, id: &String) -> (r: Option<usize>)
    ensures
        match r {
            Some(i) => i < entries@.len() && entries@[i as int].id@ == id@,
            None => !has_id(entries@, id@),
        },
{
    let mut i: usize = 0;
    while i < entries.len()
        invariant
            i <= entries@.len(),
            forall|j: int| 0 <= j < i ==> (#[trigger] entries@[j]).id@ != id@,
        decreases entries@.len() - i,
    {
        if entries[i].id == *id {
            return Some(i);
        }
        i = i + 1;
    }
    None
}

impl AreaMap {
    #[verifier::type_invariant]
    spec fn no_id_twice(&self) -> bool {
        distinct_ids(self.entries@)
    }

    /// The entries in the order in which their ids first came.
    pub closed spec fn listing(&self) -> Seq<AreaEntry> {
        self.entries@
    }

    /// A map without areas.
    pub fn new() -> (m: AreaMap)
        ensures
            m@ == Map::<Seq<char>, AreaView>::empty(),
            m.listing().len() == 0,
    {
        let m = AreaMap { entries: Vec::new() };
        assert(m@ =~= Map::<Seq<char>, AreaView>::empty());
        m
    }

    /// The number of areas.
    pub fn len(&self) -> (n: usize)
        ensures
            n == self.listing().len(),
    {
        self.entries.len()
    }

    /// Whether there is no area.
    pub fn is_empty(&self) -> (b: bool)
        ensures
            b == (self.listing().len() == 0),
    {
        self.entries.len() == 0
    }

    /// The entry at position `i` of the listing.
    pub fn entry(&self, i: usize) -> (e: &AreaEntry)
        requires
            i < self.listing().len(),
        ensures
            *e == self.listing()[i as int],
            self@.contains_key(e.id@),
            self@[e.id@] == e.area@,
    {
        proof {
            use_type_invariant(self);
            assert(has_id(self.entries@, self.entries@[i as int].id@));
        }
        &self.entries[i]
    }

    /// The arrays filed under `id`, if there are any.
    pub fn get(&self, id: &str) -> (r: Option<&AreaOutput>)
        ensures
            r is Some <==> self@.contains_key(id@),
            r matches Some(area) ==> area@ == self@[id@],
    {
        proof {
            use_type_invariant(self);
        }
        let key = id.to_owned();
        match find_entry(&self.entries, &key) {
            Some(i) => {
                assert(has_id(self.entries@, id@));
                Some(&self.entries[i].area)
            },
            None => None,
        }
    }

    /// Files `area` under `id`; arrays that were filed under `id` are
    /// replaced.
    pub fn insert(&mut self, id: String, area: AreaOutput)
        ensures
            final(self)@ == old(self)@.insert(id@, area@),
    {
        proof {
            use_type_invariant(&*self);
        }
        let ghost before = self.entries@;
        let ghost key = id@;
        let ghost value = area@;
        let mut entries: Vec<AreaEntry> = Vec::new();
        core::mem::swap(&mut self.entries, &mut entries);
        match find_entry(&entries, &id) {
            Some(i) => {
                entries[i] = AreaEntry { id, area };
                proof {
                    let after = entries@;
                    assert(after.len() == before.len());
                    assert forall|k: Seq<char>| has_id(after, k) == (has_id(before, k) || k == key) by {
                        if has_id(before, k) {
                            let j = position_of(before, k);
                            assert(after[j].id@ == k);
                        }
                        if k == key {
                            assert(after[i as int].id@ == k);
                        }
                        if has_id(after, k) {
                            let j = position_of(after, k);
                            assert(before[j].id@ == k);
                        }
                    }
                    assert forall|k: Seq<char>| has_id(after, k) implies entries_map(after)[k]
                        == entries_map(before).insert(key, value)[k] by {
                        let j = position_of(after, k);
                        if k == key {
                            assert(j == i);
                        } else {
                            assert(before[j].id@ == k);
                            assert(position_of(before, k) == j);
                        }
                    }
                    assert(entries_map(after) =~= entries_map(before).insert(key, value));
                }
            },
            None => {
                entries.push(AreaEntry { id, area });
                proof {
                    let after = entries@;
                    let n = before.len() as int;
                    assert(after[n].id@ == key);
                    assert forall|k: Seq<char>| has_id(after, k) == (has_id(before, k) || k == key) by {
                        if has_id(before, k) {
                            let j = position_of(before, k);
                            assert(after[j].id@ == k);
                        }
                        if has_id(after, k) {
                            let j = position_of(after, k);
                            if j < n {
                                assert(before[j].id@ == k);
                            }
                        }
                    }
                    assert forall|k: Seq<char>| has_id(after, k) implies entries_map(after)[k]
                        == entries_map(before).insert(key, value)[k] by {
                        let j = position_of(after, k);
                        if k == key {
                            if j < n {
                                assert(before[j].id@ == key);
                            }
                        } else {
                            assert(before[j].id@ == k);
                            assert(position_of(before, k) == j);
                        }
                    }
                    assert(entries_map(after) =~= entries_map(before).insert(key, value));
                }
            },
        }
        core::mem::swap(&mut self.entries, &mut entries);
    }
}

} // verus!
