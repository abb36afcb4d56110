//! The two component storage backends: a growable slot array keyed by
//! entity index, and an append/update paired list for transient data.
//!
//! Each backend is described by a small set of specification functions on
//! its backing sequence; the access views' contracts are stated over them,
//! and the laws that relate the operations are proved about them once.

use std::collections::VecDeque;

use vstd::prelude::*;

use crate::ecs::access::{Component, ComponentStorage, ReadAccess, RwAccess, WriteAccess};
use crate::ecs::entity::Entity;

verus! {

/// The backing-array slot an entity addresses: its index bits, narrowed to
/// the machine's word size the way the executable lookup narrows them.
pub open spec fn slot_of(e: Entity) -> int {
    (e.index_spec() as usize) as int
}

/// What a slot array holds for slot `i`: the slot's value when it exists,
/// empty otherwise.
pub open spec fn slot_fetch<C>(s: Seq<Option<C>>, i: int) -> Option<C> {
    if 0 <= i < s.len() {
        s[i]
    } else {
        None
    }
}

/// A slot array after writing `v` at slot `i`: existing slots are updated
/// in place, and a write beyond the current length grows the array,
/// filling the slots in between with empty.
pub open spec fn slot_set<C>(s: Seq<Option<C>>, i: int, v: C) -> Seq<Option<C>>
    recommends
        0 <= i,
{
    if i < s.len() {
        s.update(i, Some(v))
    } else {
        Seq::new(
            (i + 1) as nat,
            |j: int|
                if 0 <= j < s.len() {
                    s[j]
                } else if j == i {
                    Some(v)
                } else {
                    None
                },
        )
    }
}

/// A slot array after clearing slot `i`: the slot becomes empty and the
/// array never shrinks; clearing beyond the length changes nothing.
pub open spec fn slot_unset<C>(s: Seq<Option<C>>, i: int) -> Seq<Option<C>> {
    if 0 <= i < s.len() {
        s.update(i, None)
    } else {
        s
    }
}

/// The occupied entries of a slot array in ascending slot order, each
/// paired with the alive entity naming its slot.
pub open spec fn slot_entries<C>(s: Seq<Option<C>>) -> Seq<(Entity, C)>
    decreases s.len(),
{
    if s.len() == 0 {
        Seq::empty()
    } else {
        slot_entries(s.drop_last()) + match s.last() {
            Some(v) => seq![(Entity((s.len() - 1) as u64), v)],
            None => Seq::empty(),
        }
    }
}

/// Writing a slot and then reading it back yields the written value, and
/// no other slot is disturbed.
pub proof fn lemma_slot_set_fetch<C>(s: Seq<Option<C>>, i: int, v: C)
    requires
        0 <= i,
    ensures
        slot_fetch(slot_set(s, i, v), i) == Some(v),
        forall|j: int| j != i ==> #[trigger] slot_fetch(slot_set(s, i, v), j) == slot_fetch(s, j),
{
}

/// Clearing a slot and then reading it back yields empty — also when the
/// slot was never written — and no other slot is disturbed.
pub proof fn lemma_slot_unset_fetch<C>(s: Seq<Option<C>>, i: int)
    ensures
        slot_fetch(slot_unset(s, i), i) is None,
        forall|j: int| j != i ==> #[trigger] slot_fetch(slot_unset(s, i), j) == slot_fetch(s, j),
{
}

/// Every entry a slot array yields names a slot below the array's length,
/// and the entries come in strictly ascending slot order.
pub proof fn lemma_slot_entries_ascending<C>(s: Seq<Option<C>>)
    requires
        s.len() <= 0x1_0000_0000_0000_0000,
    ensures
        forall|j: int|
            0 <= j < slot_entries(s).len() ==> 0 <= #[trigger] slot_entries(s)[j].0.0 < s.len(),
        forall|j: int, k: int|
            0 <= j < k < slot_entries(s).len() ==> #[trigger] slot_entries(s)[j].0.0
                < #[trigger] slot_entries(s)[k].0.0,
        forall|j: int|
            0 <= j < slot_entries(s).len() ==> slot_fetch(s, #[trigger] slot_entries(s)[j].0.0 as int)
                == Some(slot_entries(s)[j].1),
    decreases s.len(),
{
    if s.len() > 0 {
        lemma_slot_entries_ascending(s.drop_last());
        let prev = slot_entries(s.drop_last());
        assert(forall|j: int|
            0 <= j < prev.len() ==> slot_fetch(s.drop_last(), #[trigger] prev[j].0.0 as int)
                == slot_fetch(s, prev[j].0.0 as int));
    }
}

/// A slot array yields an entry for every occupied slot: iteration omits
/// exactly the empty slots.
pub proof fn lemma_slot_entries_complete<C>(s: Seq<Option<C>>, i: int)
    requires
        s.len() <= 0x1_0000_0000_0000_0000,
        0 <= i < s.len(),
        s[i] is Some,
    ensures
        exists|j: int|
            0 <= j < slot_entries(s).len() && #[trigger] slot_entries(s)[j].0.0 == i
                && slot_entries(s)[j].1 == s[i]->0,
    decreases s.len(),
{
    if i == s.len() - 1 {
        let es = slot_entries(s);
        assert(es[es.len() - 1].0.0 == i && es[es.len() - 1].1 == s[i]->0);
    } else {
        lemma_slot_entries_complete(s.drop_last(), i);
        let prev = slot_entries(s.drop_last());
        let j = choose|j: int|
            0 <= j < prev.len() && #[trigger] prev[j].0.0 == i && prev[j].1
                == s.drop_last()[i]->0;
        assert(slot_entries(s)[j].0.0 == i);
    }
}

/// Entries of slot arrays short enough for every slot to fit in the index
/// bits name alive entities whose index is their slot.
pub proof fn lemma_slot_entries_alive<C>(s: Seq<Option<C>>)
    requires
        s.len() <= 0x0010_0000_0000_0000,
    ensures
        forall|j: int|
            0 <= j < slot_entries(s).len() ==> !(#[trigger] slot_entries(s)[j].0).is_dead_spec()
                && slot_entries(s)[j].0.index_spec() == slot_entries(s)[j].0.0,
{
    lemma_slot_entries_ascending(s);
    assert forall|j: int| 0 <= j < slot_entries(s).len() implies !(
    #[trigger] slot_entries(s)[j].0).is_dead_spec() && slot_entries(s)[j].0.index_spec()
        == slot_entries(s)[j].0.0 by {
        let b = slot_entries(s)[j].0.0;
        assert(b < 0x0010_0000_0000_0000 ==> (b >> 63 != 1) && (b & 0x000f_ffff_ffff_ffff) == b)
            by (bit_vector);
    }
}

/// Slot lookup shared by the slot-array views: the value at the entity's
/// slot, when the backing array reaches it.
fn slot_fetch_exec<'a, C: Component>(data: &'a Vec<Option<C>>, entity: Entity) -> (r: Option<
    &'a C,
>)
    ensures
        match r {
            Some(v) => slot_fetch(data@, slot_of(entity)) == Some(*v),
            None => slot_fetch(data@, slot_of(entity)) is None,
        },
{
    let i = entity.index();
    if i < data.len() {
        match &data[i] {
            Some(v) => Some(v),
            None => None,
        }
    } else {
        None
    }
}

/// Occupied-entry iteration shared by the slot-array views: ascending slot
/// order, empty slots omitted.
fn slot_iter_exec<'a, C: Component>(data: &'a Vec<Option<C>>) -> (r: Vec<(Entity, &'a C)>)
    ensures
        r@.len() == slot_entries(data@).len(),
        forall|j: int|
            0 <= j < r@.len() ==> r@[j].0 == #[trigger] slot_entries(data@)[j].0 && *r@[j].1
                == slot_entries(data@)[j].1,
{
    let n = data.len();
    let mut out: Vec<(Entity, &'a C)> = Vec::new();
    let mut i: usize = 0;
    while i < n
        invariant
            n == data@.len(),
            i <= n,
            out@.len() == slot_entries(data@.take(i as int)).len(),
            forall|j: int|
                0 <= j < out@.len() ==> out@[j].0 == #[trigger] slot_entries(
                    data@.take(i as int),
                )[j].0 && *out@[j].1 == slot_entries(data@.take(i as int))[j].1,
        decreases n - i,
    {
        proof {
            assert(data@.take(i + 1).drop_last() =~= data@.take(i as int));
            assert(data@.take(i + 1).last() == data@[i as int]);
        }
        match &data[i] {
            Some(v) => {
                out.push((Entity::new(i as u64), v));
                proof {
                    assert(*v == data@[i as int]->0);
                    assert(out@[out@.len() - 1].0 == Entity(i as u64));
                    assert(slot_entries(data@.take(i + 1)) == slot_entries(data@.take(i as int))
                        + seq![(Entity(i as u64), data@[i as int]->0)]);
                }
            },
            None => {
                proof {
                    assert(slot_entries(data@.take(i + 1)) =~= slot_entries(data@.take(i as int)));
                }
            },
        }
        i += 1;
    }
    proof {
        assert(data@.take(n as int) =~= data@);
    }
    out
}

/// Sparse slot-array storage keyed by entity index. Fast to read; a write
/// past the current length grows the backing array, so memory usage is
/// proportional to the highest slot ever written and holes are never
/// compacted.
pub struct VecStorage<C: Component> {
    data: Vec<Option<C>>,
}

impl<C: Component> VecStorage<C> {
    /// The backing array of slots.
    pub closed spec fn slots(&self) -> Seq<Option<C>> {
        self.data@
    }

    /// An empty slot-array storage.
    pub fn new() -> (s: VecStorage<C>)
        ensures
            s.slots() == Seq::<Option<C>>::empty(),
    {
        VecStorage { data: Vec::new() }
    }

    /// A shared read view over this storage's current contents; any number
    /// may be outstanding at once.
    pub fn read<'r>(&'r self) -> (r: VecReader<'r, C>)
        ensures
            r.slots() == self.slots(),
    {
        VecReader::new(&self.data)
    }
}

impl<C: Component> Default for VecStorage<C> {
    /// An empty slot-array storage.
    fn default() -> (s: VecStorage<C>)
        ensures
            s.slots() == Seq::<Option<C>>::empty(),
    {
        VecStorage::new()
    }
}

/// Shared read view over a [`VecStorage`]; many may exist at once.
pub struct VecReader<'r, C: Component> {
    data: &'r Vec<Option<C>>,
}

impl<'r, C: Component> VecReader<'r, C> {
    /// The slots this view reads.
    pub closed spec fn slots(&self) -> Seq<Option<C>> {
        self.data@
    }

    /// Wraps a borrowed slot array as a read view.
    pub fn new(data: &'r Vec<Option<C>>) -> (r: VecReader<'r, C>)
        ensures
            r.slots() == data@,
    {
        VecReader { data }
    }
}

impl<'r, C: Component> ReadAccess<C> for VecReader<'r, C> {
    open spec fn fetch_spec(&self, e: Entity) -> Option<C> {
        slot_fetch(self.slots(), slot_of(e))
    }

    open spec fn entries_spec(&self) -> Seq<(Entity, C)> {
        slot_entries(self.slots())
    }

    fn fetch(&self, entity: Entity) -> (r: Option<&C>) {
        slot_fetch_exec(self.data, entity)
    }

    fn iter(&self) -> (r: Vec<(Entity, &C)>) {
        slot_iter_exec(self.data)
    }
}

/// Exclusive write view over a [`VecStorage`]. It owns the slots while it
/// is outstanding, so no other view over the same storage instance can
/// exist beside it.
pub struct VecWriter<C: Component> {
    data: Vec<Option<C>>,
}

impl<C: Component> VecWriter<C> {
    /// The slots this view owns.
    pub closed spec fn slots(&self) -> Seq<Option<C>> {
        self.data@
    }

    /// Wraps an owned slot array as a write view.
    pub fn new(data: Vec<Option<C>>) -> (w: VecWriter<C>)
        ensures
            w.slots() == data@,
    {
        VecWriter { data }
    }
}

impl<C: Component> ReadAccess<C> for VecWriter<C> {
    open spec fn fetch_spec(&self, e: Entity) -> Option<C> {
        slot_fetch(self.slots(), slot_of(e))
    }

    open spec fn entries_spec(&self) -> Seq<(Entity, C)> {
        slot_entries(self.slots())
    }

    fn fetch(&self, entity: Entity) -> (r: Option<&C>) {
        slot_fetch_exec(&self.data, entity)
    }

    fn iter(&self) -> (r: Vec<(Entity, &C)>) {
        slot_iter_exec(&self.data)
    }
}

impl<C: Component> WriteAccess<C> for VecWriter<C> {
    open spec fn key_match(a: Entity, b: Entity) -> bool {
        slot_of(a) == slot_of(b)
    }

    fn set(&mut self, entity: Entity, value: C)
        ensures
            final(self).slots() == slot_set(old(self).slots(), slot_of(entity), value),
    {
        let index = entity.index();
        if index < self.data.len() {
            self.data[index] = Some(value);
        } else {
            let ghost orig = self.data@;
            while self.data.len() < index
                invariant
                    orig.len() <= self.data@.len() <= index,
                    forall|j: int| 0 <= j < orig.len() ==> self.data@[j] == orig[j],
                    forall|j: int| orig.len() <= j < self.data@.len() ==> self.data@[j] is None,
                decreases index - self.data.len(),
            {
                self.data.push(None);
            }
            self.data.push(Some(value));
            proof {
                assert(self.data@ =~= slot_set(orig, slot_of(entity), value));
            }
        }
        proof {
            lemma_slot_set_fetch(old(self).slots(), slot_of(entity), value);
            vstd::std_specs::vec::axiom_spec_len(&old(self).data);
            let s2 = slot_set(old(self).slots(), slot_of(entity), value);
            assert(s2[slot_of(entity)] is Some);
            lemma_slot_entries_complete(s2, slot_of(entity));
            let j = choose|j: int|
                0 <= j < slot_entries(s2).len() && #[trigger] slot_entries(s2)[j].0.0 == slot_of(
                    entity,
                ) && slot_entries(s2)[j].1 == s2[slot_of(entity)]->0;
            assert(self.entries_spec()[j].1 == value);
        }
    }

    fn unset(&mut self, entity: Entity)
        ensures
            final(self).slots() == slot_unset(old(self).slots(), slot_of(entity)),
    {
        let index = entity.index();
        if index < self.data.len() {
            self.data[index] = None;
        }
        proof {
            lemma_slot_unset_fetch(old(self).slots(), slot_of(entity));
        }
    }

    fn clear(&mut self)
        ensures
            final(self).slots() == Seq::<Option<C>>::empty(),
    {
        self.data.clear();
    }
}

impl<C: Component> RwAccess<C> for VecWriter<C> {

}

impl<C: Component> ComponentStorage<C> for VecStorage<C> {
    type Writer = VecWriter<C>;

    open spec fn fetch_spec(&self, e: Entity) -> Option<C> {
        slot_fetch(self.slots(), slot_of(e))
    }

    open spec fn entries_spec(&self) -> Seq<(Entity, C)> {
        slot_entries(self.slots())
    }

    fn write(self) -> (w: VecWriter<C>) {
        let ghost whole = self;
        let w = VecWriter::new(self.data);
        proof {
            assert forall|e: Entity| #[trigger] w.fetch_spec(e) == whole.fetch_spec(e) by {
                assert(w.slots() == whole.slots());
            }
        }
        w
    }

    fn release(writer: VecWriter<C>) -> (s: VecStorage<C>) {
        let s = VecStorage { data: writer.data };
        proof {
            assert forall|e: Entity| #[trigger] s.fetch_spec(e) == writer.fetch_spec(e) by {
                assert(s.slots() == writer.slots());
            }
        }
        s
    }

    fn fetch(&self, entity: Entity) -> (r: Option<&C>) {
        slot_fetch_exec(&self.data, entity)
    }

    fn iter(&self) -> (r: Vec<(Entity, &C)>) {
        slot_iter_exec(&self.data)
    }
}

/// The position of the first pair whose entity equals `e` — whole 64-bit
/// value, so a live and a killed copy of one index are distinct keys.
pub open spec fn pair_pos<C>(s: Seq<(Entity, C)>, e: Entity) -> Option<int>
    decreases s.len(),
{
    if s.len() == 0 {
        None
    } else if s[0].0 == e {
        Some(0int)
    } else {
        match pair_pos(s.subrange(1, s.len() as int), e) {
            Some(i) => Some(i + 1),
            None => None,
        }
    }
}

/// What a paired list holds for `e`: the component of the first pair whose
/// entity equals `e`, if any.
pub open spec fn pair_fetch<C>(s: Seq<(Entity, C)>, e: Entity) -> Option<C> {
    match pair_pos(s, e) {
        Some(i) => Some(s[i].1),
        None => None,
    }
}

/// A paired list after setting `e` to `v`: the first matching pair is
/// replaced in place, keeping its position, or the new pair is appended.
pub open spec fn pair_set<C>(s: Seq<(Entity, C)>, e: Entity, v: C) -> Seq<(Entity, C)> {
    match pair_pos(s, e) {
        Some(i) => s.update(i, (e, v)),
        None => s.push((e, v)),
    }
}

/// A paired list after unsetting `e`: every pair keyed by `e` is removed
/// and the order of the others is kept.
pub open spec fn pair_unset<C>(s: Seq<(Entity, C)>, e: Entity) -> Seq<(Entity, C)> {
    s.filter(|p: (Entity, C)| p.0 != e)
}

/// Where the first match sits: below it nothing matches, and at it the
/// entity is `e`; with no match, nothing in the list matches at all.
pub proof fn lemma_pair_pos<C>(s: Seq<(Entity, C)>, e: Entity)
    ensures
        match pair_pos(s, e) {
            Some(i) => 0 <= i < s.len() && s[i].0 == e && (forall|k: int|
                0 <= k < i ==> (#[trigger] s[k]).0 != e),
            None => forall|k: int| 0 <= k < s.len() ==> (#[trigger] s[k]).0 != e,
        },
    decreases s.len(),
{
    if s.len() > 0 && s[0].0 != e {
        let sub = s.subrange(1, s.len() as int);
        lemma_pair_pos(sub, e);
        assert(forall|k: int| 0 <= k < sub.len() ==> #[trigger] sub[k] == s[k + 1]);
        match pair_pos(sub, e) {
            Some(i) => {
                assert(s[i + 1] == sub[i]);
                assert forall|k: int| 0 <= k < i + 1 implies (#[trigger] s[k]).0 != e by {
                    if k > 0 {
                        assert(sub[k - 1] == s[k]);
                    }
                }
            },
            None => {
                assert forall|k: int| 0 <= k < s.len() implies (#[trigger] s[k]).0 != e by {
                    if k > 0 {
                        assert(sub[k - 1] == s[k]);
                    }
                }
            },
        }
    }
}

/// The first match is determined: a matching index with no match below it
/// is the position the search finds.
pub proof fn lemma_pair_pos_unique<C>(s: Seq<(Entity, C)>, e: Entity, j: int)
    requires
        0 <= j < s.len(),
        s[j].0 == e,
        forall|k: int| 0 <= k < j ==> (#[trigger] s[k]).0 != e,
    ensures
        pair_pos(s, e) == Some(j),
{
    lemma_pair_pos(s, e);
    match pair_pos(s, e) {
        Some(i) => {
            if i < j {
                assert(s[i].0 != e);
            } else if i > j {
                assert(s[j].0 != e);
            }
        },
        None => {
            assert(s[j].0 != e);
        },
    }
}

/// With pairwise-distinct keys — the invariant `set` and `unset` keep —
/// iteration and lookup of a paired list agree: each pair it yields
/// fetches back to exactly its own value.
pub proof fn lemma_pair_entries_fetch<C>(s: Seq<(Entity, C)>)
    requires
        forall|j: int, k: int| 0 <= j < k < s.len() ==> (#[trigger] s[j]).0 != (#[trigger] s[k]).0,
    ensures
        forall|j: int| 0 <= j < s.len() ==> pair_fetch(s, (#[trigger] s[j]).0) == Some(s[j].1),
{
    assert forall|j: int| 0 <= j < s.len() implies pair_fetch(s, (#[trigger] s[j]).0) == Some(
        s[j].1,
    ) by {
        lemma_pair_pos_unique(s, s[j].0, j);
    }
}

/// Setting a pair and then fetching it yields the set value, and every
/// other key fetches what it fetched before.
pub proof fn lemma_pair_set_fetch<C>(s: Seq<(Entity, C)>, e: Entity, v: C)
    ensures
        pair_fetch(pair_set(s, e, v), e) == Some(v),
        forall|x: Entity| x != e ==> #[trigger] pair_fetch(pair_set(s, e, v), x) == pair_fetch(
            s,
            x,
        ),
{
    lemma_pair_pos(s, e);
    let t = pair_set(s, e, v);
    match pair_pos(s, e) {
        Some(i) => {
            lemma_pair_pos_unique(t, e, i);
        },
        None => {
            lemma_pair_pos_unique(t, e, s.len() as int);
        },
    }
    assert forall|x: Entity| x != e implies #[trigger] pair_fetch(t, x) == pair_fetch(s, x) by {
        lemma_pair_pos(s, x);
        lemma_pair_pos(t, x);
        match pair_pos(s, x) {
            Some(j) => {
                lemma_pair_pos_unique(t, x, j);
            },
            None => {
                match pair_pos(t, x) {
                    Some(j) => {
                        assert(s[j].0 != x);
                    },
                    None => {},
                }
            },
        }
    }
}

/// Unsetting a key and then fetching it yields nothing — also when the key
/// was never set — and every other key fetches what it fetched before.
pub proof fn lemma_pair_unset_fetch<C>(s: Seq<(Entity, C)>, e: Entity)
    ensures
        pair_fetch(pair_unset(s, e), e) is None,
        forall|x: Entity| x != e ==> #[trigger] pair_fetch(pair_unset(s, e), x) == pair_fetch(
            s,
            x,
        ),
    decreases s.len(),
{
    reveal(Seq::filter);
    if s.len() > 0 {
        let head = s.drop_last();
        let p = s.last();
        lemma_pair_unset_fetch(head, e);
        assert(head.push(p) =~= s);
        assert(pair_unset(s, e) == (if p.0 != e {
            pair_unset(head, e).push(p)
        } else {
            pair_unset(head, e)
        }));
        if p.0 != e {
            lemma_pair_fetch_push(pair_unset(head, e), p, e);
        }
        assert forall|x: Entity| x != e implies #[trigger] pair_fetch(pair_unset(s, e), x)
            == pair_fetch(s, x) by {
            lemma_pair_fetch_push(head, p, x);
            if p.0 != e {
                lemma_pair_fetch_push(pair_unset(head, e), p, x);
            }
        }
    }
}

/// Fetching from a list with one pair appended: an earlier match wins, and
/// otherwise the appended pair answers exactly for its own key.
proof fn lemma_pair_fetch_push<C>(s: Seq<(Entity, C)>, p: (Entity, C), x: Entity)
    ensures
        pair_fetch(s.push(p), x) == if pair_fetch(s, x) is Some {
            pair_fetch(s, x)
        } else if p.0 == x {
            Some(p.1)
        } else {
            Option::<C>::None
        },
{
    lemma_pair_pos(s, x);
    let t = s.push(p);
    match pair_pos(s, x) {
        Some(i) => {
            lemma_pair_pos_unique(t, x, i);
        },
        None => {
            if p.0 == x {
                lemma_pair_pos_unique(t, x, s.len() as int);
            } else {
                lemma_pair_pos(t, x);
                match pair_pos(t, x) {
                    Some(j) => {
                        if j < s.len() {
                            assert(s[j].0 != x);
                        }
                    },
                    None => {},
                }
            }
        },
    }
}

/// First-match lookup shared by the paired-list views.
fn pair_fetch_exec<'a, C: Component>(data: &'a VecDeque<(Entity, C)>, entity: Entity) -> (r:
    Option<&'a C>)
    ensures
        match r {
            Some(v) => pair_fetch(data@, entity) == Some(*v),
            None => pair_fetch(data@, entity) is None,
        },
{
    let n = data.len();
    let mut j: usize = 0;
    while j < n
        invariant
            n == data@.len(),
            j <= n,
            forall|k: int| 0 <= k < j ==> (#[trigger] data@[k]).0 != entity,
        decreases n - j,
    {
        if data[j].0 == entity {
            proof {
                lemma_pair_pos_unique(data@, entity, j as int);
            }
            return Some(&data[j].1);
        }
        j += 1;
    }
    proof {
        lemma_pair_pos(data@, entity);
        match pair_pos(data@, entity) {
            Some(i) => {
                assert(data@[i].0 != entity);
            },
            None => {},
        }
    }
    None
}

/// Entry iteration shared by the paired-list views: the pairs themselves,
/// in insertion/update order.
fn pair_iter_exec<'a, C: Component>(data: &'a VecDeque<(Entity, C)>) -> (r: Vec<(Entity, &'a C)>)
    ensures
        r@.len() == data@.len(),
        forall|j: int|
            0 <= j < r@.len() ==> r@[j].0 == (#[trigger] data@[j]).0 && *r@[j].1 == data@[j].1,
{
    let n = data.len();
    let mut out: Vec<(Entity, &'a C)> = Vec::new();
    let mut j: usize = 0;
    while j < n
        invariant
            n == data@.len(),
            j <= n,
            out@.len() == j,
            forall|k: int|
                0 <= k < j ==> out@[k].0 == (#[trigger] data@[k]).0 && *out@[k].1 == data@[k].1,
        decreases n - j,
    {
        let p = &data[j];
        out.push((p.0, &p.1));
        j += 1;
    }
    out
}

/// Paired-list storage: an ordered list of (entity, component) pairs for
/// sparse, event-like data that is typically cleared every frame. Lookup
/// and iteration are linear scans; `set` replaces the first pair with the
/// same entity or appends.
pub struct DequeStorage<C: Component> {
    data: VecDeque<(Entity, C)>,
}

impl<C: Component> DequeStorage<C> {
    /// The ordered pair list backing this storage.
    pub closed spec fn pairs(&self) -> Seq<(Entity, C)> {
        self.data@
    }

    /// An empty paired-list storage.
    pub fn new() -> (s: DequeStorage<C>)
        ensures
            s.pairs() == Seq::<(Entity, C)>::empty(),
    {
        DequeStorage { data: VecDeque::new() }
    }

    /// A shared read view over this storage's current contents; any number
    /// may be outstanding at once.
    pub fn read<'r>(&'r self) -> (r: DequeReader<'r, C>)
        ensures
            r.pairs() == self.pairs(),
    {
        DequeReader::new(&self.data)
    }
}

impl<C: Component> Default for DequeStorage<C> {
    /// An empty paired-list storage.
    fn default() -> (s: DequeStorage<C>)
        ensures
            s.pairs() == Seq::<(Entity, C)>::empty(),
    {
        DequeStorage::new()
    }
}

/// Shared read view over a [`DequeStorage`]; many may exist at once.
pub struct DequeReader<'d, C: Component> {
    data: &'d VecDeque<(Entity, C)>,
}

impl<'d, C: Component> DequeReader<'d, C> {
    /// The pair list this view reads.
    pub closed spec fn pairs(&self) -> Seq<(Entity, C)> {
        self.data@
    }

    /// Wraps a borrowed pair list as a read view.
    pub fn new(data: &'d VecDeque<(Entity, C)>) -> (r: DequeReader<'d, C>)
        ensures
            r.pairs() == data@,
    {
        DequeReader { data }
    }
}

impl<'d, C: Component> ReadAccess<C> for DequeReader<'d, C> {
    open spec fn fetch_spec(&self, e: Entity) -> Option<C> {
        pair_fetch(self.pairs(), e)
    }

    open spec fn entries_spec(&self) -> Seq<(Entity, C)> {
        self.pairs()
    }

    fn fetch(&self, entity: Entity) -> (r: Option<&C>) {
        pair_fetch_exec(self.data, entity)
    }

    fn iter(&self) -> (r: Vec<(Entity, &C)>) {
        pair_iter_exec(self.data)
    }
}

/// Exclusive write view over a [`DequeStorage`]. It owns the pair list
/// while it is outstanding, so no other view over the same storage
/// instance can exist beside it.
pub struct DequeWriter<C: Component> {
    data: VecDeque<(Entity, C)>,
}

impl<C: Component> DequeWriter<C> {
    /// The pair list this view owns.
    pub closed spec fn pairs(&self) -> Seq<(Entity, C)> {
        self.data@
    }

    /// Wraps an owned pair list as a write view.
    pub fn new(data: VecDeque<(Entity, C)>) -> (w: DequeWriter<C>)
        ensures
            w.pairs() == data@,
    {
        DequeWriter { data }
    }
}

impl<C: Component> ReadAccess<C> for DequeWriter<C> {
    open spec fn fetch_spec(&self, e: Entity) -> Option<C> {
        pair_fetch(self.pairs(), e)
    }

    open spec fn entries_spec(&self) -> Seq<(Entity, C)> {
        self.pairs()
    }

    fn fetch(&self, entity: Entity) -> (r: Option<&C>) {
        pair_fetch_exec(&self.data, entity)
    }

    fn iter(&self) -> (r: Vec<(Entity, &C)>) {
        pair_iter_exec(&self.data)
    }
}

impl<C: Component> WriteAccess<C> for DequeWriter<C> {
    open spec fn key_match(a: Entity, b: Entity) -> bool {
        a == b
    }

    fn set(&mut self, entity: Entity, value: C)
        ensures
            final(self).pairs() == pair_set(old(self).pairs(), entity, value),
    {
        let n = self.data.len();
        let mut j: usize = 0;
        while j < n
            invariant
                n == self.data@.len(),
                j <= n,
                self.data@ == old(self).data@,
                forall|k: int| 0 <= k < j ==> (#[trigger] self.data@[k]).0 != entity,
            decreases n - j,
        {
            if self.data[j].0 == entity {
                proof {
                    lemma_pair_pos_unique(self.data@, entity, j as int);
                    lemma_pair_set_fetch(old(self).pairs(), entity, value);
                }
                self.data.remove(j);
                self.data.insert(j, (entity, value));
                proof {
                    assert(self.data@ =~= pair_set(old(self).pairs(), entity, value));
                    assert(self.entries_spec()[j as int].1 == value);
                }
                return ;
            }
            j += 1;
        }
        proof {
            lemma_pair_pos(self.data@, entity);
            match pair_pos(self.data@, entity) {
                Some(i) => {
                    assert(self.data@[i].0 != entity);
                },
                None => {},
            }
            lemma_pair_set_fetch(old(self).pairs(), entity, value);
        }
        self.data.push_back((entity, value));
        proof {
            assert(self.entries_spec()[self.entries_spec().len() - 1].1 == value);
        }
    }

    fn unset(&mut self, entity: Entity)
        ensures
            final(self).pairs() == pair_unset(old(self).pairs(), entity),
    {
        let mut j: usize = 0;
        while j < self.data.len()
            invariant
                j <= self.data@.len(),
                forall|k: int| 0 <= k < j ==> (#[trigger] self.data@[k]).0 != entity,
                pair_unset(self.data@, entity) == pair_unset(old(self).pairs(), entity),
            decreases self.data@.len() - j,
        {
            if self.data[j].0 == entity {
                let ghost before = self.data@;
                self.data.remove(j);
                proof {
                    lemma_pair_unset_remove(before, entity, j as int);
                }
            } else {
                j += 1;
            }
        }
        proof {
            lemma_filter_all_kept_pairs(self.data@, entity);
            lemma_pair_unset_fetch(old(self).pairs(), entity);
        }
    }

    fn clear(&mut self)
        ensures
            final(self).pairs() == Seq::<(Entity, C)>::empty(),
    {
        self.data.clear();
    }
}

impl<C: Component> RwAccess<C> for DequeWriter<C> {

}

impl<C: Component> ComponentStorage<C> for DequeStorage<C> {
    type Writer = DequeWriter<C>;

    open spec fn fetch_spec(&self, e: Entity) -> Option<C> {
        pair_fetch(self.pairs(), e)
    }

    open spec fn entries_spec(&self) -> Seq<(Entity, C)> {
        self.pairs()
    }

    fn write(self) -> (w: DequeWriter<C>) {
        let ghost whole = self;
        let w = DequeWriter::new(self.data);
        proof {
            assert forall|e: Entity| #[trigger] w.fetch_spec(e) == whole.fetch_spec(e) by {
                assert(w.pairs() == whole.pairs());
            }
        }
        w
    }

    fn release(writer: DequeWriter<C>) -> (s: DequeStorage<C>) {
        let s = DequeStorage { data: writer.data };
        proof {
            assert forall|e: Entity| #[trigger] s.fetch_spec(e) == writer.fetch_spec(e) by {
                assert(s.pairs() == writer.pairs());
            }
        }
        s
    }

    fn fetch(&self, entity: Entity) -> (r: Option<&C>) {
        pair_fetch_exec(&self.data, entity)
    }

    fn iter(&self) -> (r: Vec<(Entity, &C)>) {
        pair_iter_exec(&self.data)
    }
}

/// Removing one pair keyed by `e` does not change what unsetting `e`
/// leaves behind.
proof fn lemma_pair_unset_remove<C>(s: Seq<(Entity, C)>, e: Entity, j: int)
    requires
        0 <= j < s.len(),
        s[j].0 == e,
    ensures
        pair_unset(s.remove(j), e) == pair_unset(s, e),
    decreases s.len(),
{
    reveal(Seq::filter);
    if j == s.len() - 1 {
        assert(s.remove(j) =~= s.drop_last());
    } else {
        let head = s.drop_last();
        let p = s.last();
        lemma_pair_unset_remove(head, e, j);
        assert(head.push(p) =~= s);
        assert(head.remove(j).push(p) =~= s.remove(j));
        assert(s.remove(j).drop_last() =~= head.remove(j));
        assert(s.remove(j).last() == p);
        assert(pair_unset(s, e) == (if p.0 != e {
            pair_unset(head, e).push(p)
        } else {
            pair_unset(head, e)
        }));
        assert(pair_unset(s.remove(j), e) == (if p.0 != e {
            pair_unset(head.remove(j), e).push(p)
        } else {
            pair_unset(head.remove(j), e)
        }));
    }
}

/// A pair list with no pair keyed by `e` is unchanged by unsetting `e`.
proof fn lemma_filter_all_kept_pairs<C>(s: Seq<(Entity, C)>, e: Entity)
    requires
        forall|k: int| 0 <= k < s.len() ==> (#[trigger] s[k]).0 != e,
    ensures
        pair_unset(s, e) == s,
    decreases s.len(),
{
    reveal(Seq::filter);
    if s.len() > 0 {
        lemma_filter_all_kept_pairs(s.drop_last(), e);
        assert(s.drop_last().push(s.last()) =~= s);
        assert(pair_unset(s, e) == pair_unset(s.drop_last(), e).push(s.last()));
    }
}

} // verus!
