//! The denormalised id-to-position index kept beside each roster, and
//! the set of ids with pending damage.
//!
//! Both are association vectors with unique keys, so that iteration
//! order — and with it target acquisition — is deterministic.

use vstd::prelude::*;
use crate::motion::{Vec2, Vec2V};

verus! {

/// Index of the first entry with key `id`, or `-1` when there is none.
pub open spec fn pm_index_of(s: Seq<(u32, Vec2V)>, id: u32) -> int
    decreases s.len(),
{
    if s.len() == 0 {
        -1
    } else if s[0].0 == id {
        0
    } else {
        let r = pm_index_of(s.skip(1), id);
        if r < 0 {
            -1
        } else {
            r + 1
        }
    }
}

/// Whether some entry has key `id`.
pub open spec fn pm_contains(s: Seq<(u32, Vec2V)>, id: u32) -> bool {
    pm_index_of(s, id) >= 0
}

/// Every recorded coordinate is small enough for reach arithmetic.
pub open spec fn pm_bounded(s: Seq<(u32, Vec2V)>) -> bool {
    forall|k: int|
        0 <= k < s.len() ==> -crate::settings::POS_LIMIT <= (#[trigger] s[k]).1.x
            <= crate::settings::POS_LIMIT
}

/// No two entries share a key.
pub open spec fn pm_no_dup(s: Seq<(u32, Vec2V)>) -> bool {
    forall|i: int, j: int|
        0 <= i < j < s.len() ==> (#[trigger] s[i]).0 != (#[trigger] s[j]).0
}

/// What `pm_index_of` returns: the first matching index, or `-1` with
/// no match anywhere.
pub proof fn lemma_pm_index_of(s: Seq<(u32, Vec2V)>, id: u32)
    ensures
        pm_index_of(s, id) == -1 || 0 <= pm_index_of(s, id) < s.len(),
        pm_index_of(s, id) >= 0 ==> s[pm_index_of(s, id)].0 == id,
        pm_index_of(s, id) >= 0 ==> forall|j: int|
            0 <= j < pm_index_of(s, id) ==> (#[trigger] s[j]).0 != id,
        pm_index_of(s, id) == -1 ==> forall|j: int|
            0 <= j < s.len() ==> (#[trigger] s[j]).0 != id,
    decreases s.len(),
{
    if s.len() > 0 && s[0].0 != id {
        lemma_pm_index_of(s.skip(1), id);
        assert(forall|j: int|
            1 <= j < s.len() ==> #[trigger] s[j] == s.skip(1)[j - 1]);
    }
}

/// Replace the position recorded for `id`, or record it anew.
pub open spec fn spec_insert_pos(s: Seq<(u32, Vec2V)>, id: u32, p: Vec2V) -> Seq<(u32, Vec2V)> {
    if pm_contains(s, id) {
        s.update(pm_index_of(s, id), (id, p))
    } else {
        s.push((id, p))
    }
}

/// Drop the entry recorded for `id`, if any.
pub open spec fn spec_remove_pos(s: Seq<(u32, Vec2V)>, id: u32) -> Seq<(u32, Vec2V)> {
    if pm_contains(s, id) {
        s.remove(pm_index_of(s, id))
    } else {
        s
    }
}

/// Mapping from entity id to current position, rebuilt and pruned every
/// tick.  Keys are unique; entries keep their insertion order.
pub struct PositionMap {
    entries: Vec<(u32, Vec2)>,
}

impl View for PositionMap {
    type V = Seq<(u32, Vec2V)>;

    closed spec fn view(&self) -> Seq<(u32, Vec2V)> {
        self.entries@.map_values(|e: (u32, Vec2)| (e.0, e.1@))
    }
}

impl PositionMap {
    pub open spec fn wf(self) -> bool {
        pm_no_dup(self@)
    }

    pub fn new() -> (r: PositionMap)
        ensures
            r@ =~= Seq::<(u32, Vec2V)>::empty(),
            r.wf(),
    {
        PositionMap { entries: Vec::new() }
    }

    pub fn len(&self) -> (r: usize)
        ensures
            r == self@.len(),
    {
        self.entries.len()
    }

    /// The entry at `i`, in insertion order.
    pub fn entry_at(&self, i: usize) -> (r: (u32, Vec2))
        requires
            i < self@.len(),
        ensures
            self@[i as int] == (r.0, r.1@),
    {
        self.entries[i]
    }

    pub fn contains_id(&self, id: u32) -> (r: bool)
        ensures
            r == pm_contains(self@, id),
    {
        proof {
            lemma_pm_index_of(self@, id);
        }
        let mut i: usize = 0;
        while i < self.entries.len()
            invariant
                0 <= i <= self@.len(),
                self@.len() == self.entries@.len(),
                forall|j: int| 0 <= j < i ==> (#[trigger] self@[j]).0 != id,
                pm_index_of(self@, id) == -1 || 0 <= pm_index_of(self@, id) < self@.len(),
                pm_index_of(self@, id) >= 0 ==> self@[pm_index_of(self@, id)].0 == id,
                pm_index_of(self@, id) == -1 ==> forall|j: int|
                    0 <= j < self@.len() ==> (#[trigger] self@[j]).0 != id,
            decreases self@.len() - i,
        {
            if self.entries[i].0 == id {
                proof {
                    assert(self@[i as int].0 == id);
                    if pm_index_of(self@, id) == -1 {
                        assert(self@[i as int].0 != id);
                    }
                }
                return true;
            }
            i = i + 1;
        }
        false
    }

    /// Record `pos` for `id`, replacing any earlier entry for the same id.
    pub fn insert(&mut self, id: u32, pos: Vec2)
        requires
            old(self).wf(),
        ensures
            final(self)@ == spec_insert_pos(old(self)@, id, pos@),
            final(self).wf(),
            final(self)@.len() == if pm_contains(old(self)@, id) {
                old(self)@.len()
            } else {
                old(self)@.len() + 1
            },
            forall|x: u32|
                #[trigger] pm_contains(final(self)@, x) <==> (x == id || pm_contains(
                    old(self)@,
                    x,
                )),
            pm_bounded(old(self)@) && -crate::settings::POS_LIMIT <= pos.x
                <= crate::settings::POS_LIMIT ==> pm_bounded(final(self)@),
    {
        proof {
            lemma_pm_index_of(self@, id);
        }
        let ghost s0 = self@;
        let mut i: usize = 0;
        while i < self.entries.len()
            invariant
                0 <= i <= s0.len(),
                self@ == s0,
                s0 == old(self)@,
                s0.len() == self.entries@.len(),
                pm_no_dup(s0),
                forall|j: int| 0 <= j < i ==> (#[trigger] s0[j]).0 != id,
                pm_index_of(s0, id) == -1 || 0 <= pm_index_of(s0, id) < s0.len(),
                pm_index_of(s0, id) >= 0 ==> s0[pm_index_of(s0, id)].0 == id,
                pm_index_of(s0, id) >= 0 ==> forall|j: int|
                    0 <= j < pm_index_of(s0, id) ==> (#[trigger] s0[j]).0 != id,
                pm_index_of(s0, id) == -1 ==> forall|j: int|
                    0 <= j < s0.len() ==> (#[trigger] s0[j]).0 != id,
            decreases s0.len() - i,
        {
            if self.entries[i].0 == id {
                self.entries.set(i, (id, pos));
                proof {
                    assert(s0[i as int].0 == id);
                    let k = pm_index_of(s0, id);
                    if k == -1 {
                        assert(s0[i as int].0 != id);
                    } else if k < i as int {
                        assert(s0[k].0 != id);
                    } else if k > i as int {
                        assert(s0[i as int].0 != id);
                    }
                    assert(pm_index_of(s0, id) == i);
                    assert(self@ =~= s0.update(i as int, (id, pos@)));
                    lemma_updated_props(s0, id, pos@, i as int);
                    if pm_bounded(s0) && -crate::settings::POS_LIMIT <= pos.x
                        <= crate::settings::POS_LIMIT {
                        assert forall|k2: int| 0 <= k2 < self@.len() implies -crate::settings::POS_LIMIT
                            <= (#[trigger] self@[k2]).1.x <= crate::settings::POS_LIMIT by {
                            if k2 != i as int {
                                assert(self@[k2] == s0[k2]);
                            }
                        }
                    }
                }
                return ;
            }
            i = i + 1;
        }
        self.entries.push((id, pos));
        proof {
            assert(pm_index_of(s0, id) == -1);
            assert(self@ =~= s0.push((id, pos@)));
            lemma_pushed_props(s0, id, pos@);
            if pm_bounded(s0) && -crate::settings::POS_LIMIT <= pos.x
                <= crate::settings::POS_LIMIT {
                assert forall|k2: int| 0 <= k2 < self@.len() implies -crate::settings::POS_LIMIT
                    <= (#[trigger] self@[k2]).1.x <= crate::settings::POS_LIMIT by {
                    if k2 < s0.len() as int {
                        assert(self@[k2] == s0[k2]);
                    }
                }
            }
        }
    }

    /// Drop the entry recorded for `id`, if any.
    pub fn remove(&mut self, id: u32)
        requires
            old(self).wf(),
        ensures
            final(self)@ == spec_remove_pos(old(self)@, id),
            final(self).wf(),
            final(self)@.len() == if pm_contains(old(self)@, id) {
                old(self)@.len() - 1
            } else {
                old(self)@.len() as int
            },
            forall|x: u32|
                #[trigger] pm_contains(final(self)@, x) <==> (x != id && pm_contains(
                    old(self)@,
                    x,
                )),
            pm_bounded(old(self)@) ==> pm_bounded(final(self)@),
    {
        proof {
            lemma_pm_index_of(self@, id);
        }
        let ghost s0 = self@;
        let mut i: usize = 0;
        while i < self.entries.len()
            invariant
                0 <= i <= s0.len(),
                self@ == s0,
                s0 == old(self)@,
                s0.len() == self.entries@.len(),
                pm_no_dup(s0),
                forall|j: int| 0 <= j < i ==> (#[trigger] s0[j]).0 != id,
                pm_index_of(s0, id) == -1 || 0 <= pm_index_of(s0, id) < s0.len(),
                pm_index_of(s0, id) >= 0 ==> s0[pm_index_of(s0, id)].0 == id,
                pm_index_of(s0, id) >= 0 ==> forall|j: int|
                    0 <= j < pm_index_of(s0, id) ==> (#[trigger] s0[j]).0 != id,
                pm_index_of(s0, id) == -1 ==> forall|j: int|
                    0 <= j < s0.len() ==> (#[trigger] s0[j]).0 != id,
            decreases s0.len() - i,
        {
            if self.entries[i].0 == id {
                self.entries.remove(i);
                proof {
                    assert(s0[i as int].0 == id);
                    let k = pm_index_of(s0, id);
                    if k == -1 {
                        assert(s0[i as int].0 != id);
                    } else if k < i as int {
                        assert(s0[k].0 != id);
                    } else if k > i as int {
                        assert(s0[i as int].0 != id);
                    }
                    assert(pm_index_of(s0, id) == i);
                    assert(self@ =~= s0.remove(i as int));
                    lemma_removed_props(s0, id, i as int);
                    if pm_bounded(s0) {
                        assert forall|k2: int| 0 <= k2 < self@.len() implies -crate::settings::POS_LIMIT
                            <= (#[trigger] self@[k2]).1.x <= crate::settings::POS_LIMIT by {
                            if k2 < i as int {
                                assert(self@[k2] == s0[k2]);
                            } else {
                                assert(self@[k2] == s0[k2 + 1]);
                            }
                        }
                    }
                }
                return ;
            }
            i = i + 1;
        }
        proof {
            assert(pm_index_of(s0, id) == -1);
        }
    }
}

/// Facts about an in-place key replacement at the key's own index.
proof fn lemma_updated_props(s: Seq<(u32, Vec2V)>, id: u32, p: Vec2V, k: int)
    requires
        pm_no_dup(s),
        0 <= k < s.len(),
        s[k].0 == id,
    ensures
        pm_no_dup(s.update(k, (id, p))),
        forall|x: u32|
            #[trigger] pm_contains(s.update(k, (id, p)), x) <==> (x == id || pm_contains(s, x)),
{
    let t = s.update(k, (id, p));
    assert forall|i: int, j: int| 0 <= i < j < t.len() implies (#[trigger] t[i]).0 != (
    #[trigger] t[j]).0 by {
        assert(s[i].0 != s[j].0);
    }
    assert forall|x: u32| #[trigger] pm_contains(t, x) <==> (x == id || pm_contains(s, x)) by {
        lemma_pm_index_of(t, x);
        lemma_pm_index_of(s, x);
        if pm_contains(t, x) {
            let i = pm_index_of(t, x);
            if i != k {
                assert(s[i].0 == x);
                lemma_contains_at(s, x, i);
            }
        }
        if x == id {
            lemma_contains_at(t, x, k);
        } else if pm_contains(s, x) {
            let i = pm_index_of(s, x);
            assert(i != k);
            lemma_contains_at(t, x, i);
        }
    }
}

/// Facts about appending a fresh key.
proof fn lemma_pushed_props(s: Seq<(u32, Vec2V)>, id: u32, p: Vec2V)
    requires
        pm_no_dup(s),
        forall|j: int| 0 <= j < s.len() ==> (#[trigger] s[j]).0 != id,
    ensures
        pm_no_dup(s.push((id, p))),
        forall|x: u32|
            #[trigger] pm_contains(s.push((id, p)), x) <==> (x == id || pm_contains(s, x)),
{
    let t = s.push((id, p));
    assert forall|i: int, j: int| 0 <= i < j < t.len() implies (#[trigger] t[i]).0 != (
    #[trigger] t[j]).0 by {
        if j < s.len() {
            assert(s[i].0 != s[j].0);
        } else {
            assert(t[j].0 == id);
            assert(t[i].0 == s[i].0);
        }
    }
    assert forall|x: u32| #[trigger] pm_contains(t, x) <==> (x == id || pm_contains(s, x)) by {
        lemma_pm_index_of(t, x);
        lemma_pm_index_of(s, x);
        if pm_contains(t, x) {
            let i = pm_index_of(t, x);
            if i < s.len() {
                lemma_contains_at(s, x, i);
            }
        }
        if x == id {
            lemma_contains_at(t, x, s.len() as int);
        } else if pm_contains(s, x) {
            let i = pm_index_of(s, x);
            lemma_contains_at(t, x, i);
        }
    }
}

/// Facts about removing the key's own entry.
proof fn lemma_removed_props(s: Seq<(u32, Vec2V)>, id: u32, k: int)
    requires
        pm_no_dup(s),
        0 <= k < s.len(),
        s[k].0 == id,
    ensures
        pm_no_dup(s.remove(k)),
        forall|x: u32| #[trigger] pm_contains(s.remove(k), x) <==> (x != id && pm_contains(s, x)),
{
    let t = s.remove(k);
    assert forall|i: int, j: int| 0 <= i < j < t.len() implies (#[trigger] t[i]).0 != (
    #[trigger] t[j]).0 by {
        let i0 = if i < k {
            i
        } else {
            i + 1
        };
        let j0 = if j < k {
            j
        } else {
            j + 1
        };
        assert(t[i] == s[i0] && t[j] == s[j0]);
        assert(s[i0].0 != s[j0].0);
    }
    assert forall|x: u32| #[trigger] pm_contains(t, x) <==> (x != id && pm_contains(s, x)) by {
        lemma_pm_index_of(t, x);
        lemma_pm_index_of(s, x);
        if pm_contains(t, x) {
            let i = pm_index_of(t, x);
            let i0 = if i < k {
                i
            } else {
                i + 1
            };
            assert(t[i] == s[i0]);
            lemma_contains_at(s, x, i0);
            assert(x != id);
        }
        if x != id && pm_contains(s, x) {
            let i = pm_index_of(s, x);
            assert(i != k);
            let i1 = if i < k {
                i
            } else {
                i - 1
            };
            assert(t[i1] == s[i]);
            lemma_contains_at(t, x, i1);
        }
    }
}

/// A key sitting at some index is contained.
proof fn lemma_contains_at(s: Seq<(u32, Vec2V)>, id: u32, k: int)
    requires
        0 <= k < s.len(),
        s[k].0 == id,
    ensures
        pm_contains(s, id),
{
    lemma_pm_index_of(s, id);
    if pm_index_of(s, id) == -1 {
        assert(s[k].0 != id);
    }
}

/// Index of the first occurrence of `id`, or `-1` when there is none.
pub open spec fn id_index_of(s: Seq<u32>, id: u32) -> int
    decreases s.len(),
{
    if s.len() == 0 {
        -1
    } else if s[0] == id {
        0
    } else {
        let r = id_index_of(s.skip(1), id);
        if r < 0 {
            -1
        } else {
            r + 1
        }
    }
}

/// Whether `id` occurs.
pub open spec fn id_contains(s: Seq<u32>, id: u32) -> bool {
    id_index_of(s, id) >= 0
}

/// No id occurs twice.
pub open spec fn id_no_dup(s: Seq<u32>) -> bool {
    forall|i: int, j: int| 0 <= i < j < s.len() ==> s[i] != s[j]
}

/// What `id_index_of` returns: the first matching index, or `-1` with
/// no match anywhere.
pub proof fn lemma_id_index_of(s: Seq<u32>, id: u32)
    ensures
        id_index_of(s, id) == -1 || 0 <= id_index_of(s, id) < s.len(),
        id_index_of(s, id) >= 0 ==> s[id_index_of(s, id)] == id,
        id_index_of(s, id) >= 0 ==> forall|j: int|
            0 <= j < id_index_of(s, id) ==> s[j] != id,
        id_index_of(s, id) == -1 ==> forall|j: int| 0 <= j < s.len() ==> s[j] != id,
    decreases s.len(),
{
    if s.len() > 0 && s[0] != id {
        lemma_id_index_of(s.skip(1), id);
        assert(forall|j: int| 1 <= j < s.len() ==> s[j] == s.skip(1)[j - 1]);
    }
}

/// Add `id` unless it is already there.
pub open spec fn spec_insert_id(s: Seq<u32>, id: u32) -> Seq<u32> {
    if id_contains(s, id) {
        s
    } else {
        s.push(id)
    }
}

/// Drop `id`, if it is there.
pub open spec fn spec_remove_id(s: Seq<u32>, id: u32) -> Seq<u32> {
    if id_contains(s, id) {
        s.remove(id_index_of(s, id))
    } else {
        s
    }
}

/// An id occurring at some index is contained.
pub proof fn lemma_id_contains_at(s: Seq<u32>, id: u32, k: int)
    requires
        0 <= k < s.len(),
        s[k] == id,
    ensures
        id_contains(s, id),
{
    lemma_id_index_of(s, id);
    if id_index_of(s, id) == -1 {
        assert(s[k] != id);
    }
}

/// The set of entity ids with at least one pending damage event.
pub struct IdSet {
    ids: Vec<u32>,
}

impl View for IdSet {
    type V = Seq<u32>;

    closed spec fn view(&self) -> Seq<u32> {
        self.ids@
    }
}

impl IdSet {
    pub open spec fn wf(self) -> bool {
        id_no_dup(self@)
    }

    pub fn new() -> (r: IdSet)
        ensures
            r@ =~= Seq::<u32>::empty(),
            r.wf(),
    {
        IdSet { ids: Vec::new() }
    }

    pub fn len(&self) -> (r: usize)
        ensures
            r == self@.len(),
    {
        self.ids.len()
    }

    pub fn contains(&self, id: u32) -> (r: bool)
        ensures
            r == id_contains(self@, id),
    {
        proof {
            lemma_id_index_of(self@, id);
        }
        let mut i: usize = 0;
        while i < self.ids.len()
            invariant
                0 <= i <= self@.len(),
                self@.len() == self.ids@.len(),
                forall|j: int| 0 <= j < i ==> self@[j] != id,
                id_index_of(self@, id) == -1 || 0 <= id_index_of(self@, id) < self@.len(),
                id_index_of(self@, id) >= 0 ==> self@[id_index_of(self@, id)] == id,
                id_index_of(self@, id) == -1 ==> forall|j: int|
                    0 <= j < self@.len() ==> self@[j] != id,
            decreases self@.len() - i,
        {
            if self.ids[i] == id {
                proof {
                    if id_index_of(self@, id) == -1 {
                        assert(self@[i as int] != id);
                    }
                }
                return true;
            }
            i = i + 1;
        }
        false
    }

    /// Record `id` as having pending damage.
    pub fn insert(&mut self, id: u32)
        requires
            old(self).wf(),
        ensures
            final(self)@ == spec_insert_id(old(self)@, id),
            final(self).wf(),
            forall|x: u32|
                #[trigger] id_contains(final(self)@, x) <==> (x == id || id_contains(
                    old(self)@,
                    x,
                )),
    {
        let present = self.contains(id);
        if !present {
            self.ids.push(id);
            proof {
                lemma_id_index_of(old(self)@, id);
                let t = old(self)@.push(id);
                assert(final(self)@ =~= t);
                assert forall|i: int, j: int| 0 <= i < j < t.len() implies t[i] != t[j] by {
                    if j == old(self)@.len() as int {
                        assert(t[i] == old(self)@[i]);
                    } else {
                        assert(old(self)@[i] != old(self)@[j]);
                    }
                }
                assert forall|x: u32|
                    #[trigger] id_contains(t, x) <==> (x == id || id_contains(
                        old(self)@,
                        x,
                    )) by {
                    lemma_id_index_of(t, x);
                    lemma_id_index_of(old(self)@, x);
                    if id_contains(t, x) {
                        let i = id_index_of(t, x);
                        if i < old(self)@.len() as int {
                            lemma_id_contains_at(old(self)@, x, i);
                        }
                    }
                    if x == id {
                        lemma_id_contains_at(t, x, old(self)@.len() as int);
                    } else if id_contains(old(self)@, x) {
                        let i = id_index_of(old(self)@, x);
                        lemma_id_contains_at(t, x, i);
                    }
                }
            }
        }
    }

    /// Clear `id` from the pending set.
    pub fn remove(&mut self, id: u32)
        requires
            old(self).wf(),
        ensures
            final(self)@ == spec_remove_id(old(self)@, id),
            final(self).wf(),
            forall|x: u32|
                #[trigger] id_contains(final(self)@, x) <==> (x != id && id_contains(
                    old(self)@,
                    x,
                )),
    {
        proof {
            lemma_id_index_of(self@, id);
        }
        let ghost s0 = self@;
        let mut i: usize = 0;
        while i < self.ids.len()
            invariant
                0 <= i <= s0.len(),
                self@ == s0,
                s0 == old(self)@,
                s0.len() == self.ids@.len(),
                id_no_dup(s0),
                forall|j: int| 0 <= j < i ==> s0[j] != id,
                id_index_of(s0, id) == -1 || 0 <= id_index_of(s0, id) < s0.len(),
                id_index_of(s0, id) >= 0 ==> s0[id_index_of(s0, id)] == id,
                id_index_of(s0, id) >= 0 ==> forall|j: int|
                    0 <= j < id_index_of(s0, id) ==> s0[j] != id,
                id_index_of(s0, id) == -1 ==> forall|j: int|
                    0 <= j < s0.len() ==> s0[j] != id,
            decreases s0.len() - i,
        {
            if self.ids[i] == id {
                self.ids.remove(i);
                proof {
                    assert(s0[i as int] == id);
                    let k = id_index_of(s0, id);
                    if k == -1 {
                        assert(s0[i as int] != id);
                    } else if k < i as int {
                        assert(s0[k] != id);
                    } else if k > i as int {
                        assert(s0[i as int] != id);
                    }
                    assert(id_index_of(s0, id) == i);
                    assert(self@ =~= s0.remove(i as int));
                    lemma_id_removed_props(s0, id, i as int);
                }
                return ;
            }
            i = i + 1;
        }
        proof {
            assert(id_index_of(s0, id) == -1);
        }
    }

    /// Drop every pending id.
    pub fn clear(&mut self)
        ensures
            final(self)@ =~= Seq::<u32>::empty(),
            final(self).wf(),
    {
        self.ids = Vec::new();
    }
}

/// Facts about removing an id at its own index.
proof fn lemma_id_removed_props(s: Seq<u32>, id: u32, k: int)
    requires
        id_no_dup(s),
        0 <= k < s.len(),
        s[k] == id,
    ensures
        id_no_dup(s.remove(k)),
        forall|x: u32| #[trigger] id_contains(s.remove(k), x) <==> (x != id && id_contains(s, x)),
{
    let t = s.remove(k);
    assert forall|i: int, j: int| 0 <= i < j < t.len() implies t[i] != t[j] by {
        let i0 = if i < k {
            i
        } else {
            i + 1
        };
        let j0 = if j < k {
            j
        } else {
            j + 1
        };
        assert(t[i] == s[i0] && t[j] == s[j0]);
        assert(s[i0] != s[j0]);
    }
    assert forall|x: u32| #[trigger] id_contains(t, x) <==> (x != id && id_contains(s, x)) by {
        lemma_id_index_of(t, x);
        lemma_id_index_of(s, x);
        if id_contains(t, x) {
            let i = id_index_of(t, x);
            let i0 = if i < k {
                i
            } else {
                i + 1
            };
            assert(t[i] == s[i0]);
            lemma_id_contains_at(s, x, i0);
            assert(x != id);
        }
        if x != id && id_contains(s, x) {
            let i = id_index_of(s, x);
            assert(i != k);
            let i1 = if i < k {
                i
            } else {
                i - 1
            };
            assert(t[i1] == s[i]);
            lemma_id_contains_at(t, x, i1);
        }
    }
}

} // verus!
