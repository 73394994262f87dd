//! Pending attack events: (attacked entity id, damage amount) pairs
//! queued by attackers during their behaviour update and consumed
//! exactly once by the end-of-tick resolution pass.

use vstd::prelude::*;
use crate::settings::DAMAGE_LIMIT;

verus! {

/// One queued attack: who is hit, and for how much.
#[derive(Clone, Copy, Debug)]
pub struct AttackInfo {
    pub attacked_id: u32,
    pub dmg_taken: i64,
}

/// Mathematical view of `AttackInfo`.
pub ghost struct AttackInfoV {
    pub attacked_id: u32,
    pub dmg: int,
}

impl View for AttackInfo {
    type V = AttackInfoV;

    open spec fn view(&self) -> AttackInfoV {
        AttackInfoV { attacked_id: self.attacked_id, dmg: self.dmg_taken as int }
    }
}

/// View of a whole event queue.
pub open spec fn ev_views(evs: Seq<AttackInfo>) -> Seq<AttackInfoV> {
    evs.map_values(|e: AttackInfo| e@)
}

/// Every damage figure in the queue is nonnegative and bounded.
pub open spec fn evs_wf(evs: Seq<AttackInfoV>) -> bool {
    forall|k: int| 0 <= k < evs.len() ==> 0 <= (#[trigger] evs[k]).dmg <= DAMAGE_LIMIT
}

/// The damage amounts queued against `id`, in queue order.
pub open spec fn matching_dmgs(evs: Seq<AttackInfoV>, id: u32) -> Seq<int>
    decreases evs.len(),
{
    if evs.len() == 0 {
        Seq::empty()
    } else {
        let rest = matching_dmgs(evs.drop_last(), id);
        if evs.last().attacked_id == id {
            rest.push(evs.last().dmg)
        } else {
            rest
        }
    }
}

/// The queue with every event against `id` consumed.
pub open spec fn drop_matching(evs: Seq<AttackInfoV>, id: u32) -> Seq<AttackInfoV>
    decreases evs.len(),
{
    if evs.len() == 0 {
        Seq::empty()
    } else {
        let rest = drop_matching(evs.drop_last(), id);
        if evs.last().attacked_id == id {
            rest
        } else {
            rest.push(evs.last())
        }
    }
}

/// Consuming events for one id never queues new damage: what stays was
/// queued before, so bounds on the queue survive.
pub proof fn lemma_drop_matching_wf(evs: Seq<AttackInfoV>, id: u32)
    requires
        evs_wf(evs),
    ensures
        evs_wf(drop_matching(evs, id)),
        drop_matching(evs, id).len() <= evs.len(),
        forall|k: int|
            0 <= k < drop_matching(evs, id).len() ==> (#[trigger] drop_matching(evs, id)[k]).attacked_id
                != id,
    decreases evs.len(),
{
    if evs.len() > 0 {
        assert(evs_wf(evs.drop_last()));
        lemma_drop_matching_wf(evs.drop_last(), id);
    }
}

/// Consuming events for one id leaves every other id's queued damage
/// untouched.
pub proof fn lemma_drop_matching_other(evs: Seq<AttackInfoV>, id: u32, other: u32)
    requires
        id != other,
    ensures
        matching_dmgs(drop_matching(evs, id), other) == matching_dmgs(evs, other),
    decreases evs.len(),
{
    if evs.len() > 0 {
        lemma_drop_matching_other(evs.drop_last(), id, other);
        let rest = drop_matching(evs.drop_last(), id);
        if evs.last().attacked_id != id {
            assert(rest.push(evs.last()).drop_last() =~= rest);
            assert(rest.push(evs.last()).last() == evs.last());
        }
    }
}

/// Queueing one more event appends its damage to its own target's
/// matches and leaves every other target's matches unchanged.
pub proof fn lemma_matching_push(evs: Seq<AttackInfoV>, e: AttackInfoV, id: u32)
    ensures
        matching_dmgs(evs.push(e), id) == if e.attacked_id == id {
            matching_dmgs(evs, id).push(e.dmg)
        } else {
            matching_dmgs(evs, id)
        },
{
    assert(evs.push(e).drop_last() =~= evs);
    assert(evs.push(e).last() == e);
}

/// Damage collected from a well-formed queue stays bounded.
pub proof fn lemma_matching_dmgs_wf(evs: Seq<AttackInfoV>, id: u32)
    requires
        evs_wf(evs),
    ensures
        forall|k: int|
            0 <= k < matching_dmgs(evs, id).len() ==> 0 <= #[trigger] matching_dmgs(evs, id)[k]
                <= DAMAGE_LIMIT,
    decreases evs.len(),
{
    if evs.len() > 0 {
        assert(evs_wf(evs.drop_last()));
        lemma_matching_dmgs_wf(evs.drop_last(), id);
        let m = matching_dmgs(evs, id);
        let rest = matching_dmgs(evs.drop_last(), id);
        if evs.last().attacked_id == id {
            assert(evs.last() == evs[evs.len() - 1]);
            assert(0 <= evs[evs.len() - 1].dmg <= DAMAGE_LIMIT);
            assert forall|k: int| 0 <= k < m.len() implies 0 <= #[trigger] m[k] <= DAMAGE_LIMIT by {
                if k < rest.len() {
                    assert(m[k] == rest[k]);
                } else {
                    assert(m[k] == evs.last().dmg);
                }
            }
        }
    }
}

/// Take every event against `id` out of the queue and hand its damage
/// amounts back, in queue order.
pub(crate) fn extract_damage(list: &mut Vec<AttackInfo>, id: u32) -> (dmgs: Vec<i64>)
    ensures
        crate::fight::dmg_views(dmgs@) == matching_dmgs(ev_views(old(list)@), id),
        ev_views(final(list)@) == drop_matching(ev_views(old(list)@), id),
        forall|k: int|
            0 <= k < dmgs@.len() ==> exists|j: int|
                0 <= j < old(list)@.len() && #[trigger] dmgs@[k] == old(list)@[j].dmg_taken,
{
    let ghost s0 = ev_views(list@);
    let mut kept: Vec<AttackInfo> = Vec::new();
    let mut dmgs: Vec<i64> = Vec::new();
    let mut i: usize = 0;
    proof {
        assert(ev_views(list@.subrange(0, 0)) =~= Seq::<AttackInfoV>::empty());
        assert(crate::fight::dmg_views(dmgs@) =~= Seq::<int>::empty());
        assert(ev_views(kept@) =~= Seq::<AttackInfoV>::empty());
    }
    while i < list.len()
        invariant
            0 <= i <= list@.len(),
            s0 == ev_views(list@),
            s0.len() == list@.len(),
            crate::fight::dmg_views(dmgs@) == matching_dmgs(ev_views(list@.subrange(0, i as int)), id),
            ev_views(kept@) == drop_matching(ev_views(list@.subrange(0, i as int)), id),
            forall|k: int|
                0 <= k < dmgs@.len() ==> exists|j: int|
                    0 <= j < list@.len() && #[trigger] dmgs@[k] == list@[j].dmg_taken,
        decreases list@.len() - i,
    {
        let e = list[i];
        let ghost prefix = ev_views(list@.subrange(0, i as int));
        let ghost prefix1 = ev_views(list@.subrange(0, i as int + 1));
        proof {
            assert(list@.subrange(0, i as int + 1).drop_last() =~= list@.subrange(0, i as int));
            assert(prefix1.drop_last() =~= prefix);
            assert(prefix1.last() == e@);
        }
        if e.attacked_id == id {
            dmgs.push(e.dmg_taken);
            proof {
                assert(crate::fight::dmg_views(dmgs@) =~= crate::fight::dmg_views(
                    dmgs@.drop_last(),
                ).push(e.dmg_taken as int));
                assert(dmgs@.last() == list@[i as int].dmg_taken);
            }
        } else {
            kept.push(e);
            proof {
                assert(ev_views(kept@) =~= ev_views(kept@.drop_last()).push(e@));
            }
        }
        i = i + 1;
    }
    proof {
        assert(list@.subrange(0, list@.len() as int) =~= list@);
    }
    *list = kept;
    dmgs
}

} // verus!
