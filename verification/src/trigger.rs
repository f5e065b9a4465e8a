//! World triggers: checked after every player action, not tied to a verb.
//!
//! Every action re-checks every not-yet-fired trigger; all whose conditions
//! hold fire in one pass, in declaration order, against a readiness snapshot
//! taken before any of them runs, so one trigger's effect cannot make
//! another trigger of the same pass newly eligible (a chain resolves over
//! several turns, never within one). Each trigger fires at most once.
use vstd::prelude::*;

use crate::data::interactions_data::DataEffect;
use crate::data::trigger_data::TriggerData;
use crate::event::Event;
use crate::interaction::action_context::ActionContext;
use crate::interaction::data_interactions::{
    all_conditions_hold, all_hold, apply_all_post, apply_post, events_of, is_trace,
};
use crate::keys::TriggerId;
use crate::text::keep;
use crate::world::{WorldState, WorldView};

verus! {

/// The context triggers are checked against: no verb, item or target.
pub open spec fn empty_context() -> ActionContext {
    ActionContext { verb: None, item: None, target: None }
}

/// Whether the trigger with key `id` has fired in `w`.
pub open spec fn has_fired(w: WorldView, id: Seq<char>) -> bool {
    exists|i: int| 0 <= i < w.fired.len() && #[trigger] w.fired[i]@ == id
}

/// Whether the trigger `t` is ready in `w`: not fired yet, and all its
/// conditions hold.
pub open spec fn is_ready(w: WorldView) -> spec_fn(TriggerData) -> bool {
    |t: TriggerData| !has_fired(w, t.id@) && all_hold(t.condition@, w, empty_context())
}

/// The triggers ready in `w`, in declaration order.
pub open spec fn ready_triggers(w: WorldView) -> Seq<TriggerData> {
    keep(w.triggers, is_ready(w))
}

/// `post` is `pre` with the trigger `id` recorded as fired.
pub open spec fn marked_post(pre: WorldView, post: WorldView, id: TriggerId) -> bool {
    if has_fired(pre, id@) {
        post == pre
    } else {
        post == (WorldView { fired: pre.fired.push(id), ..pre })
    }
}

/// The events of several runs, one after another.
pub open spec fn concat_events(evs: Seq<Seq<Event>>) -> Seq<Event>
    decreases evs.len(),
{
    if evs.len() == 0 {
        Seq::empty()
    } else {
        concat_events(evs.drop_last()) + evs.last()
    }
}

/// `worlds`, `mids` and `evs` trace firing `ready` in order: trigger `k`
/// runs its effects from `worlds[k]` to `mids[k]`, reporting `evs[k]`, and
/// is then recorded as fired, giving `worlds[k + 1]`.
pub open spec fn is_fire_trace(
    ready: Seq<TriggerData>,
    worlds: Seq<WorldView>,
    mids: Seq<WorldView>,
    evs: Seq<Seq<Event>>,
) -> bool {
    &&& worlds.len() == ready.len() + 1
    &&& mids.len() == ready.len()
    &&& evs.len() == ready.len()
    &&& forall|k: int|
        0 <= k < ready.len() ==> #[trigger] apply_all_post(ready[k].effect@, worlds[k], mids[k], evs[k])
            && marked_post(mids[k], worlds[k + 1], ready[k].id)
}

/// The effect of firing the triggers `ready` in order, starting from `pre`.
pub open spec fn fire_all_post(ready: Seq<TriggerData>, pre: WorldView, post: WorldView, events: Seq<Event>) -> bool {
    exists|worlds: Seq<WorldView>, mids: Seq<WorldView>, evs: Seq<Seq<Event>>|
        #[trigger] is_fire_trace(ready, worlds, mids, evs) && worlds[0] == pre && worlds.last()
            == post && events == concat_events(evs)
}

/// Whether the trigger `t` is ready in `world`.
fn trigger_ready(world: &WorldState, t: &TriggerData) -> (b: bool)
    requires
        world.wf(),
    ensures
        b == is_ready(world@)(*t),
{
    let context = ActionContext::new(None, None, None);
    !world.trigger_fired(&t.id) && all_conditions_hold(&t.condition, world, &context)
}

/// Copies of the triggers ready in `world`, in declaration order.
fn collect_ready(world: &WorldState) -> (ready: Vec<TriggerData>)
    requires
        world.wf(),
    ensures
        ready@.len() == ready_triggers(world@).len(),
        forall|k: int|
            0 <= k < ready@.len() ==> (#[trigger] ready@[k]).id == ready_triggers(world@)[k].id
                && ready@[k].effect@ == ready_triggers(world@)[k].effect@,
{
    let triggers = world.triggers();
    let mut ready: Vec<TriggerData> = Vec::new();
    let mut i: usize = 0;
    while i < triggers.len()
        invariant
            world.wf(),
            triggers@ == world@.triggers,
            i <= triggers@.len(),
            ready@.len() == keep(triggers@.take(i as int), is_ready(world@)).len(),
            forall|k: int|
                0 <= k < ready@.len() ==> (#[trigger] ready@[k]).id == keep(
                    triggers@.take(i as int),
                    is_ready(world@),
                )[k].id && ready@[k].effect@ == keep(triggers@.take(i as int), is_ready(world@))[k].effect@,
        decreases triggers@.len() - i,
    {
        let ghost before = keep(triggers@.take(i as int), is_ready(world@));
        assert(triggers@.take(i + 1).drop_last() =~= triggers@.take(i as int));
        assert(triggers@.take(i + 1).last() == triggers@[i as int]);
        if trigger_ready(world, &triggers[i]) {
            let copy = triggers[i].clone();
            ready.push(copy);
            assert(keep(triggers@.take(i + 1), is_ready(world@)) == before.push(triggers@[i as int]));
        } else {
            assert(keep(triggers@.take(i + 1), is_ready(world@)) == before);
        }
        i = i + 1;
    }
    assert(triggers@.take(triggers@.len() as int) =~= triggers@);
    ready
}

/// Check every not-yet-fired trigger against the current world and run
/// whichever are ready, in declaration order, marking each fired.
pub fn check_triggers(world: &mut WorldState) -> (events: Vec<Event>)
    requires
        old(world).wf(),
    ensures
        final(world).wf(),
        fire_all_post(ready_triggers(old(world)@), old(world)@, final(world)@, events@),
{
    let ghost snapshot = ready_triggers(world@);
    let ready = collect_ready(world);
    let ghost mut worlds: Seq<WorldView> = seq![world@];
    let ghost mut mids: Seq<WorldView> = Seq::empty();
    let ghost mut evs: Seq<Seq<Event>> = Seq::empty();
    let mut events: Vec<Event> = Vec::new();
    let mut i: usize = 0;
    assert(events@ =~= concat_events(evs));
    while i < ready.len()
        invariant
            world.wf(),
            i <= ready@.len(),
            ready@.len() == snapshot.len(),
            forall|k: int|
                0 <= k < ready@.len() ==> (#[trigger] ready@[k]).id == snapshot[k].id
                    && ready@[k].effect@ == snapshot[k].effect@,
            worlds.len() == i + 1,
            mids.len() == i,
            evs.len() == i,
            worlds[0] == old(world)@,
            worlds[i as int] == world@,
            forall|k: int|
                0 <= k < i ==> #[trigger] apply_all_post(snapshot[k].effect@, worlds[k], mids[k], evs[k])
                    && marked_post(mids[k], worlds[k + 1], snapshot[k].id),
            events@ == concat_events(evs),
        decreases ready@.len() - i,
    {
        let trigger = &ready[i];
        let mut fired = DataEffect::apply_all(trigger.effect.as_slice(), world);
        let ghost mid = world@;
        let ghost fired_view = fired@;
        proof {
            assert(evs.push(fired_view).drop_last() =~= evs);
        }
        events.append(&mut fired);
        world.mark_trigger_fired(trigger.id.clone());
        proof {
            assert(events@ =~= concat_events(evs) + fired_view);
            let w0 = worlds;
            let m0 = mids;
            let e0 = evs;
            worlds = worlds.push(world@);
            mids = mids.push(mid);
            evs = evs.push(fired_view);
            assert forall|k: int| 0 <= k < i + 1 implies #[trigger] apply_all_post(
                snapshot[k].effect@,
                worlds[k],
                mids[k],
                evs[k],
            ) && marked_post(mids[k], worlds[k + 1], snapshot[k].id) by {
                if k < i {
                    assert(worlds[k] == w0[k] && worlds[k + 1] == w0[k + 1] && mids[k] == m0[k]
                        && evs[k] == e0[k]);
                }
            }
        }
        i = i + 1;
    }
    assert(is_fire_trace(snapshot, worlds, mids, evs));
    events
}

/// No effect touches the record of fired triggers.
pub proof fn lemma_effect_keeps_fired(e: DataEffect, pre: WorldView, post: WorldView, r: Option<Event>)
    requires
        apply_post(e, pre, post, r),
    ensures
        post.fired == pre.fired,
{
}

/// No run of effects touches the record of fired triggers.
pub proof fn lemma_effects_keep_fired(
    effects: Seq<DataEffect>,
    pre: WorldView,
    post: WorldView,
    events: Seq<Event>,
)
    requires
        apply_all_post(effects, pre, post, events),
    ensures
        post.fired == pre.fired,
{
    let (worlds, outs) = choose|worlds: Seq<WorldView>, outs: Seq<Option<Event>>|
        #[trigger] is_trace(effects, worlds, outs) && worlds[0] == pre && worlds.last() == post
            && events == events_of(outs);
    assert forall|k: int| 0 <= k <= effects.len() implies (#[trigger] worlds[k]).fired == pre.fired by {
        lemma_trace_keeps_fired(effects, worlds, outs, k);
    }
}

proof fn lemma_trace_keeps_fired(
    effects: Seq<DataEffect>,
    worlds: Seq<WorldView>,
    outs: Seq<Option<Event>>,
    k: int,
)
    requires
        is_trace(effects, worlds, outs),
        0 <= k <= effects.len(),
    ensures
        worlds[k].fired == worlds[0].fired,
    decreases k,
{
    if k > 0 {
        lemma_trace_keeps_fired(effects, worlds, outs, k - 1);
        let m = k - 1;
        assert(apply_post(effects[m], worlds[m], worlds[m + 1], outs[m]));
        lemma_effect_keeps_fired(effects[m], worlds[m], worlds[m + 1], outs[m]);
    }
}

/// Each trigger fires at most once: a check records every trigger it found
/// ready as fired (so none of them is ever ready again), and forgets no
/// trigger that had fired before.
pub proof fn law_triggers_fire_once(pre: WorldView, post: WorldView, events: Seq<Event>)
    requires
        fire_all_post(ready_triggers(pre), pre, post, events),
    ensures
        forall|k: int|
            0 <= k < ready_triggers(pre).len() ==> has_fired(post, (#[trigger] ready_triggers(pre)[k]).id@),
        forall|k: int|
            0 <= k < ready_triggers(pre).len() ==> !is_ready(post)(#[trigger] ready_triggers(pre)[k]),
        pre.fired.len() <= post.fired.len(),
        forall|i: int| 0 <= i < pre.fired.len() ==> post.fired[i] == #[trigger] pre.fired[i],
{
    let ready = ready_triggers(pre);
    let (worlds, mids, evs) = choose|worlds: Seq<WorldView>, mids: Seq<WorldView>, evs: Seq<Seq<Event>>|
        #[trigger] is_fire_trace(ready, worlds, mids, evs) && worlds[0] == pre && worlds.last()
            == post && events == concat_events(evs);
    assert forall|j: int| 0 <= j <= ready.len() implies {
        &&& worlds[0].fired.len() <= (#[trigger] worlds[j]).fired.len()
        &&& forall|i: int| 0 <= i < worlds[0].fired.len() ==> worlds[j].fired[i] == worlds[0].fired[i]
        &&& forall|k: int| 0 <= k < j ==> has_fired(worlds[j], (#[trigger] ready[k]).id@)
    } by {
        lemma_fire_trace_grows(ready, worlds, mids, evs, j);
    }
    assert(worlds.last() == worlds[ready.len() as int]);
}

proof fn lemma_fire_trace_grows(
    ready: Seq<TriggerData>,
    worlds: Seq<WorldView>,
    mids: Seq<WorldView>,
    evs: Seq<Seq<Event>>,
    j: int,
)
    requires
        is_fire_trace(ready, worlds, mids, evs),
        0 <= j <= ready.len(),
    ensures
        worlds[0].fired.len() <= worlds[j].fired.len(),
        forall|i: int| 0 <= i < worlds[0].fired.len() ==> worlds[j].fired[i] == worlds[0].fired[i],
        forall|k: int| 0 <= k < j ==> has_fired(worlds[j], (#[trigger] ready[k]).id@),
    decreases j,
{
    if j > 0 {
        let k = j - 1;
        lemma_fire_trace_grows(ready, worlds, mids, evs, k);
        assert(apply_all_post(ready[k].effect@, worlds[k], mids[k], evs[k]));
        lemma_effects_keep_fired(ready[k].effect@, worlds[k], mids[k], evs[k]);
        let pre = worlds[k];
        let post = worlds[j];
        assert forall|m: int| 0 <= m < j implies has_fired(post, (#[trigger] ready[m]).id@) by {
            if m < k {
                let i = choose|i: int| 0 <= i < pre.fired.len() && #[trigger] pre.fired[i]@ == ready[m].id@;
                assert(post.fired[i] == pre.fired[i]);
            } else {
                if !has_fired(mids[k], ready[k].id@) {
                    assert(post.fired[post.fired.len() - 1] == ready[k].id);
                }
            }
        }
    }
}

} // verus!
