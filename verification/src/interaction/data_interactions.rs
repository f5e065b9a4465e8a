//! Runtime dispatch for authored [`InteractionData`]: matching a live
//! [`WorldState`] and [`ActionContext`], and applying effects.
use vstd::prelude::*;

use crate::data::interactions_data::{
    clone_effects, DataCondition, DataEffect, DataTarget, DataTargetKind, InteractionData,
};
use crate::data::object_data::ObjectKind;
use crate::event::Event;
use crate::input::action::Outcome;
use crate::input::direction::DirectionResolution;
use crate::interaction::action_context::{target_object_spec, ActionContext};
use crate::interaction::target::{Target, TargetFilter, TargetKind};
use crate::interaction::verb::Verb;
use crate::keys::ObjectId;
use crate::text::{first_index, lemma_first_index, lemma_first_index_prefix};
use crate::world::object::lemma_index_of_id;
use crate::world::room::{hide_exit_post, hide_object_post, relock_post, reveal_exit_post, reveal_object_post};
use crate::world::{
    clear_flag_post, discard_post, drop_post, grant_post, room_changed, set_flag_post, take_post,
    WorldState, WorldView,
};

verus! {

/// Whether the object `id` in scope is a scene object.
pub open spec fn is_scene_spec(w: WorldView, id: Seq<char>) -> bool {
    w.any_object(id) matches Some(o) && o.kind == ObjectKind::Scene
}

/// Whether the object `id` in scope is a door.
pub open spec fn is_door_spec(w: WorldView, id: Seq<char>) -> bool {
    w.any_object(id) matches Some(o) && o.door is Some
}

/// Whether a target passes the coarse structural filter `filter`.
pub open spec fn filter_matches(filter: TargetFilter, w: WorldView, target: Option<Target>) -> bool {
    match filter {
        TargetFilter::Any => true,
        TargetFilter::Targeted => target is Some,
        TargetFilter::Kind(TargetKind::Scene) => target matches Some(Target::Object(id))
            && is_scene_spec(w, id@),
        TargetFilter::Kind(TargetKind::Carried) => target matches Some(Target::Object(id))
            && w.holds(id@),
    }
}

impl TargetFilter {
    /// Whether `target` passes this filter in `world`.
    pub fn matches(self, world: &WorldState, target: Option<&Target>) -> (b: bool)
        requires
            world.wf(),
        ensures
            b == filter_matches(
                self,
                world@,
                match target {
                    Some(t) => Some(*t),
                    None => None,
                },
            ),
    {
        match self {
            TargetFilter::Any => true,
            TargetFilter::Targeted => target.is_some(),
            TargetFilter::Kind(TargetKind::Scene) => match target {
                Some(Target::Object(id)) => world.object_is_scene(id),
                _ => false,
            },
            TargetFilter::Kind(TargetKind::Carried) => match target {
                Some(Target::Object(id)) => world.player_holds(id),
                _ => false,
            },
        }
    }
}

/// Whether the condition `c` holds in `w` for the context `ctx`.
pub open spec fn condition_holds(c: DataCondition, w: WorldView, ctx: ActionContext) -> bool
    decreases c,
{
    match c {
        DataCondition::Room { room } => room@ == w.cur_room_id()@,
        DataCondition::PlayerHolds { player_holds } => w.holds(player_holds@),
        DataCondition::ExitLocked { exit_locked } => w.cur_room().exit_locked_spec(exit_locked),
        DataCondition::ExitHidden { exit_hidden } => w.cur_room().exit_hidden_spec(exit_hidden),
        DataCondition::IsDoor { is_door } => match target_object_spec(ctx) {
            Some(id) => is_door_spec(w, id@) == is_door,
            None => false,
        },
        DataCondition::Flag { flag } => w.has_flag(flag@),
        DataCondition::Not { not } => !condition_holds(*not, w, ctx),
    }
}

/// Whether every condition of `conditions` holds.
pub open spec fn all_hold(conditions: Seq<DataCondition>, w: WorldView, ctx: ActionContext) -> bool {
    forall|i: int| 0 <= i < conditions.len() ==> condition_holds(#[trigger] conditions[i], w, ctx)
}

impl DataCondition {
    /// Whether this condition holds in `world` for `context`.
    pub fn matches(&self, world: &WorldState, context: &ActionContext) -> (b: bool)
        requires
            world.wf(),
        ensures
            b == condition_holds(*self, world@, *context),
        decreases self,
    {
        match self {
            DataCondition::Room { room } => *room == world.current_room_id(),
            DataCondition::PlayerHolds { player_holds } => world.player_holds(player_holds),
            DataCondition::ExitLocked { exit_locked } => world.is_exit_locked(*exit_locked),
            DataCondition::ExitHidden { exit_hidden } => world.is_exit_hidden(*exit_hidden),
            DataCondition::IsDoor { is_door } => match context.target_object() {
                Some(id) => world.object_is_door(id) == *is_door,
                None => false,
            },
            DataCondition::Flag { flag } => world.has_flag(flag.as_str()),
            DataCondition::Not { not } => {
                let inner: &DataCondition = not;
                !inner.matches(world, context)
            },
        }
    }
}

/// Whether every condition of `conditions` holds in `world`.
pub fn all_conditions_hold(
    conditions: &Vec<DataCondition>,
    world: &WorldState,
    context: &ActionContext,
) -> (b: bool)
    requires
        world.wf(),
    ensures
        b == all_hold(conditions@, world@, *context),
{
    let mut i: usize = 0;
    while i < conditions.len()
        invariant
            world.wf(),
            i <= conditions@.len(),
            forall|k: int| 0 <= k < i ==> condition_holds(#[trigger] conditions@[k], world@, *context),
        decreases conditions@.len() - i,
    {
        if !conditions[i].matches(world, context) {
            return false;
        }
        i = i + 1;
    }
    true
}

/// The events of one effect, as a list.
pub open spec fn event_list(r: Option<Event>) -> Seq<Event> {
    match r {
        Some(e) => seq![e],
        None => seq![],
    }
}

/// `r` is the event of a successful transfer of `id` (named `name`), or
/// nothing when the transfer failed.
pub open spec fn transfer_event(
    outcome: Outcome,
    id: ObjectId,
    name: Seq<char>,
    make: spec_fn(ObjectId, String) -> Event,
    r: Option<Event>,
) -> bool {
    if outcome == Outcome::Success {
        r matches Some(e) && exists|s: String| s@ == name && e == make(id, s)
    } else {
        r is None
    }
}

/// The effect of applying `e` to `old`, giving `new` and the event `r`.
pub open spec fn apply_post(e: DataEffect, pre: WorldView, post: WorldView, r: Option<Event>) -> bool {
    match e {
        DataEffect::Emit { emit } => post == pre && (r matches Some(Event::Custom { name }) && name@
            == emit@),
        DataEffect::Take { take } => match pre.any_object(take@) {
            Some(o) => exists|outcome: Outcome|
                take_post(pre, post, take@, outcome) && transfer_event(
                    outcome,
                    take,
                    o.primary_name@,
                    |id: ObjectId, s: String| Event::Took { object_id: id, object: s },
                    r,
                ),
            None => post == pre && r is None,
        },
        DataEffect::Grant { grant } => exists|outcome: Outcome|
            grant_post(pre, post, grant@, outcome) && if outcome == Outcome::Success {
                post.any_object(grant@) matches Some(o) && transfer_event(
                    outcome,
                    grant,
                    o.primary_name@,
                    |id: ObjectId, s: String| Event::Granted { object_id: id, object: s },
                    r,
                )
            } else {
                r is None
            },
        DataEffect::Drop { drop } => match pre.any_object(drop@) {
            Some(o) => exists|outcome: Outcome|
                drop_post(pre, post, drop@, outcome) && transfer_event(
                    outcome,
                    drop,
                    o.primary_name@,
                    |id: ObjectId, s: String| Event::Dropped { object_id: id, object: s },
                    r,
                ),
            None => post == pre && r is None,
        },
        DataEffect::Discard { discard } => match pre.any_object(discard@) {
            Some(o) => exists|outcome: Outcome|
                discard_post(pre, post, discard@, outcome) && transfer_event(
                    outcome,
                    discard,
                    o.primary_name@,
                    |id: ObjectId, s: String| Event::Discarded { object_id: id, object: s },
                    r,
                ),
            None => post == pre && r is None,
        },
        DataEffect::UnlockExit { unlock_exit } => exists|res: DirectionResolution|
            room_changed(pre, post) && relock_post(
                pre.cur_room(),
                post.cur_room(),
                unlock_exit,
                false,
                res,
            ) && r == match res {
                DirectionResolution::Found(_) => Some(Event::UnlockedExit { direction: unlock_exit }),
                DirectionResolution::NotFound => None,
            },
        DataEffect::LockExit { lock_exit } => r is None && exists|res: DirectionResolution|
            room_changed(pre, post) && relock_post(pre.cur_room(), post.cur_room(), lock_exit, true, res),
        DataEffect::RevealExit { reveal_exit } => r is None && exists|res: DirectionResolution|
            room_changed(pre, post) && reveal_exit_post(pre.cur_room(), post.cur_room(), reveal_exit, res),
        DataEffect::HideExit { hide_exit } => r is None && exists|res: DirectionResolution|
            room_changed(pre, post) && hide_exit_post(pre.cur_room(), post.cur_room(), hide_exit, res),
        DataEffect::RevealObject { reveal_object } => r is None && exists|res: crate::world::object::ObjectResolution|
            room_changed(pre, post) && reveal_object_post(pre.cur_room(), post.cur_room(), reveal_object, res),
        DataEffect::HideObject { hide_object } => r is None && exists|res: crate::world::object::ObjectResolution|
            room_changed(pre, post) && hide_object_post(pre.cur_room(), post.cur_room(), hide_object, res),
        DataEffect::SetFlag { flag } => set_flag_post(pre, post, flag@) && (r matches Some(
            Event::FlagSet { flag: f },
        ) && f@ == flag@),
        DataEffect::ClearFlag { flag } => clear_flag_post(pre, post, flag@) && (r matches Some(
            Event::FlagCleared { flag: f },
        ) && f@ == flag@),
    }
}

/// The events of a run of effects, in order, skipping the silent ones.
pub open spec fn events_of(outs: Seq<Option<Event>>) -> Seq<Event>
    decreases outs.len(),
{
    if outs.len() == 0 {
        Seq::empty()
    } else {
        events_of(outs.drop_last()) + event_list(outs.last())
    }
}

/// `worlds` and `outs` trace `effects` step by step: effect `k` takes
/// `worlds[k]` to `worlds[k + 1]` and reports `outs[k]`.
pub open spec fn is_trace(
    effects: Seq<DataEffect>,
    worlds: Seq<WorldView>,
    outs: Seq<Option<Event>>,
) -> bool {
    &&& worlds.len() == effects.len() + 1
    &&& outs.len() == effects.len()
    &&& forall|k: int|
        0 <= k < effects.len() ==> #[trigger] apply_post(effects[k], worlds[k], worlds[k + 1], outs[k])
}

/// The effect of applying `effects` in order to `pre`: each effect acts on
/// the world the previous ones left, and the events are theirs, in order.
pub open spec fn apply_all_post(
    effects: Seq<DataEffect>,
    pre: WorldView,
    post: WorldView,
    events: Seq<Event>,
) -> bool {
    exists|worlds: Seq<WorldView>, outs: Seq<Option<Event>>|
        #[trigger] is_trace(effects, worlds, outs) && worlds[0] == pre && worlds.last() == post
            && events == events_of(outs)
}

/// Running no effects leaves the world as it was and reports nothing.
pub proof fn lemma_no_effects(w: WorldView)
    ensures
        apply_all_post(Seq::empty(), w, w, Seq::empty()),
{
    let worlds = seq![w];
    let outs = Seq::<Option<Event>>::empty();
    assert(is_trace(Seq::empty(), worlds, outs));
    assert(events_of(outs) =~= Seq::<Event>::empty());
}

impl DataEffect {
    /// Apply a list of effects in order, mutating the world and returning
    /// the events they emit. Silent effects emit no event.
    pub fn apply_all(effects: &[DataEffect], world: &mut WorldState) -> (events: Vec<Event>)
        requires
            old(world).wf(),
        ensures
            final(world).wf(),
            apply_all_post(effects@, old(world)@, final(world)@, events@),
    {
        let ghost mut worlds: Seq<WorldView> = seq![world@];
        let ghost mut outs: Seq<Option<Event>> = Seq::empty();
        let mut events: Vec<Event> = Vec::new();
        let mut i: usize = 0;
        assert(events@ =~= events_of(outs));
        while i < effects.len()
            invariant
                world.wf(),
                i <= effects@.len(),
                worlds.len() == i + 1,
                outs.len() == i,
                worlds[0] == old(world)@,
                worlds[i as int] == world@,
                forall|k: int|
                    0 <= k < i ==> #[trigger] apply_post(effects@[k], worlds[k], worlds[k + 1], outs[k]),
                events@ == events_of(outs),
            decreases effects@.len() - i,
        {
            let r = effects[i].apply(world);
            proof {
                assert(outs.push(r).drop_last() =~= outs);
                assert(events_of(outs.push(r)) == events_of(outs) + event_list(r));
            }
            match r {
                Some(e) => {
                    events.push(e);
                },
                None => {},
            }
            proof {
                assert(events@ =~= events_of(outs) + event_list(r));
                let w0 = worlds;
                let o0 = outs;
                worlds = worlds.push(world@);
                outs = outs.push(r);
                assert forall|k: int| 0 <= k < i + 1 implies #[trigger] apply_post(
                    effects@[k],
                    worlds[k],
                    worlds[k + 1],
                    outs[k],
                ) by {
                    if k < i {
                        assert(worlds[k] == w0[k] && worlds[k + 1] == w0[k + 1] && outs[k] == o0[k]);
                    }
                }
            }
            i = i + 1;
        }
        assert(is_trace(effects@, worlds, outs));
        events
    }

    /// Apply this effect, mutating the world and returning its event, if it
    /// emits one.
    pub fn apply(&self, world: &mut WorldState) -> (event: Option<Event>)
        requires
            old(world).wf(),
        ensures
            final(world).wf(),
            apply_post(*self, old(world)@, final(world)@, event),
    {
        match self {
            DataEffect::Emit { emit } => Some(Event::Custom { name: emit.clone() }),
            DataEffect::Take { take } => take_into_inventory(world, take.clone()),
            DataEffect::Grant { grant } => add_to_inventory(world, grant.clone()),
            DataEffect::Drop { drop } => drop_into_room(world, drop.clone()),
            DataEffect::Discard { discard } => remove_from_inventory(world, discard.clone()),
            DataEffect::UnlockExit { unlock_exit } => match world.unlock_exit(*unlock_exit) {
                DirectionResolution::Found(_) => Some(Event::UnlockedExit { direction: *unlock_exit }),
                DirectionResolution::NotFound => None,
            },
            DataEffect::LockExit { lock_exit } => {
                world.lock_exit(*lock_exit);
                None
            },
            DataEffect::RevealExit { reveal_exit } => {
                world.reveal_exit(*reveal_exit);
                None
            },
            DataEffect::HideExit { hide_exit } => {
                world.hide_exit(*hide_exit);
                None
            },
            DataEffect::RevealObject { reveal_object } => {
                world.reveal_object(reveal_object);
                None
            },
            DataEffect::HideObject { hide_object } => {
                world.hide_object(hide_object);
                None
            },
            DataEffect::SetFlag { flag } => {
                world.set_flag(flag.as_str());
                Some(Event::FlagSet { flag: flag.clone() })
            },
            DataEffect::ClearFlag { flag } => {
                world.clear_flag(flag.as_str());
                Some(Event::FlagCleared { flag: flag.clone() })
            },
        }
    }
}

/// Take the visible object `id` into the inventory, reporting `Took` with
/// its name; nothing when it is not in scope or not visible.
pub fn take_into_inventory(world: &mut WorldState, id: ObjectId) -> (event: Option<Event>)
    requires
        old(world).wf(),
    ensures
        final(world).wf(),
        apply_post(DataEffect::Take { take: id }, old(world)@, final(world)@, event),
{
    let name = match world.object_info(&id) {
        Some(info) => info.name,
        None => return None,
    };
    let outcome = world.player_take_object(&id);
    match outcome {
        Outcome::Success => Some(Event::Took { object_id: id, object: name }),
        Outcome::Fail => None,
    }
}

/// Grant the object `id` into the inventory, reporting `Granted` with its
/// name; nothing when it is already held or has no template.
pub fn add_to_inventory(world: &mut WorldState, id: ObjectId) -> (event: Option<Event>)
    requires
        old(world).wf(),
    ensures
        final(world).wf(),
        apply_post(DataEffect::Grant { grant: id }, old(world)@, final(world)@, event),
{
    let ghost before = world@;
    let outcome = world.player_grant_object(&id);
    match outcome {
        Outcome::Success => {
            proof {
                lemma_index_of_id(before.inventory, id@);
                lemma_index_of_id(before.templates, id@);
                assert(world@.inventory.drop_last() == before.inventory);
            }
            let name = match world.object_info(&id) {
                Some(info) => info.name,
                None => return None,
            };
            Some(Event::Granted { object_id: id, object: name })
        },
        Outcome::Fail => None,
    }
}

/// Drop the carried object `id` into the current room, reporting `Dropped`
/// with its name; nothing when it is not carried.
pub fn drop_into_room(world: &mut WorldState, id: ObjectId) -> (event: Option<Event>)
    requires
        old(world).wf(),
    ensures
        final(world).wf(),
        apply_post(DataEffect::Drop { drop: id }, old(world)@, final(world)@, event),
{
    let name = match world.object_info(&id) {
        Some(info) => info.name,
        None => return None,
    };
    let outcome = world.player_drop_object(&id);
    match outcome {
        Outcome::Success => Some(Event::Dropped { object_id: id, object: name }),
        Outcome::Fail => None,
    }
}

/// Discard the carried object `id`, reporting `Discarded` with its name;
/// nothing when it is not carried.
pub fn remove_from_inventory(world: &mut WorldState, id: ObjectId) -> (event: Option<Event>)
    requires
        old(world).wf(),
    ensures
        final(world).wf(),
        apply_post(DataEffect::Discard { discard: id }, old(world)@, final(world)@, event),
{
    let name = match world.object_info(&id) {
        Some(info) => info.name,
        None => return None,
    };
    let outcome = world.player_discard_object(&id);
    match outcome {
        Outcome::Success => Some(Event::Discarded { object_id: id, object: name }),
        Outcome::Fail => None,
    }
}

/// Whether the context's item satisfies an interaction's item requirement:
/// none required, or exactly the required one.
pub open spec fn item_ok(item: Option<ObjectId>, context: ActionContext) -> bool {
    match item {
        Some(id) => context.item matches Some(i) && i@ == id@,
        None => true,
    }
}

/// Whether an interaction reacting to `verb` accepts the context's verb (a
/// context without a verb accepts every verb).
pub open spec fn verb_ok(verb: Verb, context: ActionContext) -> bool {
    match context.verb {
        Some(v) => v == verb,
        None => true,
    }
}

/// Whether `target` passes an authored target spec.
pub open spec fn data_target_ok(spec: Option<DataTarget>, w: WorldView, target: Option<Target>) -> bool {
    match spec {
        None => target is None,
        Some(DataTarget::Object { object }) => target matches Some(Target::Object(id)) && id@ == object@,
        Some(DataTarget::Npc { npc }) => target matches Some(Target::Npc(id)) && id@ == npc@,
        Some(DataTarget::Kind { kind: DataTargetKind::Scene }) => target matches Some(Target::Object(id))
            && is_scene_spec(w, id@),
    }
}

/// Whether the authored interaction `d` applies to `context` in `w`.
pub open spec fn data_matches_spec(d: InteractionData, w: WorldView, context: ActionContext) -> bool {
    &&& item_ok(d.item, context)
    &&& verb_ok(d.verb, context)
    &&& data_target_ok(d.target, w, context.target)
    &&& all_hold(d.condition@, w, context)
}

/// The predicate "applies to `context` in `w`", over authored interactions.
pub open spec fn data_matches(w: WorldView, context: ActionContext) -> spec_fn(InteractionData) -> bool {
    |d: InteractionData| data_matches_spec(d, w, context)
}

impl InteractionData {
    /// Whether this interaction applies to the given context.
    pub fn matches(&self, world: &WorldState, context: &ActionContext) -> (b: bool)
        requires
            world.wf(),
        ensures
            b == data_matches_spec(*self, world@, *context),
    {
        let item_ok = match &self.item {
            Some(id) => match &context.item {
                Some(i) => *i == *id,
                None => false,
            },
            None => true,
        };
        let verb_ok = match context.verb {
            Some(v) => self.verb == v,
            None => true,
        };
        let target = match &context.target {
            Some(t) => Some(t),
            None => None,
        };
        item_ok && verb_ok && self.target_matches(world, target) && self.condition_applies(
            world,
            context,
        )
    }

    /// Whether `target` passes this interaction's target spec.
    pub fn target_matches(&self, world: &WorldState, target: Option<&Target>) -> (b: bool)
        requires
            world.wf(),
        ensures
            b == data_target_ok(
                self.target,
                world@,
                match target {
                    Some(t) => Some(*t),
                    None => None,
                },
            ),
    {
        match &self.target {
            None => target.is_none(),
            Some(DataTarget::Object { object }) => match target {
                Some(Target::Object(id)) => *id == *object,
                _ => false,
            },
            Some(DataTarget::Npc { npc }) => match target {
                Some(Target::Npc(id)) => *id == *npc,
                _ => false,
            },
            Some(DataTarget::Kind { kind: DataTargetKind::Scene }) => match target {
                Some(Target::Object(id)) => world.object_is_scene(id),
                _ => false,
            },
        }
    }

    /// Whether every condition of this interaction holds.
    pub fn condition_applies(&self, world: &WorldState, context: &ActionContext) -> (b: bool)
        requires
            world.wf(),
        ensures
            b == all_hold(self.condition@, world@, *context),
    {
        all_conditions_hold(&self.condition, world, context)
    }

    /// Apply the interaction's effects in order, mutating the world and
    /// returning the events to report.
    pub fn run(&self, world: &mut WorldState) -> (events: Vec<Event>)
        requires
            old(world).wf(),
        ensures
            final(world).wf(),
            apply_all_post(self.effect@, old(world)@, final(world)@, events@),
    {
        DataEffect::apply_all(self.effect.as_slice(), world)
    }
}

/// Run the first authored interaction of the world that matches `context`,
/// if any; it owns the world mutation and the returned events.
pub fn dispatch_data(world: &mut WorldState, context: &ActionContext) -> (events: Option<Vec<Event>>)
    requires
        old(world).wf(),
    ensures
        final(world).wf(),
        ({
            let ds = old(world)@.data_interactions;
            let k = first_index(ds, data_matches(old(world)@, *context));
            if k < 0 {
                events is None && final(world)@ == old(world)@
            } else {
                events matches Some(evs) && apply_all_post(
                    ds[k].effect@,
                    old(world)@,
                    final(world)@,
                    evs@,
                )
            }
        }),
{
    let ghost p = data_matches(world@, *context);
    let n = world.data_interactions().len();
    let mut i: usize = 0;
    while i < n
        invariant
            world.wf(),
            world@ == old(world)@,
            n == world@.data_interactions.len(),
            i <= n,
            p == data_matches(world@, *context),
            first_index(world@.data_interactions.take(i as int), p) == -1,
        decreases n - i,
    {
        proof {
            let ds = world@.data_interactions;
            assert(ds.take(i + 1).drop_last() =~= ds.take(i as int));
            assert(ds.take(i + 1).last() == ds[i as int]);
        }
        if world.data_interactions()[i].matches(world, context) {
            proof {
                assert(p(world@.data_interactions[i as int]));
                lemma_first_index_prefix(world@.data_interactions, p, i + 1);
            }
            let interaction = world.data_interactions()[i].clone();
            return Some(interaction.run(world));
        }
        i = i + 1;
    }
    proof {
        assert(world@.data_interactions.take(n as int) =~= world@.data_interactions);
    }
    None
}

} // verus!
