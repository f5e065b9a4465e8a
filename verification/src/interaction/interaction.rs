//! Authored interactions: "when the player does *verb* with *item* on a
//! *target* and a condition holds, run an effect".
use vstd::prelude::*;

use crate::data::interactions_data::{clone_effects, DataCondition, DataEffect, DataTarget, DataTargetKind, InteractionData};
use crate::data::interactions_data::clone_conditions;
use crate::event::Event;
use crate::interaction::action_context::ActionContext;
use crate::interaction::data_interactions::{
    data_matches_spec, all_conditions_hold, all_hold, apply_all_post, filter_matches, item_ok, verb_ok,
};
use crate::interaction::target::{Target, TargetFilter, TargetKind};
use crate::interaction::verb::Verb;
use crate::keys::{NpcId, ObjectId};
use crate::world::{WorldState, WorldView};

verus! {

/// The condition of an interaction: a predicate over the world and the
/// interaction context. It runs both when dispatching and when a front-end
/// asks what is currently possible, so it should not change anything.
pub trait InteractionCondition {
    /// What the condition promises of its answer `held` in `world` for
    /// `context`; nothing unless an implementation says more.
    open spec fn decides(&self, world: WorldView, context: ActionContext, held: bool) -> bool {
        true
    }

    fn holds(&self, world: &WorldState, context: &ActionContext) -> (held: bool)
        requires
            world.wf(),
        ensures
            self.decides(world@, *context, held),
    ;
}

/// The effect of an interaction: the behaviour that runs when it fires,
/// mutating the world through `world` and returning the events to report.
/// The world is the only mutable state of the engine, and an effect leaves
/// it well formed.
pub trait InteractionEffect {
    /// What the effect promises of taking `pre` to `post` with `events`
    /// for `context`; nothing unless an implementation says more.
    open spec fn does(&self, pre: WorldView, post: WorldView, context: ActionContext, events: Seq<Event>) -> bool {
        true
    }

    fn apply(&self, world: &mut WorldState, context: &ActionContext) -> (events: Vec<Event>)
        requires
            old(world).wf(),
        ensures
            final(world).wf(),
            self.does(old(world)@, final(world)@, *context, events@),
    ;
}

/// What `condition` promises of its answer `held`.
pub open spec fn condition_decides<C: InteractionCondition + ?Sized>(
    condition: &C,
    world: WorldView,
    context: ActionContext,
    held: bool,
) -> bool {
    condition.decides(world, context, held)
}

/// What `effect` promises of taking `pre` to `post` with `events`.
pub open spec fn effect_does<E: InteractionEffect + ?Sized>(
    effect: &E,
    pre: WorldView,
    post: WorldView,
    context: ActionContext,
    events: Seq<Event>,
) -> bool {
    effect.does(pre, post, context, events)
}

/// What a boxed game-supplied condition promises of its answer `held`.
pub open spec fn boxed_condition_decides(
    condition: Box<dyn InteractionCondition>,
    world: WorldView,
    context: ActionContext,
    held: bool,
) -> bool {
    condition_decides(&*condition, world, context, held)
}

/// What a boxed game-supplied effect promises of taking `pre` to `post`
/// with `events`.
pub open spec fn boxed_effect_does(
    effect: Box<dyn InteractionEffect>,
    pre: WorldView,
    post: WorldView,
    context: ActionContext,
    events: Seq<Event>,
) -> bool {
    effect_does(&*effect, pre, post, context, events)
}

/// What guards an interaction.
pub enum Guard {
    /// Nothing: the interaction applies whenever verb, item and target do.
    Always,
    /// Authored conditions, all of which must hold, and possibly one exact
    /// target the context must name.
    Data { conditions: Vec<DataCondition>, exact: Option<Target> },
    /// The NPC hotspot guard: the NPC is in the current room, and the query
    /// names it (or names nothing at all).
    TalkTo(NpcId),
    /// A condition supplied by the game.
    Custom(Box<dyn InteractionCondition>),
}

/// What an interaction does when it fires.
pub enum Behaviour {
    /// Authored effects, applied in order.
    Data(Vec<DataEffect>),
    /// Nothing at all (an NPC hotspot: talking dispatches elsewhere).
    Inert,
    /// An effect supplied by the game.
    Custom(Box<dyn InteractionEffect>),
}

/// A single authored interaction: when the player does *verb* with *item*
/// (optionally on a *target* matching the filter) and the guard holds, run
/// the behaviour.
///
/// Front-ends can also query which interactions are currently live to build
/// verb menus or drop-targets for a point-and-click UI.
pub struct Interaction {
    verb: Verb,
    item: Option<ObjectId>,
    target: TargetFilter,
    guard: Guard,
    behaviour: Behaviour,
    /// When `Some`, this interaction denotes "talk to this NPC": an NPC
    /// hotspot for the query API rather than an object verb.
    npc: Option<NpcId>,
}

/// The plain-value picture of a guard; a game-supplied condition is opaque.
pub enum GuardView {
    Always,
    Data { conditions: Seq<DataCondition>, exact: Option<Target> },
    TalkTo(NpcId),
    Custom,
}

/// The plain-value picture of an interaction.
pub struct InteractionView {
    pub verb: Verb,
    pub item: Option<ObjectId>,
    pub target: TargetFilter,
    pub guard: GuardView,
    /// The authored effects it runs; `None` for a game-supplied effect.
    pub effects: Option<Seq<DataEffect>>,
    pub npc: Option<NpcId>,
}

impl View for Interaction {
    type V = InteractionView;

    closed spec fn view(&self) -> InteractionView {
        InteractionView {
            verb: self.verb,
            item: self.item,
            target: self.target,
            guard: match self.guard {
                Guard::Always => GuardView::Always,
                Guard::Data { conditions, exact } => GuardView::Data { conditions: conditions@, exact },
                Guard::TalkTo(npc) => GuardView::TalkTo(npc),
                Guard::Custom(_) => GuardView::Custom,
            },
            effects: match self.behaviour {
                Behaviour::Data(effects) => Some(effects@),
                Behaviour::Inert => Some(Seq::empty()),
                Behaviour::Custom(_) => None,
            },
            npc: self.npc,
        }
    }
}

/// Whether the NPC `npc` stands in the current room of `w`.
pub open spec fn npc_present(w: WorldView, npc: NpcId) -> bool {
    exists|j: int|
        0 <= j < w.npcs.len() && (#[trigger] w.npcs[j]).id@ == npc@ && w.npcs[j].room@
            == w.cur_room_id()@
}

/// Whether a talk hotspot for `npc` answers `context`: a query naming this
/// NPC (with any item), or the fully open query (no item, no target).
pub open spec fn talk_target_ok(npc: NpcId, context: ActionContext) -> bool {
    match context.target {
        Some(Target::Npc(id)) => id@ == npc@,
        Some(Target::Object(_)) => false,
        None => context.item is None,
    }
}

/// What a guard decides, when the library knows it: `None` for a
/// game-supplied condition.
pub open spec fn guard_result(guard: GuardView, w: WorldView, context: ActionContext) -> Option<bool> {
    match guard {
        GuardView::Always => Some(true),
        GuardView::Data { conditions, exact } => Some(
            all_hold(conditions, w, context) && match exact {
                Some(t) => context.target matches Some(c) && crate::interaction::target::same_target(c, t),
                None => true,
            },
        ),
        GuardView::TalkTo(npc) => Some(talk_target_ok(npc, context) && npc_present(w, npc)),
        GuardView::Custom => None,
    }
}

/// Whether verb, item and target filter accept `context` (everything but
/// the guard).
pub open spec fn shape_matches(i: InteractionView, w: WorldView, context: ActionContext) -> bool {
    &&& item_ok(i.item, context)
    &&& verb_ok(i.verb, context)
    &&& filter_matches(i.target, w, context.target)
}

/// `b` is the answer of `matches` for `i`: exact where the library knows the
/// guard, and never `true` when verb, item or target filter refuse.
pub open spec fn matches_result(i: InteractionView, w: WorldView, context: ActionContext, b: bool) -> bool {
    match guard_result(i.guard, w, context) {
        Some(g) => b == (shape_matches(i, w, context) && g),
        None => b ==> shape_matches(i, w, context),
    }
}

impl Interaction {
    /// Build an interaction from its parts: the verb that triggers it, the
    /// object the player must be using (or `None` for any), the coarse
    /// target filter, an optional condition, and the effect.
    pub fn build(
        verb: Verb,
        item: Option<ObjectId>,
        target: TargetFilter,
        condition: Option<Box<dyn InteractionCondition>>,
        effect: Box<dyn InteractionEffect>,
    ) -> (interaction: Self)
        ensures
            interaction@.verb == verb,
            interaction@.item == item,
            interaction@.target == target,
            interaction@.guard == (match condition {
                Some(_) => GuardView::Custom,
                None => GuardView::Always,
            }),
            interaction@.effects is None,
            interaction@.npc is None,
            forall|w: WorldView, ctx: ActionContext, held: bool|
                #[trigger] interaction.custom_decides(w, ctx, held) == match condition {
                    Some(c) => boxed_condition_decides(c, w, ctx, held),
                    None => true,
                },
            forall|pre: WorldView, post: WorldView, ctx: ActionContext, events: Seq<Event>|
                #[trigger] interaction.custom_does(pre, post, ctx, events) == boxed_effect_does(
                    effect,
                    pre,
                    post,
                    ctx,
                    events,
                ),
    {
        let guard = match condition {
            Some(c) => Guard::Custom(c),
            None => Guard::Always,
        };
        Interaction { verb, item, target, guard, behaviour: Behaviour::Custom(effect), npc: None }
    }

    /// Build a "talk to this NPC" interaction: a [`Verb::Talk`] hotspot for
    /// an NPC, live only while the player is in the NPC's room. It matches a
    /// query naming this NPC (any item) and the fully open query (no item,
    /// no target); its effect is inert.
    pub fn talk_npc(npc: NpcId) -> (interaction: Self)
        ensures
            interaction@.verb == Verb::Talk,
            interaction@.item is None,
            interaction@.target == TargetFilter::Any,
            interaction@.guard == GuardView::TalkTo(npc),
            interaction@.effects == Some(Seq::<DataEffect>::empty()),
            interaction@.npc == Some(npc),
    {
        let present = npc.clone();
        Interaction {
            verb: Verb::Talk,
            item: None,
            target: TargetFilter::Any,
            guard: Guard::TalkTo(present),
            behaviour: Behaviour::Inert,
            npc: Some(npc),
        }
    }

    /// The verb this interaction reacts to.
    pub fn verb(&self) -> (verb: Verb)
        ensures
            verb == self@.verb,
    {
        self.verb
    }

    /// The object this interaction requires (or `None` for "any").
    pub fn item(&self) -> (item: Option<ObjectId>)
        ensures
            item == self@.item,
    {
        match &self.item {
            Some(id) => Some(id.clone()),
            None => None,
        }
    }

    /// The coarse target filter this interaction accepts.
    pub fn target(&self) -> (target: TargetFilter)
        ensures
            target == self@.target,
    {
        self.target
    }

    /// The NPC this interaction denotes talking to, when it is a talk
    /// hotspot.
    pub fn npc(&self) -> (npc: Option<&NpcId>)
        ensures
            match self@.npc {
                Some(n) => npc == Some(&n),
                None => npc is None,
            },
    {
        match &self.npc {
            Some(n) => Some(n),
            None => None,
        }
    }

    /// What the game-supplied condition, if the guard is one, promises of
    /// the answer `held`.
    pub closed spec fn custom_decides(&self, world: WorldView, context: ActionContext, held: bool) -> bool {
        match self.guard {
            Guard::Custom(condition) => condition_decides(&*condition, world, context, held),
            _ => true,
        }
    }

    /// What the game-supplied effect, if the behaviour is one, promises of
    /// taking `pre` to `post` with `events`.
    pub closed spec fn custom_does(&self, pre: WorldView, post: WorldView, context: ActionContext, events: Seq<Event>) -> bool {
        match self.behaviour {
            Behaviour::Custom(effect) => effect_does(&*effect, pre, post, context, events),
            _ => true,
        }
    }

    /// Whether this interaction applies to the given context in the given
    /// world: used both to dispatch and to answer the query API.
    pub fn matches(&self, world: &WorldState, context: &ActionContext) -> (b: bool)
        requires
            world.wf(),
        ensures
            matches_result(self@, world@, *context, b),
            shape_matches(self@, world@, *context) ==> self.custom_decides(world@, *context, b),
    {
        let item_ok = match &self.item {
            Some(id) => match &context.item {
                Some(i) => *i == *id,
                None => false,
            },
            None => true,
        };
        let verb_ok = match context.verb {
            Some(v) => self.verb == v,
            None => true,
        };
        let target = match &context.target {
            Some(t) => Some(t),
            None => None,
        };
        item_ok && verb_ok && self.target.matches(world, target) && self.condition_applies(
            world,
            context,
        )
    }

    /// Whether the guard of this interaction holds.
    pub fn condition_applies(&self, world: &WorldState, context: &ActionContext) -> (b: bool)
        requires
            world.wf(),
        ensures
            guard_result(self@.guard, world@, *context) matches Some(g) ==> b == g,
            self.custom_decides(world@, *context, b),
    {
        match &self.guard {
            Guard::Always => true,
            Guard::Data { conditions, exact } => {
                all_conditions_hold(conditions, world, context) && match exact {
                    Some(t) => match &context.target {
                        Some(c) => *c == *t,
                        None => false,
                    },
                    None => true,
                }
            },
            Guard::TalkTo(npc) => {
                let target_ok = match &context.target {
                    Some(Target::Npc(id)) => *id == *npc,
                    Some(Target::Object(_)) => false,
                    None => context.item.is_none(),
                };
                target_ok && npc_in_current_room(world, npc)
            },
            Guard::Custom(condition) => condition.holds(world, context),
        }
    }

    /// Run the interaction's effect and return the events it produced.
    pub fn run(&self, world: &mut WorldState, context: &ActionContext) -> (events: Vec<Event>)
        requires
            old(world).wf(),
        ensures
            final(world).wf(),
            self@.effects matches Some(effects) ==> apply_all_post(
                effects,
                old(world)@,
                final(world)@,
                events@,
            ),
            self@.effects is None ==> self.custom_does(old(world)@, final(world)@, *context, events@),
    {
        match &self.behaviour {
            Behaviour::Data(effects) => DataEffect::apply_all(effects.as_slice(), world),
            Behaviour::Inert => {
                let ghost w = world@;
                proof {
                    crate::interaction::data_interactions::lemma_no_effects(w);
                }
                Vec::new()
            },
            Behaviour::Custom(effect) => effect.apply(world, context),
        }
    }
}

/// Whether the NPC `npc` stands in the current room.
pub fn npc_in_current_room(world: &WorldState, npc: &NpcId) -> (b: bool)
    requires
        world.wf(),
    ensures
        b == npc_present(world@, *npc),
{
    let current = world.current_room_id();
    let npcs = world.npcs();
    let mut i: usize = 0;
    while i < npcs.len()
        invariant
            i <= npcs@.len(),
            npcs@ == world@.npcs,
            current == world@.cur_room_id(),
            forall|j: int|
                0 <= j < i ==> !((#[trigger] npcs@[j]).id@ == npc@ && npcs@[j].room@ == current@),
        decreases npcs@.len() - i,
    {
        if npcs[i].id == *npc && npcs[i].room == current {
            assert(npcs@[i as int].id@ == npc@);
            return true;
        }
        i = i + 1;
    }
    false
}

/// `i` is the interaction compiled from the authored `d`: same verb and
/// item, the authored conditions as its guard (an exact object or NPC target
/// becomes a `Targeted` filter plus that exact target; a scene kind becomes
/// the scene filter; no target spec becomes `Any`), and the authored effects.
pub open spec fn compiled_from(d: InteractionData, i: InteractionView) -> bool {
    &&& i.verb == d.verb
    &&& i.item == d.item
    &&& i.npc is None
    &&& i.effects == Some(d.effect@)
    &&& match d.target {
        None => i.target == TargetFilter::Any && i.guard == GuardView::Data {
            conditions: d.condition@,
            exact: None,
        },
        Some(DataTarget::Object { object }) => i.target == TargetFilter::Targeted && i.guard
            == GuardView::Data { conditions: d.condition@, exact: Some(Target::Object(object)) },
        Some(DataTarget::Npc { npc }) => i.target == TargetFilter::Targeted && i.guard
            == GuardView::Data { conditions: d.condition@, exact: Some(Target::Npc(npc)) },
        Some(DataTarget::Kind { kind: DataTargetKind::Scene }) => i.target == TargetFilter::Kind(
            TargetKind::Scene,
        ) && i.guard == GuardView::Data { conditions: d.condition@, exact: None },
    }
}

impl InteractionData {
    /// Compile this authored interaction into the [`Interaction`] shape used
    /// by the query API. Its guard re-evaluates the authored conditions
    /// against the live world, so a query only reports interactions that are
    /// currently possible.
    pub fn compile(&self) -> (interaction: Interaction)
        ensures
            compiled_from(*self, interaction@),
    {
        let (filter, exact) = match &self.target {
            None => (TargetFilter::Any, None),
            Some(DataTarget::Object { object }) => (
                TargetFilter::Targeted,
                Some(Target::Object(object.clone())),
            ),
            Some(DataTarget::Npc { npc }) => (TargetFilter::Targeted, Some(Target::Npc(npc.clone()))),
            Some(DataTarget::Kind { kind: DataTargetKind::Scene }) => (
                TargetFilter::Kind(TargetKind::Scene),
                None,
            ),
        };
        let item = match &self.item {
            Some(id) => Some(id.clone()),
            None => None,
        };
        Interaction {
            verb: self.verb,
            item,
            target: filter,
            guard: Guard::Data { conditions: clone_conditions(&self.condition), exact },
            behaviour: Behaviour::Data(clone_effects(&self.effect)),
            npc: None,
        }
    }
}

/// A compiled interaction answers a query exactly as the authored one it
/// came from, and runs the same effects. The one difference: an authored
/// interaction without a target spec refuses a targeted context, while its
/// compiled form (filter `Any`) accepts it; such contexts are left out here.
pub proof fn law_compiled_interaction_matches_its_data(
    d: InteractionData,
    i: InteractionView,
    w: WorldView,
    context: ActionContext,
)
    requires
        compiled_from(d, i),
        !(d.target is None && context.target is Some),
    ensures
        matches_result(i, w, context, data_matches_spec(d, w, context)),
        i.effects == Some(d.effect@),
{
}

} // verus!
