//! The game engine: turns player actions into rule hooks and events.
use vstd::prelude::*;

use crate::data::interactions_data::InteractionData;
use crate::data::WorldData;
use crate::event::Event;
use crate::input::action::{Action, GoTarget, Locator};
use crate::input::{parse_input, parses_to};
use crate::interaction::action_context::ActionContext;
use crate::interaction::interaction::{
    compiled_from, matches_result, npc_in_current_room, npc_present, GuardView, Interaction,
    InteractionView,
};
use crate::interaction::target::{Target, TargetFilter, TargetResolution};
use crate::interaction::verb::Verb;
use crate::keys::{NpcId, ObjectId, Resolution};
use crate::rules::{
    after_choice, choose_spec, display_name, drop_context, examine_context, find_npc, npc_position,
    object_display_name, taken_over, use_context, BasicRules, Rules,
};
use crate::data::trigger_data::TriggerData;
use crate::interaction::data_interactions::{apply_all_post, data_matches};
use crate::text::first_index;
use crate::world::npc::choice_index;
use crate::trigger::{check_triggers, fire_all_post, has_fired, is_ready, law_triggers_fire_once, ready_triggers};
use crate::world::object::{contains_id, matching_ids, resolves_to, ObjectResolution};
use crate::world::save::{is_snapshot_of, restore_post, WorldSnapshot};
use crate::world::{world_from_data, WorldState, WorldView};

verus! {

/// A rule hook to call, with its arguments resolved against the world.
#[allow(inconsistent_fields)]
pub enum HookCall {
    Look,
    Go(GoTarget),
    Examine { name: String, resolution: TargetResolution },
    Take { name: String, resolution: ObjectResolution },
    Drop { name: String, resolution: ObjectResolution },
    Use {
        item: String,
        target: Option<String>,
        item_resolution: ObjectResolution,
        target_resolution: TargetResolution,
    },
    Talk { name: String, npc: Option<NpcId> },
    Choose(String),
    Unknown(String),
}

/// `x` found when `present`, nothing found otherwise.
pub open spec fn found_if<T>(present: bool, x: T) -> Resolution<T> {
    if present {
        Resolution::Found(x)
    } else {
        Resolution::NotFound
    }
}

/// The name the NPC with key `id` is reported under: its primary name when
/// the world has it, and the key itself otherwise.
pub open spec fn npc_display_name(w: WorldView, id: NpcId) -> Seq<char> {
    let k = npc_position(w, id@);
    if k >= 0 {
        w.npcs[k].primary_name@
    } else {
        id@
    }
}

/// `name` and `r` locate `loc` among the visible objects of the current
/// room: a typed name is matched against their names; an id is found when
/// such an object is there.
pub open spec fn in_room_located(w: WorldView, loc: Locator<ObjectId>, name: Seq<char>, r: ObjectResolution) -> bool {
    match loc {
        Locator::Name(n) => name == n@ && resolves_to(matching_ids(w.cur_room().visible(), n@), n@, r),
        Locator::Id(id) => name == display_name(w, id) && r == found_if(
            contains_id(w.cur_room().visible(), id@),
            id,
        ),
    }
}

/// `name` and `r` locate `loc` among the carried objects.
pub open spec fn carried_located(w: WorldView, loc: Locator<ObjectId>, name: Seq<char>, r: ObjectResolution) -> bool {
    match loc {
        Locator::Name(n) => name == n@ && resolves_to(matching_ids(w.inventory, n@), n@, r),
        Locator::Id(id) => name == display_name(w, id) && r == found_if(w.holds(id@), id),
    }
}

/// `name` and `r` locate `loc` in the player's whole scope: NPCs of the
/// current room, visible objects and carried ones.
pub open spec fn target_located(w: WorldView, loc: Locator<Target>, name: Seq<char>, r: TargetResolution) -> bool {
    match loc {
        Locator::Name(n) => name == n@ && w.resolve_target_spec(n@, r),
        Locator::Id(Target::Object(id)) => name == display_name(w, id) && r == found_if(
            contains_id(w.cur_room().visible(), id@) || w.holds(id@),
            Target::Object(id),
        ),
        Locator::Id(Target::Npc(id)) => name == npc_display_name(w, id) && r == found_if(
            npc_present(w, id),
            Target::Npc(id),
        ),
    }
}

/// `name` and `npc` locate `loc` among the NPCs of the current room.
pub open spec fn npc_located(w: WorldView, loc: Locator<NpcId>, name: Seq<char>, npc: Option<NpcId>) -> bool {
    match loc {
        Locator::Name(n) => name == n@ && npc == (if w.npc_index_by_name(n@) >= 0 {
            Some(w.npcs[w.npc_index_by_name(n@)].id)
        } else {
            None
        }),
        Locator::Id(id) => name == npc_display_name(w, id) && npc == (if npc_present(w, id) {
            Some(id)
        } else {
            None
        }),
    }
}

/// `call` is the hook call for `action` in `w`.
pub open spec fn hook_call_for(w: WorldView, action: Action, call: HookCall) -> bool {
    match action {
        Action::Look => call == HookCall::Look,
        Action::Go(target) => call == HookCall::Go(target),
        Action::Examine(loc) => call matches HookCall::Examine { name, resolution } && target_located(
            w,
            loc,
            name@,
            resolution,
        ),
        Action::Take(loc) => call matches HookCall::Take { name, resolution } && in_room_located(
            w,
            loc,
            name@,
            resolution,
        ),
        Action::Drop(loc) => call matches HookCall::Drop { name, resolution } && carried_located(
            w,
            loc,
            name@,
            resolution,
        ),
        Action::Use { item, target } => call matches HookCall::Use {
            item: i,
            target: t,
            item_resolution,
            target_resolution,
        } && carried_located(w, item, i@, item_resolution) && match target {
            None => t is None && target_resolution is NotFound,
            Some(loc) => t matches Some(tt) && target_located(w, loc, tt@, target_resolution),
        },
        Action::Talk(loc) => call matches HookCall::Talk { name, npc } && npc_located(w, loc, name@, npc),
        Action::Choose(s) => call == HookCall::Choose(s),
        Action::Unknown(s) => call == HookCall::Unknown(s),
    }
}

/// The name the NPC with key `id` is reported under.
pub fn npc_name(world: &WorldState, id: &NpcId) -> (name: String)
    ensures
        name@ == npc_display_name(world@, *id),
{
    match find_npc(world, id) {
        Some(k) => world.npcs()[k].primary_name.clone(),
        None => id.to_string(),
    }
}

/// Locate an object among the visible objects of the current room.
pub fn locate_in_room(world: &WorldState, loc: Locator<ObjectId>) -> (located: (String, ObjectResolution))
    requires
        world.wf(),
    ensures
        in_room_located(world@, loc, located.0@, located.1),
{
    match loc {
        Locator::Name(n) => {
            let r = world.resolve_room_object(n.as_str());
            (n, r)
        },
        Locator::Id(id) => {
            let name = object_display_name(world, &id);
            let found = world.current_room().holds(&id);
            if found {
                (name, Resolution::Found(id))
            } else {
                (name, Resolution::NotFound)
            }
        },
    }
}

/// Locate an object among the carried objects.
pub fn locate_carried(world: &WorldState, loc: Locator<ObjectId>) -> (located: (String, ObjectResolution))
    requires
        world.wf(),
    ensures
        carried_located(world@, loc, located.0@, located.1),
{
    match loc {
        Locator::Name(n) => {
            let r = world.resolve_player_object(n.as_str());
            (n, r)
        },
        Locator::Id(id) => {
            let name = object_display_name(world, &id);
            if world.player_holds(&id) {
                (name, Resolution::Found(id))
            } else {
                (name, Resolution::NotFound)
            }
        },
    }
}

/// Locate a target in the player's whole scope.
pub fn locate_target(world: &WorldState, loc: Locator<Target>) -> (located: (String, TargetResolution))
    requires
        world.wf(),
    ensures
        target_located(world@, loc, located.0@, located.1),
{
    match loc {
        Locator::Name(n) => {
            let r = world.resolve_target(n.as_str());
            (n, r)
        },
        Locator::Id(Target::Object(id)) => {
            let name = object_display_name(world, &id);
            if world.target_in_scope(&id) {
                (name, Resolution::Found(Target::Object(id)))
            } else {
                (name, Resolution::NotFound)
            }
        },
        Locator::Id(Target::Npc(id)) => {
            let name = npc_name(world, &id);
            if npc_in_current_room(world, &id) {
                (name, Resolution::Found(Target::Npc(id)))
            } else {
                (name, Resolution::NotFound)
            }
        },
    }
}

/// Locate an NPC among those of the current room.
pub fn locate_npc(world: &WorldState, loc: Locator<NpcId>) -> (located: (String, Option<NpcId>))
    requires
        world.wf(),
    ensures
        npc_located(world@, loc, located.0@, located.1),
{
    match loc {
        Locator::Name(n) => {
            let npc = match world.resolve_npc(n.as_str()) {
                Some(npc) => Some(npc.id.clone()),
                None => None,
            };
            (n, npc)
        },
        Locator::Id(id) => {
            let name = npc_name(world, &id);
            if npc_in_current_room(world, &id) {
                (name, Some(id))
            } else {
                (name, None)
            }
        },
    }
}

/// The hook call for `action`: its locators resolved against the world.
pub fn resolve_action(world: &WorldState, action: Action) -> (call: HookCall)
    requires
        world.wf(),
    ensures
        hook_call_for(world@, action, call),
{
    match action {
        Action::Look => HookCall::Look,
        Action::Go(target) => HookCall::Go(target),
        Action::Examine(loc) => {
            let (name, resolution) = locate_target(world, loc);
            HookCall::Examine { name, resolution }
        },
        Action::Take(loc) => {
            let (name, resolution) = locate_in_room(world, loc);
            HookCall::Take { name, resolution }
        },
        Action::Drop(loc) => {
            let (name, resolution) = locate_carried(world, loc);
            HookCall::Drop { name, resolution }
        },
        Action::Use { item, target } => {
            let (item, item_resolution) = locate_carried(world, item);
            match target {
                Some(loc) => {
                    let (t, target_resolution) = locate_target(world, loc);
                    HookCall::Use { item, target: Some(t), item_resolution, target_resolution }
                },
                None => HookCall::Use {
                    item,
                    target: None,
                    item_resolution,
                    target_resolution: Resolution::NotFound,
                },
            }
        },
        Action::Talk(loc) => {
            let (name, npc) = locate_npc(world, loc);
            HookCall::Talk { name, npc }
        },
        Action::Choose(s) => HookCall::Choose(s),
        Action::Unknown(s) => HookCall::Unknown(s),
    }
}

/// The interactions of `all` that `keep` marks, in order.
pub open spec fn select(all: Seq<Interaction>, keep: Seq<bool>) -> Seq<Interaction>
    decreases all.len(),
{
    if all.len() == 0 || keep.len() == 0 {
        Seq::empty()
    } else {
        select(all.drop_last(), keep.drop_last()) + if keep.last() {
            seq![all.last()]
        } else {
            Seq::empty()
        }
    }
}

/// Selecting from two lists one after the other selects from each.
pub proof fn lemma_select_concat(a: Seq<Interaction>, ka: Seq<bool>, b: Seq<Interaction>, kb: Seq<bool>)
    requires
        ka.len() == a.len(),
        kb.len() == b.len(),
    ensures
        select(a + b, ka + kb) == select(a, ka) + select(b, kb),
    decreases b.len(),
{
    if b.len() == 0 {
        assert(a + b =~= a);
        assert(ka + kb =~= ka);
        assert(select(b, kb) =~= Seq::<Interaction>::empty());
        assert(select(a, ka) + select(b, kb) =~= select(a, ka));
    } else {
        lemma_select_concat(a, ka, b.drop_last(), kb.drop_last());
        assert((a + b).drop_last() =~= a + b.drop_last());
        assert((ka + kb).drop_last() =~= ka + kb.drop_last());
        assert(select(b, kb) == select(b.drop_last(), kb.drop_last()) + if kb.last() {
            seq![b.last()]
        } else {
            Seq::empty()
        });
        assert(select(a, ka) + select(b, kb) =~= select(a, ka) + select(b.drop_last(), kb.drop_last())
            + if kb.last() {
            seq![b.last()]
        } else {
            Seq::empty()
        });
    }
}

/// `keep` is an answer `matches` may give for each interaction of `all`.
pub open spec fn answers(all: Seq<Interaction>, keep: Seq<bool>, w: WorldView, context: ActionContext) -> bool {
    &&& keep.len() == all.len()
    &&& forall|i: int| 0 <= i < all.len() ==> matches_result((#[trigger] all[i])@, w, context, keep[i])
}

/// The interactions of `list` that match `context`, appended to `out`; the
/// answers it got are returned.
fn collect_live<'a>(
    list: &'a [Interaction],
    world: &WorldState,
    context: &ActionContext,
    out: &mut Vec<&'a Interaction>,
) -> (keep: Ghost<Seq<bool>>)
    requires
        world.wf(),
    ensures
        answers(list@, keep@, world@, *context),
        final(out)@.map_values(|r: &Interaction| *r) == old(out)@.map_values(|r: &Interaction| *r)
            + select(list@, keep@),
{
    let ghost start = out@.map_values(|r: &Interaction| *r);
    let ghost mut keep: Seq<bool> = Seq::empty();
    let mut i: usize = 0;
    while i < list.len()
        invariant
            world.wf(),
            i <= list@.len(),
            keep.len() == i,
            answers(list@.take(i as int), keep, world@, *context),
            out@.map_values(|r: &Interaction| *r) == start + select(list@.take(i as int), keep),
        decreases list@.len() - i,
    {
        let b = list[i].matches(world, context);
        let ghost before = out@.map_values(|r: &Interaction| *r);
        if b {
            out.push(&list[i]);
            assert(out@.map_values(|r: &Interaction| *r) =~= before.push(list@[i as int]));
        } else {
            assert(out@.map_values(|r: &Interaction| *r) =~= before);
        }
        proof {
            let taken = list@.take(i + 1);
            let k2 = keep.push(b);
            assert(taken.drop_last() =~= list@.take(i as int));
            assert(k2.drop_last() =~= keep);
            assert(select(taken, k2) == select(list@.take(i as int), keep) + if b {
                seq![list@[i as int]]
            } else {
                Seq::empty()
            });
            assert forall|j: int| 0 <= j < taken.len() implies matches_result(
                (#[trigger] taken[j])@,
                world@,
                *context,
                k2[j],
            ) by {
                if j < i {
                    assert(taken[j] == list@.take(i as int)[j]);
                }
            }
            keep = k2;
        }
        i = i + 1;
    }
    assert(list@.take(list@.len() as int) =~= list@);
    Ghost(keep)
}

/// The distinct verbs of `live`.
pub fn verbs_of(live: &Vec<&Interaction>) -> (verbs: Vec<Verb>)
    ensures
        verbs@.no_duplicates(),
        forall|v: Verb|
            verbs@.contains(v) <==> exists|i: int| 0 <= i < live@.len() && (#[trigger] live@[i])@.verb == v,
{
    let mut verbs: Vec<Verb> = Vec::new();
    let mut i: usize = 0;
    while i < live.len()
        invariant
            i <= live@.len(),
            verbs@.no_duplicates(),
            forall|v: Verb|
                verbs@.contains(v) <==> exists|j: int| 0 <= j < i && (#[trigger] live@[j])@.verb == v,
        decreases live@.len() - i,
    {
        let v = live[i].verb();
        let ghost before = verbs@;
        crate::rules::insert_verb(&mut verbs, v);
        proof {
            assert forall|u: Verb| verbs@.contains(u) <==> exists|j: int| 0 <= j < i + 1 && (#[trigger] live@[j])@.verb == u by {
                assert(verbs@.to_set().contains(u) == before.to_set().insert(v).contains(u));
                if u == v {
                    assert(live@[i as int]@.verb == u);
                }
                if exists|j: int| 0 <= j < i + 1 && (#[trigger] live@[j])@.verb == u {
                    let j = choose|j: int| 0 <= j < i + 1 && (#[trigger] live@[j])@.verb == u;
                    if j < i {
                        assert(before.contains(u));
                    }
                }
            }
        }
        i = i + 1;
    }
    verbs
}

/// The pure game state: the world, the rules `R` it was opened with (the
/// stock [`BasicRules`] unless a game brings its own), and the interactions
/// the query API reports. No rendering, I/O or persistence.
pub struct GameEngine<R = BasicRules> {
    world: WorldState,
    rules: R,
    /// The authored interactions, compiled, in declaration order.
    data_interactions: Vec<Interaction>,
    /// One talk hotspot per NPC of the world, so the query API reports the
    /// NPCs of the current room as talk targets.
    talk_targets: Vec<Interaction>,
}

impl<R: Rules> GameEngine<R> {
    /// The world, as plain values.
    pub closed spec fn world_view(&self) -> WorldView {
        self.world@
    }

    /// The compiled authored interactions.
    pub closed spec fn compiled(&self) -> Seq<Interaction> {
        self.data_interactions@
    }

    /// The talk hotspots.
    pub closed spec fn talk_hotspots(&self) -> Seq<Interaction> {
        self.talk_targets@
    }

    /// The rules the engine was opened with.
    pub closed spec fn rules_of(&self) -> R {
        self.rules
    }

    /// Whether `interactions` is what the game's rules report as theirs.
    pub open spec fn rules_list(&self, interactions: Seq<Interaction>) -> bool {
        rules_lists(&self.rules_of(), interactions)
    }

    /// Whether the game's rules may offer `verbs` for `target`, given the
    /// verbs of the live item-agnostic interactions.
    pub open spec fn rules_offer(&self, target: Target, interaction_verbs: Seq<Verb>, verbs: Seq<Verb>) -> bool {
        rules_offers(&self.rules_of(), target, interaction_verbs, self.world_view(), verbs)
    }

    /// What the game's rules promise of the hook `call` reaches, taking
    /// `pre` to `post` with `events`.
    pub open spec fn rules_answer(&self, call: HookCall, pre: WorldView, post: WorldView, events: Seq<Event>) -> bool {
        hook_answers(&self.rules_of(), call, pre, post, events)
    }

    /// The engine is well formed: so is its world.
    pub open spec fn wf(&self) -> bool {
        self.world_view().wf()
    }

    /// Open the engine on the world defined by `data`, with the game's own
    /// rules. The world must define at least one room.
    pub fn get_with_rules(data: &WorldData, rules: R) -> (engine: Self)
        requires
            data.rooms@.len() > 0,
        ensures
            engine.wf(),
            started_from(*data, engine),
            engine.rules_of() == rules,
    {
        let world = WorldState::from_data(data);
        let mut talk_targets: Vec<Interaction> = Vec::new();
        let npcs = world.npcs();
        let mut i: usize = 0;
        while i < npcs.len()
            invariant
                i <= npcs@.len(),
                npcs@ == world@.npcs,
                talk_targets@.len() == i,
                forall|k: int| 0 <= k < i ==> is_talk_hotspot((#[trigger] talk_targets@[k])@, npcs@[k].id),
            decreases npcs@.len() - i,
        {
            talk_targets.push(Interaction::talk_npc(npcs[i].id.clone()));
            i = i + 1;
        }
        let mut compiled: Vec<Interaction> = Vec::new();
        let mut j: usize = 0;
        while j < data.interactions.len()
            invariant
                j <= data.interactions@.len(),
                compiled@.len() == j,
                forall|k: int| 0 <= k < j ==> compiled_from(data.interactions@[k], (#[trigger] compiled@[k])@),
            decreases data.interactions@.len() - j,
        {
            compiled.push(data.interactions[j].compile());
            j = j + 1;
        }
        GameEngine { world, rules, data_interactions: compiled, talk_targets }
    }

    /// The world.
    pub fn world(&self) -> (world: &WorldState)
        ensures
            world@ == self.world_view(),
    {
        &self.world
    }

    /// The world, to change it directly.
    pub fn world_mut(&mut self) -> (world: &mut WorldState)
        ensures
            world@ == old(self).world_view(),
            final(self).world_view() == final(world)@,
            final(self).compiled() == old(self).compiled(),
            final(self).talk_hotspots() == old(self).talk_hotspots(),
    {
        &mut self.world
    }

    /// Execute a raw textual command: parse it, then execute the action.
    pub fn handle_input(&mut self, input: &str) -> (events: Vec<Event>)
        requires
            old(self).wf(),
        ensures
            final(self).wf(),
            exists|action: Action| parses_to(input@, action) && turn_post(*old(self), *final(self), action, events@),
    {
        let action = parse_input(input);
        let ghost parsed = action;
        let events = self.execute_action(action);
        assert(parses_to(input@, parsed));
        events
    }

    /// Execute one action: the rule hook for it, with its locators resolved
    /// against the world, and then the world triggers.
    pub fn execute_action(&mut self, action: Action) -> (events: Vec<Event>)
        requires
            old(self).wf(),
        ensures
            final(self).wf(),
            turn_post(*old(self), *final(self), action, events@),
    {
        let ghost pre = self.world@;
        let ghost rules = self.rules;
        let call = resolve_action(&self.world, action);
        let ghost the_call = call;
        let mut events = match call {
            HookCall::Look => {
                let e = self.rules.on_look(&mut self.world);
                assert(hook_answers(&rules, the_call, pre, self.world@, e@));
                e
            },
            HookCall::Go(target) => {
                let e = self.rules.on_go(&mut self.world, target);
                assert(hook_answers(&rules, the_call, pre, self.world@, e@));
                e
            },
            HookCall::Examine { name, resolution } => {
                let e = self.rules.on_examine(&mut self.world, name.as_str(), resolution);
                assert(hook_answers(&rules, the_call, pre, self.world@, e@));
                e
            },
            HookCall::Take { name, resolution } => {
                let e = self.rules.on_take(&mut self.world, name.as_str(), resolution);
                assert(hook_answers(&rules, the_call, pre, self.world@, e@));
                e
            },
            HookCall::Drop { name, resolution } => {
                let e = self.rules.on_drop(&mut self.world, name.as_str(), resolution);
                assert(hook_answers(&rules, the_call, pre, self.world@, e@));
                e
            },
            HookCall::Use { item, target, item_resolution, target_resolution } => {
                let target_text = match &target {
                    Some(t) => Some(t.as_str()),
                    None => None,
                };
                let e = self.rules.on_use(
                    &mut self.world,
                    item.as_str(),
                    target_text,
                    item_resolution,
                    target_resolution,
                );
                assert(hook_answers(&rules, the_call, pre, self.world@, e@));
                e
            },
            HookCall::Talk { name, npc } => {
                let e = self.rules.on_talk(&mut self.world, name.as_str(), npc);
                assert(hook_answers(&rules, the_call, pre, self.world@, e@));
                e
            },
            HookCall::Choose(choice) => {
                let e = self.rules.on_choose(&mut self.world, choice.as_str());
                assert(hook_answers(&rules, the_call, pre, self.world@, e@));
                e
            },
            HookCall::Unknown(phrase) => {
                let e = self.rules.on_unknown(&mut self.world, phrase);
                assert(hook_answers(&rules, the_call, pre, self.world@, e@));
                e
            },
        };
        let ghost hook_events = events@;
        let ghost mid = self.world@;
        assert(hook_answers(&rules, the_call, pre, mid, hook_events));
        let mut fired = check_triggers(&mut self.world);
        let ghost trigger_events = fired@;
        events.append(&mut fired);
        assert(fire_all_post(ready_triggers(mid), mid, self.world@, trigger_events));
        assert(events@ =~= hook_events + trigger_events);
        assert(trigger_events =~= events@.subrange(hook_events.len() as int, events@.len() as int));
        assert(hook_call_for(old(self).world_view(), action, the_call));
        assert(old(self).rules_answer(the_call, old(self).world_view(), mid, hook_events));
        events
    }

    /// Which interactions are currently live for a query naming `item` and
    /// `target` (no verb), without executing any: the compiled authored
    /// ones, then those of the rules, then the talk hotspots.
    pub fn interactions_for(&self, item: Option<ObjectId>, target: Option<Target>) -> (live: Vec<
        &Interaction,
    >)
        requires
            self.wf(),
        ensures
            live_for(*self, ActionContext { verb: None, item, target }, live@.map_values(
                |r: &Interaction| *r,
            )),
    {
        let context = ActionContext::new(None, item, target);
        let mut live: Vec<&Interaction> = Vec::new();
        let k1 = collect_live(self.data_interactions.as_slice(), &self.world, &context, &mut live);
        let custom = self.rules.interactions();
        let k2 = collect_live(custom, &self.world, &context, &mut live);
        let k3 = collect_live(self.talk_targets.as_slice(), &self.world, &context, &mut live);
        proof {
            let a = self.data_interactions@;
            let b = custom@;
            let c = self.talk_targets@;
            lemma_select_concat(a, k1@, b, k2@);
            lemma_select_concat(a + b, k1@ + k2@, c, k3@);
            assert(live@.map_values(|r: &Interaction| *r) =~= select(a + b + c, k1@ + k2@ + k3@));
            let all = a + b + c;
            let keep = k1@ + k2@ + k3@;
            assert forall|i: int| 0 <= i < all.len() implies matches_result(
                (#[trigger] all[i])@,
                self.world@,
                context,
                keep[i],
            ) by {
                if i < a.len() {
                    assert(all[i] == a[i] && keep[i] == k1@[i]);
                } else if i < a.len() + b.len() {
                    assert(all[i] == b[i - a.len()] && keep[i] == k2@[i - a.len()]);
                } else {
                    assert(all[i] == c[i - a.len() - b.len()] && keep[i] == k3@[i - a.len() - b.len()]);
                }
            }
            assert(answers(all, keep, self.world@, context));
            assert(context == (ActionContext { verb: None, item, target }));
            assert(all == self.compiled() + b + self.talk_hotspots());
            assert(answers(self.compiled() + b + self.talk_hotspots(), keep, self.world_view(), context));
            assert(self.rules_list(b));
        }
        live
    }

    /// The game's progress (not the authored content), to be kept and
    /// restored later with [`GameEngine::load`].
    pub fn save(&self) -> (snapshot: WorldSnapshot)
        requires
            self.wf(),
        ensures
            is_snapshot_of(self.world_view(), snapshot),
    {
        self.world.snapshot()
    }

    /// Open the engine on the world defined by `data` with the game's rules,
    /// exactly as [`GameEngine::get_with_rules`] does, then restore the
    /// progress `snapshot` captured on top of it. Authored content always
    /// comes from `data`; an id of the snapshot that `data` no longer has
    /// is skipped.
    pub fn load(data: &WorldData, rules: R, snapshot: WorldSnapshot) -> (engine: Self)
        requires
            data.rooms@.len() > 0,
        ensures
            engine.wf(),
            engine.rules_of() == rules,
            exists|fresh: GameEngine<R>|
                #[trigger] started_from(*data, fresh) && restore_post(
                    fresh.world_view(),
                    engine.world_view(),
                    snapshot,
                ) && engine.compiled() == fresh.compiled() && engine.talk_hotspots()
                    == fresh.talk_hotspots(),
    {
        let mut engine = Self::get_with_rules(data, rules);
        let ghost fresh = engine;
        engine.world.apply_snapshot(snapshot);
        assert(started_from(*data, fresh));
        engine
    }

    /// Every verb currently applicable to `target`, for a point-and-click
    /// front-end's verb coin: the verbs of the live item-agnostic
    /// interactions for it, given to the rules, which have the final say.
    pub fn verbs_for(&self, target: Target) -> (verbs: Vec<Verb>)
        requires
            self.wf(),
        ensures
            verbs@.no_duplicates(),
            exists|live: Seq<Interaction>, interaction_verbs: Seq<Verb>|
                #![trigger live_for(*self, ActionContext { verb: None, item: None, target: Some(target) }, live), self.rules_offer(target, interaction_verbs, verbs@)]
                live_for(*self, ActionContext { verb: None, item: None, target: Some(target) }, live)
                    && distinct_verbs(live, interaction_verbs) && self.rules_offer(target, interaction_verbs, verbs@),
    {
        let live = self.interactions_for(None, Some(target.clone()));
        let interaction_verbs = verbs_of(&live);
        let ghost live_seq = live@.map_values(|r: &Interaction| *r);
        assert forall|v: Verb| interaction_verbs@.contains(v) <==> exists|i: int|
            0 <= i < live_seq.len() && (#[trigger] live_seq[i])@.verb == v by {
            if interaction_verbs@.contains(v) {
                let i = choose|i: int| 0 <= i < live@.len() && (#[trigger] live@[i])@.verb == v;
                assert(live_seq[i] == *live@[i]);
            }
            if exists|i: int| 0 <= i < live_seq.len() && (#[trigger] live_seq[i])@.verb == v {
                let i = choose|i: int| 0 <= i < live_seq.len() && (#[trigger] live_seq[i])@.verb == v;
                assert(live_seq[i] == *live@[i]);
            }
        }
        let verbs = self.rules.verbs_for(target, &interaction_verbs, &self.world);
        assert(self.rules_offer(target, interaction_verbs@, verbs@));
        assert(distinct_verbs(live_seq, interaction_verbs@));
        verbs
    }
}

impl GameEngine<BasicRules> {
    /// Open the engine on the world defined by `data`, with the stock
    /// [`BasicRules`]. The world must define at least one room.
    pub fn get(data: &WorldData) -> (engine: Self)
        requires
            data.rooms@.len() > 0,
        ensures
            engine.wf(),
            started_from(*data, engine),
            engine.rules_of() == BasicRules,
    {
        Self::get_with_rules(data, BasicRules)
    }
}

/// The talk hotspot for the NPC `npc`.
pub open spec fn is_talk_hotspot(i: InteractionView, npc: NpcId) -> bool {
    &&& i.verb == Verb::Talk
    &&& i.item is None
    &&& i.target == TargetFilter::Any
    &&& i.guard == GuardView::TalkTo(npc)
    &&& i.effects == Some(Seq::<crate::data::interactions_data::DataEffect>::empty())
    &&& i.npc == Some(npc)
}

/// `engine` is fresh from `data`: its world built from the data, its
/// compiled interactions those of the data in order, and one talk hotspot
/// per NPC in order.
pub open spec fn started_from<R: Rules>(data: WorldData, engine: GameEngine<R>) -> bool {
    &&& world_from_data(data, engine.world_view())
    &&& engine.compiled().len() == data.interactions@.len()
    &&& forall|k: int|
        0 <= k < data.interactions@.len() ==> compiled_from(
            data.interactions@[k],
            (#[trigger] engine.compiled()[k])@,
        )
    &&& engine.talk_hotspots().len() == engine.world_view().npcs.len()
    &&& forall|k: int|
        0 <= k < engine.world_view().npcs.len() ==> is_talk_hotspot(
            (#[trigger] engine.talk_hotspots()[k])@,
            engine.world_view().npcs[k].id,
        )
}

/// What one turn does: some rule hook takes the world to a well-formed
/// `mid`, reporting `hook_events`; then the triggers ready in `mid` fire,
/// reporting theirs after. The compiled interactions and hotspots stay.
pub open spec fn turn_post<R: Rules>(pre: GameEngine<R>, post: GameEngine<R>, action: Action, events: Seq<Event>) -> bool {
    &&& post.compiled() == pre.compiled()
    &&& post.talk_hotspots() == pre.talk_hotspots()
    &&& exists|call: HookCall, mid: WorldView, hook_events: Seq<Event>, trigger_events: Seq<Event>|
        #![trigger hook_call_for(pre.world_view(), action, call), fire_all_post(ready_triggers(mid), mid, post.world_view(), trigger_events), pre.rules_answer(call, pre.world_view(), mid, hook_events)]
        hook_call_for(pre.world_view(), action, call) && pre.rules_answer(call, pre.world_view(), mid, hook_events) && mid.wf() && fire_all_post(ready_triggers(mid), mid, post.world_view(), trigger_events) && events
            == hook_events + trigger_events
}

/// `post` still records, in the same places, every trigger that `pre`
/// records as fired.
pub open spec fn fired_kept(pre: WorldView, post: WorldView) -> bool {
    &&& pre.fired.len() <= post.fired.len()
    &&& forall|i: int| 0 <= i < pre.fired.len() ==> post.fired[i] == #[trigger] pre.fired[i]
}

/// The rules of `engine` never forget that a trigger fired: whatever hook
/// they answer keeps the fired records.
pub open spec fn keeps_fired_records<R: Rules>(engine: GameEngine<R>) -> bool {
    forall|call: HookCall, pre: WorldView, post: WorldView, events: Seq<Event>|
        #[trigger] engine.rules_answer(call, pre, post, events) ==> fired_kept(pre, post)
}

/// The stock rules never touch the record of fired triggers: whatever
/// hook they answer leaves it as it was.
pub proof fn law_stock_rules_keep_fired(call: HookCall, pre: WorldView, post: WorldView, events: Seq<Event>)
    requires
        hook_answers(&BasicRules, call, pre, post, events),
    ensures
        post.fired == pre.fired,
{
    match call {
        HookCall::Examine { name, resolution } => {
            if resolution is Found {
                lemma_acted_keeps_fired(pre, post, examine_context(resolution->Found_0), events);
            }
        },
        HookCall::Drop { name, resolution } => {
            if resolution is Found {
                lemma_acted_keeps_fired(pre, post, drop_context(resolution->Found_0), events);
            }
        },
        HookCall::Use { item, target, item_resolution, target_resolution } => {
            if item_resolution is Found {
                lemma_acted_keeps_fired(
                    pre,
                    post,
                    use_context(item_resolution->Found_0, target_resolution),
                    events,
                );
            }
        },
        HookCall::Choose(choice) => {
            lemma_choose_keeps_fired(pre, post, choice@, events);
        },
        _ => {},
    }
}

proof fn lemma_acted_keeps_fired(pre: WorldView, post: WorldView, context: ActionContext, events: Seq<Event>)
    ensures
        taken_over(Seq::empty(), pre, post, context, events) ==> post.fired == pre.fired,
{
    let k = first_index(pre.data_interactions, data_matches(pre, context));
    if k >= 0 && taken_over(Seq::empty(), pre, post, context, events) {
        crate::trigger::lemma_effects_keep_fired(pre.data_interactions[k].effect@, pre, post, events);
    }
}

proof fn lemma_choose_keeps_fired(pre: WorldView, post: WorldView, choice: Seq<char>, events: Seq<Event>)
    requires
        choose_spec(pre, post, choice, events),
    ensures
        post.fired == pre.fired,
{
    if let Some(npc_id) = pre.active_npc {
        if let Some(current) = pre.dialogue_node(npc_id@) {
            let k = npc_position(pre, npc_id@);
            if k >= 0 {
                let npc = pre.npcs[k];
                if let Some(node) = npc.dialogue.node(current@) {
                    let c = choice_index(node.choices@, choice);
                    if c >= 0 {
                        let chosen = node.choices@[c];
                        let (mid, effect_events) = choose|mid: WorldView, effect_events: Seq<Event>|
                            #[trigger] apply_all_post(chosen.effect@, pre, mid, effect_events)
                                && after_choice(npc, npc_id, chosen, mid, post, effect_events, events);
                        crate::trigger::lemma_effects_keep_fired(chosen.effect@, pre, mid, effect_events);
                    }
                }
            }
        }
    }
}

/// Keeping the fired records of an engine whose rules are the stock ones.
pub proof fn law_stock_engine_keeps_fired_records(engine: GameEngine<BasicRules>)
    ensures
        keeps_fired_records(engine),
{
    assert forall|call: HookCall, pre: WorldView, post: WorldView, events: Seq<Event>|
        #[trigger] engine.rules_answer(call, pre, post, events) implies fired_kept(pre, post) by {
        law_stock_rules_keep_fired(call, pre, post, events);
    }
}

proof fn lemma_fired_kept(pre: WorldView, post: WorldView, id: Seq<char>)
    requires
        fired_kept(pre, post),
        has_fired(pre, id),
    ensures
        has_fired(post, id),
{
    let i = choose|i: int| 0 <= i < pre.fired.len() && #[trigger] pre.fired[i]@ == id;
    assert(post.fired[i]@ == id);
}

proof fn lemma_turn_keeps_fired<R: Rules>(pre: GameEngine<R>, post: GameEngine<R>, action: Action, events: Seq<Event>, id: Seq<char>)
    requires
        turn_post(pre, post, action, events),
        keeps_fired_records(pre),
        has_fired(pre.world_view(), id),
    ensures
        has_fired(post.world_view(), id),
{
    let (call, mid, hook_events, trigger_events) = choose|
        call: HookCall,
        mid: WorldView,
        hook_events: Seq<Event>,
        trigger_events: Seq<Event>,
    |
        #![trigger hook_call_for(pre.world_view(), action, call), fire_all_post(ready_triggers(mid), mid, post.world_view(), trigger_events), pre.rules_answer(call, pre.world_view(), mid, hook_events)]
        hook_call_for(pre.world_view(), action, call) && pre.rules_answer(call, pre.world_view(), mid, hook_events) && mid.wf() && fire_all_post(ready_triggers(mid), mid, post.world_view(), trigger_events) && events
            == hook_events + trigger_events;
    lemma_fired_kept(pre.world_view(), mid, id);
    law_triggers_fire_once(mid, post.world_view(), trigger_events);
    lemma_fired_kept(mid, post.world_view(), id);
}

/// Over any run of turns, each trigger fires at most once. In a run where
/// every turn is one [`GameEngine::execute_action`] call and the rules never
/// forget that a trigger fired, a trigger recorded as fired stays recorded
/// in every later state, and is never ready once a later turn's hook has
/// answered, so its effects never run again. (That the triggers ready after
/// a turn's hook are all recorded as fired by the end of that turn is
/// [`crate::trigger::law_triggers_fire_once`].)
pub proof fn law_triggers_fire_once_per_run<R: Rules>(
    engines: Seq<GameEngine<R>>,
    actions: Seq<Action>,
    events: Seq<Seq<Event>>,
)
    requires
        engines.len() == actions.len() + 1,
        events.len() == actions.len(),
        forall|k: int|
            0 <= k < actions.len() ==> turn_post(engines[k], engines[k + 1], actions[k], #[trigger] events[k]),
        forall|k: int| 0 <= k < actions.len() ==> keeps_fired_records(#[trigger] engines[k]),
    ensures
        forall|j: int, m: int, id: Seq<char>|
            0 <= j <= m < engines.len() && #[trigger] has_fired(engines[j].world_view(), id)
                ==> #[trigger] has_fired(engines[m].world_view(), id),
        forall|j: int, m: int, t: TriggerData, call: HookCall, mid: WorldView, ev: Seq<Event>|
            0 <= j <= m < actions.len() && #[trigger] has_fired(engines[j].world_view(), t.id@)
                && #[trigger] engines[m].rules_answer(call, engines[m].world_view(), mid, ev) ==> !is_ready(mid)(t),
{
    assert forall|j: int, m: int, id: Seq<char>|
        0 <= j <= m < engines.len() && #[trigger] has_fired(engines[j].world_view(), id)
            implies #[trigger] has_fired(engines[m].world_view(), id) by {
        lemma_run_keeps_fired(engines, actions, events, j, m, id);
    }
    assert forall|j: int, m: int, t: TriggerData, call: HookCall, mid: WorldView, ev: Seq<Event>|
        0 <= j <= m < actions.len() && #[trigger] has_fired(engines[j].world_view(), t.id@)
            && #[trigger] engines[m].rules_answer(call, engines[m].world_view(), mid, ev) implies !is_ready(mid)(t) by {
        lemma_run_keeps_fired(engines, actions, events, j, m, t.id@);
        assert(keeps_fired_records(engines[m]));
        lemma_fired_kept(engines[m].world_view(), mid, t.id@);
    }
}

/// With the stock rules (an engine opened by [`GameEngine::get`]), each
/// trigger fires at most once over any run of turns, with no premise on the
/// rules: a trigger recorded as fired stays recorded, and is never ready
/// again once a later turn's hook has answered.
pub proof fn law_stock_triggers_fire_once_per_run(
    engines: Seq<GameEngine<BasicRules>>,
    actions: Seq<Action>,
    events: Seq<Seq<Event>>,
)
    requires
        engines.len() == actions.len() + 1,
        events.len() == actions.len(),
        forall|k: int|
            0 <= k < actions.len() ==> turn_post(engines[k], engines[k + 1], actions[k], #[trigger] events[k]),
    ensures
        forall|j: int, m: int, id: Seq<char>|
            0 <= j <= m < engines.len() && #[trigger] has_fired(engines[j].world_view(), id)
                ==> #[trigger] has_fired(engines[m].world_view(), id),
        forall|j: int, m: int, t: TriggerData, call: HookCall, mid: WorldView, ev: Seq<Event>|
            0 <= j <= m < actions.len() && #[trigger] has_fired(engines[j].world_view(), t.id@)
                && #[trigger] engines[m].rules_answer(call, engines[m].world_view(), mid, ev) ==> !is_ready(mid)(t),
{
    assert forall|k: int| 0 <= k < actions.len() implies keeps_fired_records(#[trigger] engines[k]) by {
        law_stock_engine_keeps_fired_records(engines[k]);
    }
    law_triggers_fire_once_per_run(engines, actions, events);
}

proof fn lemma_run_keeps_fired<R: Rules>(
    engines: Seq<GameEngine<R>>,
    actions: Seq<Action>,
    events: Seq<Seq<Event>>,
    j: int,
    m: int,
    id: Seq<char>,
)
    requires
        engines.len() == actions.len() + 1,
        events.len() == actions.len(),
        forall|k: int|
            0 <= k < actions.len() ==> turn_post(engines[k], engines[k + 1], actions[k], #[trigger] events[k]),
        forall|k: int| 0 <= k < actions.len() ==> keeps_fired_records(#[trigger] engines[k]),
        0 <= j <= m < engines.len(),
        has_fired(engines[j].world_view(), id),
    ensures
        has_fired(engines[m].world_view(), id),
    decreases m - j,
{
    if j < m {
        assert(turn_post(engines[j], engines[j + 1], actions[j], events[j]));
        assert(keeps_fired_records(engines[j]));
        lemma_turn_keeps_fired(engines[j], engines[j + 1], actions[j], events[j], id);
        lemma_run_keeps_fired(engines, actions, events, j + 1, m, id);
    }
}

/// What `rules` promise of the interactions they report.
pub open spec fn rules_lists<R: Rules + ?Sized>(rules: &R, interactions: Seq<Interaction>) -> bool {
    rules.lists(interactions)
}

/// What `rules` promise of the verbs they offer for `target`.
pub open spec fn rules_offers<R: Rules + ?Sized>(
    rules: &R,
    target: Target,
    interaction_verbs: Seq<Verb>,
    world: WorldView,
    verbs: Seq<Verb>,
) -> bool {
    rules.offers(target, interaction_verbs, world, verbs)
}

/// The distinct verbs of `live`, in some order.
pub open spec fn distinct_verbs(live: Seq<Interaction>, verbs: Seq<Verb>) -> bool {
    &&& verbs.no_duplicates()
    &&& forall|v: Verb| verbs.contains(v) <==> exists|i: int| 0 <= i < live.len() && (#[trigger] live[i])@.verb == v
}

/// What the rules promise of the hook `call` reaches, taking `pre` to `post`
/// with `events`.
pub open spec fn hook_answers<R: Rules + ?Sized>(rules: &R, call: HookCall, pre: WorldView, post: WorldView, events: Seq<Event>) -> bool {
    match call {
        HookCall::Look => rules.looks(pre, post, events),
        HookCall::Go(target) => rules.goes(pre, post, target, events),
        HookCall::Examine { name, resolution } => rules.examines(pre, post, name@, resolution, events),
        HookCall::Take { name, resolution } => rules.takes(pre, post, name@, resolution, events),
        HookCall::Drop { name, resolution } => rules.drops(pre, post, name@, resolution, events),
        HookCall::Use { item, target, item_resolution, target_resolution } => rules.uses(
            pre,
            post,
            item@,
            match target {
                Some(t) => Some(t@),
                None => None,
            },
            item_resolution,
            target_resolution,
            events,
        ),
        HookCall::Talk { name, npc } => rules.talks(pre, post, name@, npc, events),
        HookCall::Choose(choice) => rules.chooses(pre, post, choice@, events),
        HookCall::Unknown(phrase) => rules.answers_unknown(pre, post, phrase@, events),
    }
}

/// `live` is what the query API answers for `context`: the compiled
/// interactions, then the interactions the rules report, then the talk
/// hotspots, each kept when it matched.
pub open spec fn live_for<R: Rules>(engine: GameEngine<R>, context: ActionContext, live: Seq<Interaction>) -> bool {
    exists|custom: Seq<Interaction>, keep: Seq<bool>|
        #[trigger] answers(
            engine.compiled() + custom + engine.talk_hotspots(),
            keep,
            engine.world_view(),
            context,
        ) && engine.rules_list(custom) && live == select(engine.compiled() + custom + engine.talk_hotspots(), keep)
}

/// What every chosen interaction satisfies, every selected one does.
proof fn lemma_select_keeps(all: Seq<Interaction>, keep: Seq<bool>, p: spec_fn(Interaction) -> bool)
    requires
        keep.len() == all.len(),
        forall|i: int| 0 <= i < all.len() && #[trigger] keep[i] ==> p(all[i]),
    ensures
        forall|k: int| 0 <= k < select(all, keep).len() ==> p(#[trigger] select(all, keep)[k]),
    decreases all.len(),
{
    if all.len() > 0 {
        let front = all.drop_last();
        let kf = keep.drop_last();
        assert forall|i: int| 0 <= i < front.len() && #[trigger] kf[i] implies p(front[i]) by {
            assert(kf[i] == keep[i] && front[i] == all[i]);
        }
        lemma_select_keeps(front, kf, p);
        let last = all.len() - 1;
        assert(keep.last() == keep[last] && all.last() == all[last]);
        let s1 = select(front, kf);
        let tail = if keep.last() {
            seq![all.last()]
        } else {
            Seq::<Interaction>::empty()
        };
        assert(select(all, keep) == s1 + tail);
        assert forall|k: int| 0 <= k < select(all, keep).len() implies p(#[trigger] select(all, keep)[k]) by {
            if k < s1.len() {
                assert(select(all, keep)[k] == s1[k]);
            } else {
                assert(select(all, keep)[k] == all.last());
            }
        }
    }
}

/// An interaction that needs no item.
pub open spec fn item_free() -> spec_fn(Interaction) -> bool {
    |i: Interaction| i@.item is None
}

/// An interaction gated on a carried item never answers a query that names
/// no item, so the verb coin of a target never depends on what the player
/// carries through such an interaction.
pub proof fn law_item_gated_interactions_stay_off_the_coin<R: Rules>(engine: GameEngine<R>, target: Option<Target>, live: Seq<Interaction>)
    requires
        live_for(engine, ActionContext { verb: None, item: None, target }, live),
    ensures
        forall|k: int| 0 <= k < live.len() ==> (#[trigger] live[k])@.item is None,
{
    let context = ActionContext { verb: None, item: None, target };
    let (custom, keep) = choose|custom: Seq<Interaction>, keep: Seq<bool>|
        #[trigger] answers(engine.compiled() + custom + engine.talk_hotspots(), keep, engine.world_view(), context)
            && live == select(engine.compiled() + custom + engine.talk_hotspots(), keep);
    let all = engine.compiled() + custom + engine.talk_hotspots();
    assert forall|i: int| 0 <= i < all.len() && #[trigger] keep[i] implies item_free()(all[i]) by {
        assert(matches_result(all[i]@, engine.world_view(), context, keep[i]));
    }
    lemma_select_keeps(all, keep, item_free());
    assert forall|k: int| 0 <= k < live.len() implies (#[trigger] live[k])@.item is None by {
        assert(item_free()(select(all, keep)[k]));
    }
}

} // verus!
