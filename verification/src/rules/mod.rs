//! The stock game rules: what each player action does when no authored
//! interaction takes it over, and the hooks through which a game's own rules
//! change that.
use vstd::prelude::*;

use crate::event::Event;
use crate::input::action::{GoTarget, Outcome};
use crate::input::direction::Direction;
use crate::interaction::action_context::ActionContext;
use crate::interaction::data_interactions::{apply_all_post, data_matches, dispatch_data};
use crate::interaction::target::Target;
use crate::interaction::interaction::{matches_result, Interaction, InteractionView};
use crate::interaction::data_interactions::is_scene_spec;
use crate::interaction::target::TargetResolution;
use crate::interaction::verb::Verb;
use crate::data::interactions_data::{clone_effects, DataEffect};
use crate::event::{dialogue_ended_spec, talked_spec};
use crate::keys::{DialogueNodeId, NpcId, ObjectId, Resolution};
use crate::text::{lemma_first_index, lemma_first_index_prefix};
use crate::world::npc::{choice_index, DialogueChoice as NpcDialogueChoice, Npc};
use crate::world::object::{find_by_id_spec, ObjectResolution};
use crate::world::{drop_post, take_post};
use crate::text::first_index;
use crate::world::object::{contains_id, Object};
use crate::world::{room_index, WorldState, WorldView};

verus! {

/// The interactions before position `j` all declined `context`.
pub open spec fn declined_before(
    interactions: Seq<Interaction>,
    w: WorldView,
    context: ActionContext,
    j: int,
) -> bool {
    forall|m: int| 0 <= m < j ==> matches_result(#[trigger] interactions[m]@, w, context, false)
}

/// `events` and `post` come from running the interaction `i` on `pre`: the
/// world stays well formed, and authored effects run as authored.
pub open spec fn ran(i: InteractionView, pre: WorldView, post: WorldView, events: Seq<Event>) -> bool {
    &&& post.wf()
    &&& i.effects matches Some(effects) ==> apply_all_post(effects, pre, post, events)
}

/// `context` was taken over by an interaction: the first authored
/// interaction of the world that matches it, or else the first of
/// `interactions` that accepted it (all before it having declined).
pub open spec fn taken_over(
    interactions: Seq<Interaction>,
    pre: WorldView,
    post: WorldView,
    context: ActionContext,
    events: Seq<Event>,
) -> bool {
    let k = first_index(pre.data_interactions, data_matches(pre, context));
    if k >= 0 {
        apply_all_post(pre.data_interactions[k].effect@, pre, post, events)
    } else {
        exists|j: int|
            0 <= j < interactions.len() && declined_before(interactions, pre, context, j)
                && matches_result(#[trigger] interactions[j]@, pre, context, true) && ran(
                interactions[j]@,
                pre,
                post,
                events,
            )
    }
}

/// No authored interaction of the world matches `context`, and every one of
/// `interactions` declined it.
pub open spec fn all_declined(interactions: Seq<Interaction>, w: WorldView, context: ActionContext) -> bool {
    &&& first_index(w.data_interactions, data_matches(w, context)) < 0
    &&& declined_before(interactions, w, context, interactions.len() as int)
}

/// Let the world's authored interactions, then `interactions`, take over
/// `context`: run the first that matches and return its events, or `None`
/// (changing nothing) when none does.
pub fn dispatch_interactions(
    interactions: &[Interaction],
    world: &mut WorldState,
    context: &ActionContext,
) -> (events: Option<Vec<Event>>)
    requires
        old(world).wf(),
    ensures
        final(world).wf(),
        match events {
            Some(evs) => taken_over(interactions@, old(world)@, final(world)@, *context, evs@),
            None => all_declined(interactions@, old(world)@, *context) && final(world)@ == old(
                world,
            )@,
        },
{
    match dispatch_data(world, context) {
        Some(events) => return Some(events),
        None => {},
    }
    let mut i: usize = 0;
    while i < interactions.len()
        invariant
            world.wf(),
            world@ == old(world)@,
            i <= interactions@.len(),
            first_index(world@.data_interactions, data_matches(world@, *context)) < 0,
            declined_before(interactions@, world@, *context, i as int),
        decreases interactions@.len() - i,
    {
        if interactions[i].matches(world, context) {
            let events = interactions[i].run(world, context);
            assert(ran(interactions@[i as int]@, old(world)@, world@, events@));
            return Some(events);
        }
        i = i + 1;
    }
    None
}

/// `events` is the single event `e`.
pub open spec fn single(events: Seq<Event>, e: Event) -> bool {
    events.len() == 1 && events[0] == e
}

/// What entering the door object `id` (called `name`) does: refused when it
/// is not a door in scope, blocked when locked, and otherwise a move to the
/// room behind it.
pub open spec fn enter_post(pre: WorldView, post: WorldView, id: ObjectId, name: Seq<char>, events: Seq<Event>) -> bool {
    match pre.any_object(id@) {
        Some(o) if o.door is Some => {
            let door = o.door->0;
            if door.locked {
                &&& post == pre
                &&& events.len() == 1
                &&& (events[0] matches Event::EnteredExitLocked { object_id, object } && object_id
                    == id && object@ == name)
            } else if room_index(pre.rooms, door.to@) >= 0 {
                &&& post == (WorldView {
                    current: room_index(pre.rooms, door.to@),
                    dialogue: Seq::empty(),
                    active_npc: None,
                    ..pre
                })
                &&& events.len() == 1
                &&& (events[0] matches Event::Entered { object_id, object } && object_id == id
                    && object@ == name)
            } else {
                &&& post == pre
                &&& events.len() == 1
                &&& (events[0] matches Event::EnteredTargetNotFound { target } && target@ == name)
            }
        },
        _ => {
            &&& post == pre
            &&& events.len() == 1
            &&& (events[0] matches Event::CantEnter { target } && target@ == name)
        },
    }
}

/// Move the player through the door object `id`, a target already known to
/// be present: refused when it is no door, blocked when locked, entered
/// otherwise.
pub fn enter_door(world: &mut WorldState, id: ObjectId, name: String) -> (events: Vec<Event>)
    requires
        old(world).wf(),
    ensures
        final(world).wf(),
        enter_post(old(world)@, final(world)@, id, name@, events@),
{
    let (locked, to) = match world.any_object(&id) {
        Some(object) => match &object.door {
            Some(door) => (door.locked, door.to.clone()),
            None => return vec![Event::CantEnter { target: name }],
        },
        None => return vec![Event::CantEnter { target: name }],
    };
    if locked {
        vec![Event::EnteredExitLocked { object_id: id, object: name }]
    } else {
        match world.move_to_room(to) {
            Outcome::Success => vec![Event::Entered { object_id: id, object: name }],
            Outcome::Fail => vec![Event::EnteredTargetNotFound { target: name }],
        }
    }
}

/// What looking around does: nothing but report it.
pub fn default_look(world: &mut WorldState) -> (events: Vec<Event>)
    ensures
        final(world)@ == old(world)@,
        single(events@, Event::Looked),
{
    vec![Event::Looked]
}

/// What an unrecognised command does: report it, changing nothing.
pub fn default_unknown(world: &mut WorldState, phrase: String) -> (events: Vec<Event>)
    ensures
        final(world)@ == old(world)@,
        single(events@, Event::UnknownEvent { name: phrase }),
{
    vec![Event::UnknownEvent { name: phrase }]
}

/// The world `pre` with the player moved to the room at position `k`;
/// moving ends any conversation.
pub open spec fn moved_to(pre: WorldView, k: int) -> WorldView {
    WorldView { current: k, dialogue: Seq::empty(), active_npc: None, ..pre }
}

/// The name an object id is reported under: the primary name of the object
/// when it is in scope, and the key itself otherwise.
pub open spec fn display_name(w: WorldView, id: ObjectId) -> Seq<char> {
    match w.any_object(id@) {
        Some(o) => o.primary_name@,
        None => id@,
    }
}

/// What walking in `direction` does: a hidden exit and a locked exit are
/// reported as such, an open exit moves the player, and no exit at all is
/// an invalid direction.
pub open spec fn walk_post(pre: WorldView, post: WorldView, direction: Direction, events: Seq<Event>) -> bool {
    let room = pre.cur_room();
    if room.exit_hidden_spec(direction) {
        post == pre && single(events, Event::WentExitHidden(direction))
    } else if room.exit_locked_spec(direction) {
        post == pre && single(events, Event::WentExitLocked(direction))
    } else {
        match room.open_exit_spec(direction) {
            Some(to) if room_index(pre.rooms, to@) >= 0 => post == moved_to(
                pre,
                room_index(pre.rooms, to@),
            ) && single(events, Event::Went(direction)),
            _ => post == pre && single(events, Event::WentInvalidDirection(direction)),
        }
    }
}

/// What going to `target` does: a direction walks, and a name or an id is
/// resolved against everything in scope and entered when it is a door.
pub open spec fn go_post(pre: WorldView, post: WorldView, target: GoTarget, events: Seq<Event>) -> bool {
    match target {
        GoTarget::Direction(d) => walk_post(pre, post, d, events),
        GoTarget::Named(name) => exists|r: Resolution<Target>|
            #[trigger] pre.resolve_target_spec(name@, r) && match r {
                Resolution::Found(Target::Object(id)) => enter_post(pre, post, id, name@, events),
                Resolution::Found(Target::Npc(_)) => post == pre && single(
                    events,
                    Event::CantEnter { target: name },
                ),
                Resolution::Ambiguous { ids, alias } => post == pre && single(
                    events,
                    Event::EnteredTargetAmbiguous { target_ids: ids, target: alias },
                ),
                Resolution::NotFound => post == pre && single(
                    events,
                    Event::EnteredTargetNotFound { target: name },
                ),
            },
        GoTarget::Id(id) => if contains_id(pre.cur_room().visible(), id@) || pre.holds(id@) {
            enter_post(pre, post, id, display_name(pre, id), events)
        } else {
            &&& post == pre
            &&& events.len() == 1
            &&& (events[0] matches Event::EnteredTargetNotFound { target } && target@
                == display_name(pre, id))
        },
    }
}

/// The name the object `id` is reported under.
pub fn object_display_name(world: &WorldState, id: &ObjectId) -> (name: String)
    requires
        world.wf(),
    ensures
        name@ == display_name(world@, *id),
{
    match world.any_object(id) {
        Some(object) => object.primary_name.clone(),
        None => id.to_string(),
    }
}

/// What going somewhere does by default.
pub fn default_go(world: &mut WorldState, target: GoTarget) -> (events: Vec<Event>)
    requires
        old(world).wf(),
    ensures
        final(world).wf(),
        go_post(old(world)@, final(world)@, target, events@),
{
    match target {
        GoTarget::Direction(direction) => {
            if world.is_exit_hidden(direction) {
                vec![Event::WentExitHidden(direction)]
            } else if world.is_exit_locked(direction) {
                vec![Event::WentExitLocked(direction)]
            } else {
                match world.get_room_id_by_exit_direction(direction) {
                    Some(room_id) => match world.move_to_room(room_id) {
                        Outcome::Success => vec![Event::Went(direction)],
                        Outcome::Fail => vec![Event::WentInvalidDirection(direction)],
                    },
                    None => vec![Event::WentInvalidDirection(direction)],
                }
            }
        },
        GoTarget::Named(name) => {
            let resolution = world.resolve_target(name.as_str());
            match resolution {
                Resolution::Found(Target::Object(id)) => enter_door(world, id, name),
                Resolution::Found(Target::Npc(_)) => vec![Event::CantEnter { target: name }],
                Resolution::Ambiguous { ids, alias } => vec![
                    Event::EnteredTargetAmbiguous { target_ids: ids, target: alias },
                ],
                Resolution::NotFound => vec![Event::EnteredTargetNotFound { target: name }],
            }
        },
        GoTarget::Id(id) => {
            let name = object_display_name(world, &id);
            if world.target_in_scope(&id) {
                enter_door(world, id, name)
            } else {
                vec![Event::EnteredTargetNotFound { target: name }]
            }
        },
    }
}

/// An action with context `context`: taken over by an interaction, or, when
/// every interaction declined, the stock behaviour `fallback`.
pub open spec fn acted(
    interactions: Seq<Interaction>,
    pre: WorldView,
    post: WorldView,
    context: ActionContext,
    events: Seq<Event>,
    fallback: bool,
) -> bool {
    ||| taken_over(interactions, pre, post, context, events)
    ||| all_declined(interactions, pre, context) && fallback
}

/// The context of dropping `id`.
pub open spec fn drop_context(id: ObjectId) -> ActionContext {
    ActionContext { verb: Some(Verb::Drop), item: Some(id), target: None }
}

/// The context of examining `target`.
pub open spec fn examine_context(target: Target) -> ActionContext {
    ActionContext { verb: Some(Verb::Examine), item: None, target: Some(target) }
}

/// The target a use acts on: the resolved one, if the resolution found one.
pub open spec fn resolved_target(r: Resolution<Target>) -> Option<Target> {
    match r {
        Resolution::Found(t) => Some(t),
        _ => None,
    }
}

/// The context of using `item` on what `r` resolved.
pub open spec fn use_context(item: ObjectId, r: Resolution<Target>) -> ActionContext {
    ActionContext { verb: Some(Verb::Use), item: Some(item), target: resolved_target(r) }
}

/// The stock take: the visible object moves into the inventory and `Took`
/// is reported; when it is not visible, `TookObjectNotFound`.
pub open spec fn take_fallback(pre: WorldView, post: WorldView, id: ObjectId, name: Seq<char>, events: Seq<Event>) -> bool {
    if find_by_id_spec(pre.cur_room().visible(), id@) is Some {
        &&& take_post(pre, post, id@, Outcome::Success)
        &&& events.len() == 1
        &&& (events[0] matches Event::Took { object_id, object } && object_id == id && object@ == name)
    } else {
        &&& take_post(pre, post, id@, Outcome::Fail)
        &&& events.len() == 1
        &&& (events[0] matches Event::TookObjectNotFound { object } && object@ == name)
    }
}

/// The stock drop: the carried object moves into the room and `Dropped` is
/// reported; when it is not carried, `DroppedObjectNotFound`.
pub open spec fn drop_fallback(pre: WorldView, post: WorldView, id: ObjectId, name: Seq<char>, events: Seq<Event>) -> bool {
    if find_by_id_spec(pre.inventory, id@) is Some {
        &&& drop_post(pre, post, id@, Outcome::Success)
        &&& events.len() == 1
        &&& (events[0] matches Event::Dropped { object_id, object } && object_id == id && object@
            == name)
    } else {
        &&& drop_post(pre, post, id@, Outcome::Fail)
        &&& events.len() == 1
        &&& (events[0] matches Event::DroppedObjectNotFound { object } && object@ == name)
    }
}

/// What taking the object `name` (resolved as `r`) does: a scene object is
/// refused; a portable one is taken (interactions get no say); an
/// ambiguous or unknown name is reported.
pub open spec fn take_spec(
    pre: WorldView,
    post: WorldView,
    name: Seq<char>,
    r: Resolution<ObjectId>,
    events: Seq<Event>,
) -> bool {
    match r {
        Resolution::Found(id) => if is_scene_spec(pre, id@) {
            &&& post == pre
            &&& events.len() == 1
            &&& (events[0] matches Event::CantTake { object } && object@ == name)
        } else {
            take_fallback(pre, post, id, name, events)
        },
        Resolution::Ambiguous { ids, alias } => post == pre && single(
            events,
            Event::TookObjectAmbiguous { object_ids: ids, object: alias },
        ),
        Resolution::NotFound => {
            &&& post == pre
            &&& events.len() == 1
            &&& (events[0] matches Event::TookObjectNotFound { object } && object@ == name)
        },
    }
}

/// What dropping the object `name` (resolved as `r`) does: offered to the
/// interactions and otherwise dropped; an ambiguous or unknown name is
/// reported.
pub open spec fn drop_spec(
    interactions: Seq<Interaction>,
    pre: WorldView,
    post: WorldView,
    name: Seq<char>,
    r: Resolution<ObjectId>,
    events: Seq<Event>,
) -> bool {
    match r {
        Resolution::Found(id) => acted(interactions, pre, post, drop_context(id), events, drop_fallback(pre, post, id, name, events)),
        Resolution::Ambiguous { ids, alias } => post == pre && single(
            events,
            Event::DroppedObjectAmbiguous { object_ids: ids, object: alias },
        ),
        Resolution::NotFound => {
            &&& post == pre
            &&& events.len() == 1
            &&& (events[0] matches Event::DroppedObjectNotFound { object } && object@ == name)
        },
    }
}

/// What examining `name` (resolved as `r`) does: offered to the
/// interactions and otherwise reported as examined; an ambiguous or unknown
/// name is reported.
pub open spec fn examine_spec(
    interactions: Seq<Interaction>,
    pre: WorldView,
    post: WorldView,
    name: Seq<char>,
    r: Resolution<Target>,
    events: Seq<Event>,
) -> bool {
    match r {
        Resolution::Found(t) => acted(
            interactions,
            pre,
            post,
            examine_context(t),
            events,
            post == pre && events.len() == 1 && (events[0] matches Event::Examined { target, target_name }
                && target == t && target_name@ == name),
        ),
        Resolution::Ambiguous { ids, alias } => post == pre && single(
            events,
            Event::ExaminedTargetAmbiguous { target_ids: ids, target: alias },
        ),
        Resolution::NotFound => {
            &&& post == pre
            &&& events.len() == 1
            &&& (events[0] matches Event::ExaminedTargetNotFound { target } && target@ == name)
        },
    }
}

/// `text` is the typed target text, as an owned string.
pub open spec fn same_text(text: Option<String>, typed: Option<Seq<char>>) -> bool {
    match typed {
        Some(s) => text matches Some(t) && t@ == s,
        None => text is None,
    }
}

/// The stock use of the carried `item_id` (typed `item`) on what `r`
/// resolved (typed `target`): reported as used, as needing a target, or as
/// an ambiguous or unknown target.
pub open spec fn use_fallback(
    item_id: ObjectId,
    item: Seq<char>,
    target: Option<Seq<char>>,
    r: Resolution<Target>,
    events: Seq<Event>,
) -> bool {
    &&& events.len() == 1
    &&& match r {
        Resolution::Found(t) => events[0] matches Event::Used {
            object_id,
            object,
            target_id,
            target: text,
        } && object_id == item_id && object@ == item && target_id == Some(t) && same_text(text, target),
        Resolution::Ambiguous { ids, alias } => events[0] matches Event::UsedTargetAmbiguous {
            object_id,
            object,
            target_ids,
            target: text,
        } && object_id == item_id && object@ == item && target_ids == ids && text == alias,
        Resolution::NotFound => match target {
            None => events[0] matches Event::UsedTargetNeeded { object_id, object } && object_id
                == item_id && object@ == item,
            Some(typed) => events[0] matches Event::UsedTargetNotFound {
                object_id,
                object,
                target: text,
            } && object_id == item_id && object@ == item && text@ == typed,
        },
    }
}

/// What using `item` (resolved as `ri`) on `target` (resolved as `rt`)
/// does: offered to the interactions and otherwise reported; an ambiguous
/// or unknown item is reported.
pub open spec fn use_spec(
    interactions: Seq<Interaction>,
    pre: WorldView,
    post: WorldView,
    item: Seq<char>,
    target: Option<Seq<char>>,
    ri: Resolution<ObjectId>,
    rt: Resolution<Target>,
    events: Seq<Event>,
) -> bool {
    match ri {
        Resolution::Found(id) => acted(
            interactions,
            pre,
            post,
            use_context(id, rt),
            events,
            post == pre && use_fallback(id, item, target, rt, events),
        ),
        Resolution::Ambiguous { ids, alias } => post == pre && single(
            events,
            Event::UsedObjectAmbiguous { object_ids: ids, object: alias },
        ),
        Resolution::NotFound => {
            &&& post == pre
            &&& events.len() == 1
            &&& (events[0] matches Event::UsedObjectNotFound { object } && object@ == item)
        },
    }
}

/// What taking does by default: a scene object is refused with `CantTake`;
/// a portable one moves into the inventory. Authored interactions never get
/// a say here (use flows through `on_use`).
pub fn default_take(
    world: &mut WorldState,
    name: &str,
    resolution: ObjectResolution,
) -> (events: Vec<Event>)
    requires
        old(world).wf(),
    ensures
        final(world).wf(),
        take_spec(old(world)@, final(world)@, name@, resolution, events@),
{
    match resolution {
        Resolution::Found(object_id) => {
            if world.object_is_scene(&object_id) {
                return vec![Event::CantTake { object: String::from_str(name) }];
            }
            match world.player_take_object(&object_id) {
                Outcome::Success => vec![Event::Took { object_id, object: String::from_str(name) }],
                Outcome::Fail => vec![Event::TookObjectNotFound { object: String::from_str(name) }],
            }
        },
        Resolution::Ambiguous { ids, alias } => vec![
            Event::TookObjectAmbiguous { object_ids: ids, object: alias },
        ],
        Resolution::NotFound => vec![Event::TookObjectNotFound { object: String::from_str(name) }],
    }
}

/// What dropping does by default.
pub fn default_drop(
    interactions: &[Interaction],
    world: &mut WorldState,
    name: &str,
    resolution: ObjectResolution,
) -> (events: Vec<Event>)
    requires
        old(world).wf(),
    ensures
        final(world).wf(),
        drop_spec(interactions@, old(world)@, final(world)@, name@, resolution, events@),
{
    match resolution {
        Resolution::Found(object_id) => {
            let context = ActionContext::new(Some(Verb::Drop), Some(object_id.clone()), None);
            match dispatch_interactions(interactions, world, &context) {
                Some(events) => events,
                None => match world.player_drop_object(&object_id) {
                    Outcome::Success => vec![
                        Event::Dropped { object_id, object: String::from_str(name) },
                    ],
                    Outcome::Fail => vec![
                        Event::DroppedObjectNotFound { object: String::from_str(name) },
                    ],
                },
            }
        },
        Resolution::Ambiguous { ids, alias } => vec![
            Event::DroppedObjectAmbiguous { object_ids: ids, object: alias },
        ],
        Resolution::NotFound => vec![Event::DroppedObjectNotFound { object: String::from_str(name) }],
    }
}

/// What examining does by default: any object in scope, carried or in the
/// room (doors included), or an NPC, can be examined.
pub fn default_examine(
    interactions: &[Interaction],
    world: &mut WorldState,
    name: &str,
    resolution: TargetResolution,
) -> (events: Vec<Event>)
    requires
        old(world).wf(),
    ensures
        final(world).wf(),
        examine_spec(interactions@, old(world)@, final(world)@, name@, resolution, events@),
{
    match resolution {
        Resolution::Found(target) => {
            let context = ActionContext::new(Some(Verb::Examine), None, Some(target.clone()));
            match dispatch_interactions(interactions, world, &context) {
                Some(events) => events,
                None => vec![Event::Examined { target, target_name: String::from_str(name) }],
            }
        },
        Resolution::Ambiguous { ids, alias } => vec![
            Event::ExaminedTargetAmbiguous { target_ids: ids, target: alias },
        ],
        Resolution::NotFound => vec![Event::ExaminedTargetNotFound { target: String::from_str(name) }],
    }
}

/// What using an object, optionally on a target, does by default.
pub fn default_use(
    interactions: &[Interaction],
    world: &mut WorldState,
    item: &str,
    target: Option<&str>,
    item_resolution: ObjectResolution,
    target_resolution: TargetResolution,
) -> (events: Vec<Event>)
    requires
        old(world).wf(),
    ensures
        final(world).wf(),
        use_spec(
            interactions@,
            old(world)@,
            final(world)@,
            item@,
            match target {
                Some(t) => Some(t@),
                None => None,
            },
            item_resolution,
            target_resolution,
            events@,
        ),
{
    let item_id = match item_resolution {
        Resolution::Found(id) => id,
        Resolution::Ambiguous { ids, alias } => {
            return vec![Event::UsedObjectAmbiguous { object_ids: ids, object: alias }];
        },
        Resolution::NotFound => {
            return vec![Event::UsedObjectNotFound { object: String::from_str(item) }];
        },
    };
    let target_id = match &target_resolution {
        Resolution::Found(t) => Some(t.clone()),
        _ => None,
    };
    let context = ActionContext::new(Some(Verb::Use), Some(item_id.clone()), target_id);
    match dispatch_interactions(interactions, world, &context) {
        Some(events) => return events,
        None => {},
    }
    let target_text = match target {
        Some(t) => Some(String::from_str(t)),
        None => None,
    };
    match target_resolution {
        Resolution::Found(t) => vec![
            Event::Used {
                object_id: item_id,
                object: String::from_str(item),
                target_id: Some(t),
                target: target_text,
            },
        ],
        Resolution::Ambiguous { ids, alias } => vec![
            Event::UsedTargetAmbiguous {
                object_id: item_id,
                object: String::from_str(item),
                target_ids: ids,
                target: alias,
            },
        ],
        Resolution::NotFound => match target_text {
            None => vec![Event::UsedTargetNeeded { object_id: item_id, object: String::from_str(item) }],
            Some(text) => vec![
                Event::UsedTargetNotFound {
                    object_id: item_id,
                    object: String::from_str(item),
                    target: text,
                },
            ],
        },
    }
}

/// The NPC with key `id`.
pub open spec fn npc_id_is(id: Seq<char>) -> spec_fn(Npc) -> bool {
    |n: Npc| n.id@ == id
}

/// The position of the first NPC of `w` with key `id`, or -1.
pub open spec fn npc_position(w: WorldView, id: Seq<char>) -> int {
    first_index(w.npcs, npc_id_is(id))
}

/// `post` is `pre` with the conversation with `npc` at `node` (`None`: the
/// conversation over), and `npc` the active NPC exactly while it goes on.
pub open spec fn conversation_post(pre: WorldView, post: WorldView, npc: NpcId, node: Option<DialogueNodeId>) -> bool {
    &&& post == (WorldView {
        dialogue: post.dialogue,
        active_npc: match node {
            Some(_) => Some(npc),
            None => None,
        },
        ..pre
    })
    &&& forall|n: Seq<char>| #[trigger]
        post.dialogue_node(n) == if n == npc@ {
            node
        } else {
            pre.dialogue_node(n)
        }
}

/// `post` is `pre` with only the conversation with `npc` moved to `node`.
pub open spec fn dialogue_moved(pre: WorldView, post: WorldView, npc: NpcId, node: DialogueNodeId) -> bool {
    &&& post == (WorldView { dialogue: post.dialogue, ..pre })
    &&& forall|n: Seq<char>| #[trigger]
        post.dialogue_node(n) == if n == npc@ {
            Some(node)
        } else {
            pre.dialogue_node(n)
        }
}

/// `e` reports the end of the conversation with the NPC of key `id` and
/// primary name `name`.
pub open spec fn ended_event(e: Event, id: NpcId, name: Seq<char>) -> bool {
    e matches Event::DialogueEnded { npc_id, npc } && npc_id@ == id@ && npc@ == name
}

/// What talking to the NPC `npc_id` (typed as `name`) does: start or resume
/// the conversation at its current node (a fresh one at the root), showing
/// the node, and end it at once when the node offers no choices.
pub open spec fn talk_spec(pre: WorldView, post: WorldView, name: Seq<char>, npc_id: Option<NpcId>, events: Seq<Event>) -> bool {
    let k = match npc_id {
        Some(id) => npc_position(pre, id@),
        None => -1,
    };
    if k < 0 {
        &&& post == pre
        &&& events.len() == 1
        &&& (events[0] matches Event::TalkNpcNotFound { npc } && npc@ == name)
    } else {
        let npc = pre.npcs[k];
        let node_id = match pre.dialogue_node(npc.id@) {
            Some(n) => n,
            None => npc.root,
        };
        match npc.dialogue.node(node_id@) {
            None => post == pre && events.len() == 0,
            Some(node) => if node.choices@.len() == 0 {
                &&& events.len() == 2
                &&& talked_spec(npc, node_id, events[0])
                &&& dialogue_ended_spec(npc, events[1])
                &&& conversation_post(pre, post, npc.id, None)
            } else {
                &&& events.len() == 1
                &&& talked_spec(npc, node_id, events[0])
                &&& conversation_post(pre, post, npc.id, Some(node_id))
            },
        }
    }
}

/// The position of the first NPC with key `id`.
pub fn find_npc(world: &WorldState, id: &NpcId) -> (k: Option<usize>)
    ensures
        match k {
            Some(i) => i as int == npc_position(world@, id@) && i < world@.npcs.len() && world@.npcs[i as int].id@ == id@,
            None => npc_position(world@, id@) < 0,
        },
{
    let npcs = world.npcs();
    proof {
        lemma_first_index(npcs@, npc_id_is(id@));
    }
    let mut i: usize = 0;
    while i < npcs.len()
        invariant
            npcs@ == world@.npcs,
            i <= npcs@.len(),
            first_index(npcs@.take(i as int), npc_id_is(id@)) == -1,
        decreases npcs@.len() - i,
    {
        assert(npcs@.take(i + 1).drop_last() =~= npcs@.take(i as int));
        assert(npcs@.take(i + 1).last() == npcs@[i as int]);
        if npcs[i].id == *id {
            proof {
                lemma_first_index_prefix(npcs@, npc_id_is(id@), i + 1);
            }
            return Some(i);
        }
        i = i + 1;
    }
    assert(npcs@.take(npcs@.len() as int) =~= npcs@);
    None
}

/// What talking does by default.
pub fn default_talk(world: &mut WorldState, name: &str, npc_id: Option<NpcId>) -> (events: Vec<Event>)
    requires
        old(world).wf(),
    ensures
        final(world).wf(),
        talk_spec(old(world)@, final(world)@, name@, npc_id, events@),
{
    let k = match &npc_id {
        Some(id) => find_npc(world, id),
        None => None,
    };
    let k = match k {
        Some(k) => k,
        None => return vec![Event::TalkNpcNotFound { npc: String::from_str(name) }],
    };
    let npc = &world.npcs()[k];
    let node_id = match world.npc_dialogue_node(&npc.id) {
        Some(n) => n.clone(),
        None => npc.root.clone(),
    };
    let talk_event = match Event::talked(npc, &node_id) {
        Some(e) => e,
        None => return Vec::new(),
    };
    let ended = match npc.dialogue_node(&node_id) {
        Some(node) => node.choices.len() == 0,
        None => false,
    };
    let ended_event = Event::dialogue_ended(npc);
    let id = npc.id.clone();
    let ghost w0 = world@;
    let ghost node = node_id;
    world.set_active_npc(id.clone());
    let ghost w1 = world@;
    world.set_dialogue_node(id.clone(), node_id);
    let ghost w2 = world@;
    let mut events = vec![talk_event];
    if ended {
        events.push(ended_event);
        world.clear_dialogue(&id);
        let ghost w3 = world@;
        world.clear_active_npc();
        proof {
            assert forall|n: Seq<char>| #[trigger]
                world@.dialogue_node(n) == if n == id@ {
                    None
                } else {
                    w0.dialogue_node(n)
                } by {
                assert(w3.dialogue_node(n) == world@.dialogue_node(n));
                assert(w2.dialogue_node(n) == if n == id@ {
                    Some(node)
                } else {
                    w1.dialogue_node(n)
                });
                assert(w1.dialogue_node(n) == w0.dialogue_node(n));
            }
        }
    } else {
        proof {
            assert forall|n: Seq<char>| #[trigger]
                world@.dialogue_node(n) == if n == id@ {
                    Some(node)
                } else {
                    w0.dialogue_node(n)
                } by {
                assert(w1.dialogue_node(n) == w0.dialogue_node(n));
            }
        }
    }
    events
}

/// What choosing `choice` in the conversation with `npc` at `node` does,
/// once the chosen option's effects took the world from `pre` to `mid`,
/// reporting `effect_events`: the next node is shown, or the conversation
/// ends when there is none or it offers no choices.
pub open spec fn after_choice(
    npc: Npc,
    npc_id: NpcId,
    chosen: NpcDialogueChoice,
    mid: WorldView,
    post: WorldView,
    effect_events: Seq<Event>,
    events: Seq<Event>,
) -> bool {
    match chosen.next {
        Some(next) => match npc.dialogue.node(next@) {
            Some(node) => if node.choices@.len() == 0 {
                &&& events.len() == effect_events.len() + 2
                &&& events.take(effect_events.len() as int) == effect_events
                &&& talked_spec(npc, next, events[effect_events.len() as int])
                &&& ended_event(events[effect_events.len() as int + 1], npc_id, npc.primary_name@)
                &&& conversation_post(mid, post, npc_id, None)
            } else {
                &&& events.len() == effect_events.len() + 1
                &&& events.take(effect_events.len() as int) == effect_events
                &&& talked_spec(npc, next, events[effect_events.len() as int])
                &&& dialogue_moved(mid, post, npc_id, next)
            },
            None => events == effect_events && dialogue_moved(mid, post, npc_id, next),
        },
        None => {
            &&& events.len() == effect_events.len() + 1
            &&& events.take(effect_events.len() as int) == effect_events
            &&& ended_event(events[effect_events.len() as int], npc_id, npc.primary_name@)
            &&& conversation_post(mid, post, npc_id, None)
        },
    }
}

/// What choosing `choice` does: pick an option of the active conversation
/// by 1-based number or label (ignoring ASCII case), run its effects and
/// move on. With no active conversation it is an unknown command; with no
/// such option, an invalid choice.
pub open spec fn choose_spec(pre: WorldView, post: WorldView, choice: Seq<char>, events: Seq<Event>) -> bool {
    let unknown = post == pre && events.len() == 1 && (events[0] matches Event::UnknownEvent { name }
        && name@ == choice);
    match pre.active_npc {
        None => unknown,
        Some(npc_id) => match pre.dialogue_node(npc_id@) {
            None => unknown,
            Some(current) => {
                let k = npc_position(pre, npc_id@);
                if k < 0 {
                    unknown
                } else {
                    let npc = pre.npcs[k];
                    let invalid = post == pre && events.len() == 1 && (
                    events[0] matches Event::DialogueInvalidChoice { npc: n, choice: c }
                        && n@ == npc.primary_name@ && c@ == choice);
                    match npc.dialogue.node(current@) {
                        None => invalid,
                        Some(node) => {
                            let c = choice_index(node.choices@, choice);
                            if c < 0 {
                                invalid
                            } else {
                                let chosen = node.choices@[c];
                                exists|mid: WorldView, effect_events: Seq<Event>|
                                    #[trigger] apply_all_post(chosen.effect@, pre, mid, effect_events)
                                        && after_choice(npc, npc_id, chosen, mid, post, effect_events, events)
                            }
                        },
                    }
                }
            },
        },
    }
}

/// What choosing a dialogue option does by default.
pub fn default_choose(world: &mut WorldState, choice: &str) -> (events: Vec<Event>)
    requires
        old(world).wf(),
    ensures
        final(world).wf(),
        choose_spec(old(world)@, final(world)@, choice@, events@),
{
    let npc_id = match world.active_npc() {
        Some(id) => id.clone(),
        None => return vec![Event::UnknownEvent { name: String::from_str(choice) }],
    };
    let current = match world.npc_dialogue_node(&npc_id) {
        Some(n) => n.clone(),
        None => return vec![Event::UnknownEvent { name: String::from_str(choice) }],
    };
    let k = match find_npc(world, &npc_id) {
        Some(k) => k,
        None => return vec![Event::UnknownEvent { name: String::from_str(choice) }],
    };
    let npc = &world.npcs()[k];
    let npc_name = String::from_str(npc.primary_name());
    let chosen = match npc.dialogue_node(&current) {
        Some(node) => match node.find_choice(choice) {
            Some(c) => c,
            None => {
                return vec![
                    Event::DialogueInvalidChoice { npc: npc_name, choice: String::from_str(choice) },
                ];
            },
        },
        None => {
            return vec![
                Event::DialogueInvalidChoice { npc: npc_name, choice: String::from_str(choice) },
            ];
        },
    };
    let next = match &chosen.next {
        Some(n) => Some(n.clone()),
        None => None,
    };
    let effects = clone_effects(&chosen.effect);
    let next_event = match &next {
        Some(n) => Event::talked(npc, n),
        None => None,
    };
    let ended = match &next {
        None => true,
        Some(n) => match npc.dialogue_node(n) {
            Some(node) => node.choices.len() == 0,
            None => false,
        },
    };
    let ghost pre = world@;
    let ghost chosen_view = *chosen;
    let ghost the_npc = *npc;
    let ghost key = npc_id;
    let mut events = DataEffect::apply_all(effects.as_slice(), world);
    let ghost mid = world@;
    let ghost effect_events = events@;
    assert(apply_all_post(chosen_view.effect@, pre, mid, effect_events));
    match next {
        Some(next) => {
            match next_event {
                Some(e) => events.push(e),
                None => {},
            }
            if ended {
                events.push(Event::DialogueEnded { npc_id: npc_id.clone(), npc: npc_name });
                world.clear_dialogue(&npc_id);
                let ghost w3 = world@;
                world.clear_active_npc();
                proof {
                    assert forall|n: Seq<char>| #[trigger]
                        world@.dialogue_node(n) == if n == key@ {
                            None
                        } else {
                            mid.dialogue_node(n)
                        } by {
                        assert(w3.dialogue_node(n) == world@.dialogue_node(n));
                    }
                }
            } else {
                world.set_dialogue_node(npc_id, next);
            }
        },
        None => {
            events.push(Event::DialogueEnded { npc_id: npc_id.clone(), npc: npc_name });
            world.clear_dialogue(&npc_id);
            let ghost w3 = world@;
            world.clear_active_npc();
            proof {
                assert forall|n: Seq<char>| #[trigger]
                    world@.dialogue_node(n) == if n == key@ {
                        None
                    } else {
                        mid.dialogue_node(n)
                    } by {
                    assert(w3.dialogue_node(n) == world@.dialogue_node(n));
                }
            }
        },
    }
    assert(events@.take(effect_events.len() as int) =~= effect_events);
    assert(after_choice(the_npc, key, chosen_view, mid, world@, effect_events, events@));
    events
}

/// Add `verb` to the verb set `verbs` (kept without repeats).
pub fn insert_verb(verbs: &mut Vec<Verb>, verb: Verb)
    requires
        old(verbs)@.no_duplicates(),
    ensures
        final(verbs)@.no_duplicates(),
        final(verbs)@.to_set() == old(verbs)@.to_set().insert(verb),
{
    let mut i: usize = 0;
    while i < verbs.len()
        invariant
            verbs@ == old(verbs)@,
            verbs@.no_duplicates(),
            i <= verbs@.len(),
            forall|k: int| 0 <= k < i ==> verbs@[k] != verb,
        decreases verbs@.len() - i,
    {
        if verbs[i] == verb {
            proof {
                assert(verbs@.to_set().contains(verb));
                assert(verbs@.to_set().insert(verb) =~= verbs@.to_set());
            }
            return;
        }
        i = i + 1;
    }
    let ghost before = verbs@;
    verbs.push(verb);
    proof {
        assert(verbs@.to_set() =~= before.to_set().insert(verb)) by {
            assert forall|v: Verb| verbs@.to_set().contains(v) <==> before.to_set().insert(verb).contains(v) by {
                if v != verb && verbs@.contains(v) {
                    let k = choose|k: int| 0 <= k < verbs@.len() && verbs@[k] == v;
                    assert(before[k] == v);
                }
                if before.contains(v) {
                    let k = choose|k: int| 0 <= k < before.len() && before[k] == v;
                    assert(verbs@[k] == v);
                }
                if v == verb {
                    assert(verbs@[before.len() as int] == v);
                }
            }
        }
    }
}

/// A copy of a verb set.
pub fn copy_verbs(verbs: &Vec<Verb>) -> (copy: Vec<Verb>)
    ensures
        copy@ == verbs@,
{
    let mut copy: Vec<Verb> = Vec::new();
    let mut i: usize = 0;
    while i < verbs.len()
        invariant
            i <= verbs@.len(),
            copy@ == verbs@.take(i as int),
        decreases verbs@.len() - i,
    {
        copy.push(verbs[i]);
        assert(verbs@.take(i + 1) =~= verbs@.take(i as int).push(verbs@[i as int]));
        i = i + 1;
    }
    assert(verbs@.take(verbs@.len() as int) =~= verbs@);
    copy
}

/// Whether the object `id` is an open (unlocked) exit in scope.
pub open spec fn is_open_exit(w: WorldView, id: ObjectId) -> bool {
    w.any_object(id@) matches Some(o) && o.door matches Some(d) && !d.locked
}

/// The verbs the stock rules report for `target`, given the verbs of the
/// live item-agnostic interactions: an open exit gets `Go` alone; anything
/// else gets those verbs and `Examine`, plus `Take` for a portable object in
/// the room and `Drop` for a carried one.
pub open spec fn default_verbs_spec(target: Target, interaction_verbs: Set<Verb>, w: WorldView) -> Set<Verb> {
    match target {
        Target::Npc(_) => interaction_verbs.insert(Verb::Examine),
        Target::Object(id) => if is_open_exit(w, id) {
            set![Verb::Go]
        } else {
            let base = interaction_verbs.insert(Verb::Examine);
            let with_take = if !is_scene_spec(w, id@) && find_by_id_spec(w.cur_room().visible(), id@) is Some {
                base.insert(Verb::Take)
            } else {
                base
            };
            if w.holds(id@) {
                with_take.insert(Verb::Drop)
            } else {
                with_take
            }
        },
    }
}

/// The verbs the stock rules report for `target`.
pub fn default_verbs(target: Target, interaction_verbs: &Vec<Verb>, world: &WorldState) -> (verbs: Vec<Verb>)
    requires
        world.wf(),
        interaction_verbs@.no_duplicates(),
    ensures
        verbs@.no_duplicates(),
        verbs@.to_set() == default_verbs_spec(target, interaction_verbs@.to_set(), world@),
{
    let id = match &target {
        Target::Object(id) => id,
        Target::Npc(_) => {
            let mut verbs = copy_verbs(interaction_verbs);
            insert_verb(&mut verbs, Verb::Examine);
            return verbs;
        },
    };
    let is_open_exit = match world.object_info(id) {
        Some(info) => match info.door {
            Some(door) => !door.locked,
            None => false,
        },
        None => false,
    };
    if is_open_exit {
        let verbs = vec![Verb::Go];
        proof {
            assert(verbs@.to_set() =~= set![Verb::Go]) by {
                assert(verbs@[0] == Verb::Go);
            }
        }
        return verbs;
    }
    let mut verbs = copy_verbs(interaction_verbs);
    insert_verb(&mut verbs, Verb::Examine);
    if !world.object_is_scene(id) {
        match world.get_object_from_room(id) {
            Resolution::Found(_) => insert_verb(&mut verbs, Verb::Take),
            _ => {},
        }
    }
    if world.player_holds(id) {
        insert_verb(&mut verbs, Verb::Drop);
    }
    verbs
}

/// What the stock verb coin offers, verb by verb. An open exit offers `Go`
/// and nothing else. Any other target offers `Examine` and every verb of
/// its live interactions; an object also offers `Take` when it is a
/// portable object lying visible in the room, and `Drop` when the player
/// holds it; nothing else is offered.
pub proof fn law_default_verbs(target: Target, interaction_verbs: Set<Verb>, w: WorldView, v: Verb)
    ensures
        (target matches Target::Object(id) && is_open_exit(w, id)) ==> (default_verbs_spec(
            target,
            interaction_verbs,
            w,
        ).contains(v) <==> v == Verb::Go),
        !(target matches Target::Object(id) && is_open_exit(w, id)) ==> {
            &&& default_verbs_spec(target, interaction_verbs, w).contains(Verb::Examine)
            &&& interaction_verbs.contains(v) ==> default_verbs_spec(target, interaction_verbs, w).contains(v)
            &&& (target matches Target::Object(id) && w.holds(id@)) ==> default_verbs_spec(
                target,
                interaction_verbs,
                w,
            ).contains(Verb::Drop)
            &&& (target matches Target::Object(id) && !is_scene_spec(w, id@) && contains_id(
                w.cur_room().visible(),
                id@,
            )) ==> default_verbs_spec(target, interaction_verbs, w).contains(Verb::Take)
            &&& default_verbs_spec(target, interaction_verbs, w).contains(v) ==> {
                ||| interaction_verbs.contains(v)
                ||| v == Verb::Examine
                ||| (v == Verb::Take && (target matches Target::Object(id) && !is_scene_spec(w, id@)
                    && contains_id(w.cur_room().visible(), id@)))
                ||| (v == Verb::Drop && (target matches Target::Object(id) && w.holds(id@)))
            }
        },
{
    if let Target::Object(id) = target {
        crate::world::object::lemma_index_of_id(w.cur_room().visible(), id@);
    }
}

/// Hooks the game logic uses to decide behaviour.
///
/// The stock behaviour of every hook is a public function of this module
/// (`default_take`, `default_go`, ...), which [`BasicRules`] uses for all of
/// them; a game's own rules hand the hooks they keep to those functions and
/// write only the ones they change. Two complementary customisation
/// surfaces exist:
///
/// * per-verb behaviour: an `on_*` hook decides a whole action category;
/// * per-interaction rules: provide [`Interaction`]s via
///   [`Rules::interactions`], consulted after the world's authored
///   interactions and before the stock behaviour of take, drop, examine and
///   use.
///
/// Whatever a hook does, it leaves the world well formed, and it keeps the
/// promise its spec function (`looks`, `goes`, `takes`, ...) makes. Those
/// promise nothing unless an implementation says more; [`BasicRules`] says
/// exactly what the stock functions do, so the engine's contracts, stated
/// through them, are exact for the stock rules.
pub trait Rules {
    /// What these rules promise of the interactions they report; nothing
    /// unless an implementation says more.
    open spec fn lists(&self, interactions: Seq<Interaction>) -> bool {
        true
    }

    /// What looking does to the world `pre`, giving `post` and `events`;
    /// nothing is promised unless an implementation says more. The other
    /// spec functions below work the same way for their hooks.
    open spec fn looks(&self, pre: WorldView, post: WorldView, events: Seq<Event>) -> bool {
        true
    }

    /// What going to `target` does.
    open spec fn goes(&self, pre: WorldView, post: WorldView, target: GoTarget, events: Seq<Event>) -> bool {
        true
    }

    /// What taking `name`, resolved as `resolution`, does.
    open spec fn takes(
        &self,
        pre: WorldView,
        post: WorldView,
        name: Seq<char>,
        resolution: ObjectResolution,
        events: Seq<Event>,
    ) -> bool {
        true
    }

    /// What dropping `name`, resolved as `resolution`, does.
    open spec fn drops(
        &self,
        pre: WorldView,
        post: WorldView,
        name: Seq<char>,
        resolution: ObjectResolution,
        events: Seq<Event>,
    ) -> bool {
        true
    }

    /// What examining `name`, resolved as `resolution`, does.
    open spec fn examines(
        &self,
        pre: WorldView,
        post: WorldView,
        name: Seq<char>,
        resolution: TargetResolution,
        events: Seq<Event>,
    ) -> bool {
        true
    }

    /// What using `item` (optionally on `target`) does.
    open spec fn uses(
        &self,
        pre: WorldView,
        post: WorldView,
        item: Seq<char>,
        target: Option<Seq<char>>,
        item_resolution: ObjectResolution,
        target_resolution: TargetResolution,
        events: Seq<Event>,
    ) -> bool {
        true
    }

    /// What talking to `name` (resolved to `npc_id`) does.
    open spec fn talks(
        &self,
        pre: WorldView,
        post: WorldView,
        name: Seq<char>,
        npc_id: Option<NpcId>,
        events: Seq<Event>,
    ) -> bool {
        true
    }

    /// What picking the dialogue option `choice` does.
    open spec fn chooses(&self, pre: WorldView, post: WorldView, choice: Seq<char>, events: Seq<Event>) -> bool {
        true
    }

    /// What an unrecognised `phrase` does.
    open spec fn answers_unknown(&self, pre: WorldView, post: WorldView, phrase: Seq<char>, events: Seq<Event>) -> bool {
        true
    }

    /// Which verbs are offered for `target`.
    open spec fn offers(&self, target: Target, interaction_verbs: Seq<Verb>, world: WorldView, verbs: Seq<Verb>) -> bool {
        true
    }

    /// Interactions of the game, consulted before the stock behaviour.
    fn interactions(&self) -> (interactions: &[Interaction])
        ensures
            self.lists(interactions@),
    ;

    /// Decide what happens when the player looks around the room.
    fn on_look(&mut self, world: &mut WorldState) -> (events: Vec<Event>)
        requires
            old(world).wf(),
        ensures
            final(world).wf(),
            old(self).looks(old(world)@, final(world)@, events@),
    ;

    /// Decide what happens when the player goes somewhere: walks in a
    /// direction, or enters a named or clicked door.
    fn on_go(&mut self, world: &mut WorldState, target: GoTarget) -> (events: Vec<Event>)
        requires
            old(world).wf(),
        ensures
            final(world).wf(),
            old(self).goes(old(world)@, final(world)@, target, events@),
    ;

    /// Decide what happens when the player tries to take an object. Only
    /// items are portable; scene objects are refused.
    fn on_take(&mut self, world: &mut WorldState, name: &str, resolution: ObjectResolution) -> (events: Vec<Event>)
        requires
            old(world).wf(),
        ensures
            final(world).wf(),
            old(self).takes(old(world)@, final(world)@, name@, resolution, events@),
    ;

    /// Decide what happens when the player tries to drop an object.
    fn on_drop(&mut self, world: &mut WorldState, name: &str, resolution: ObjectResolution) -> (events: Vec<Event>)
        requires
            old(world).wf(),
        ensures
            final(world).wf(),
            old(self).drops(old(world)@, final(world)@, name@, resolution, events@),
    ;

    /// Decide what happens when the player examines a thing.
    fn on_examine(&mut self, world: &mut WorldState, name: &str, resolution: TargetResolution) -> (events: Vec<Event>)
        requires
            old(world).wf(),
        ensures
            final(world).wf(),
            old(self).examines(old(world)@, final(world)@, name@, resolution, events@),
    ;

    /// Decide what happens when the player uses an object, optionally on a
    /// target.
    fn on_use(
        &mut self,
        world: &mut WorldState,
        item: &str,
        target: Option<&str>,
        item_resolution: ObjectResolution,
        target_resolution: TargetResolution,
    ) -> (events: Vec<Event>)
        requires
            old(world).wf(),
        ensures
            final(world).wf(),
            old(self).uses(
                old(world)@,
                final(world)@,
                item@,
                match target {
                    Some(t) => Some(t@),
                    None => None,
                },
                item_resolution,
                target_resolution,
                events@,
            ),
    ;

    /// Decide what happens when the player talks to an NPC (already
    /// resolved to `npc_id`; `name` is what a not-found event reports).
    fn on_talk(&mut self, world: &mut WorldState, name: &str, npc_id: Option<NpcId>) -> (events: Vec<Event>)
        requires
            old(world).wf(),
        ensures
            final(world).wf(),
            old(self).talks(old(world)@, final(world)@, name@, npc_id, events@),
    ;

    /// Decide what happens when the player picks a dialogue option.
    fn on_choose(&mut self, world: &mut WorldState, choice: &str) -> (events: Vec<Event>)
        requires
            old(world).wf(),
        ensures
            final(world).wf(),
            old(self).chooses(old(world)@, final(world)@, choice@, events@),
    ;

    /// Decide what happens for an unrecognised command.
    fn on_unknown(&mut self, world: &mut WorldState, phrase: String) -> (events: Vec<Event>)
        requires
            old(world).wf(),
        ensures
            final(world).wf(),
            old(self).answers_unknown(old(world)@, final(world)@, phrase@, events@),
    ;

    /// Decide the verbs reported for `target`, given the verbs of the live
    /// item-agnostic interactions. This hook has the final say.
    fn verbs_for(&self, target: Target, interaction_verbs: &Vec<Verb>, world: &WorldState) -> (verbs: Vec<Verb>)
        requires
            world.wf(),
            interaction_verbs@.no_duplicates(),
        ensures
            verbs@.no_duplicates(),
            self.offers(target, interaction_verbs@, world@, verbs@),
    ;
}

/// The stock rules: every hook does what the stock function for it does.
pub struct BasicRules;

impl Rules for BasicRules {
    open spec fn lists(&self, interactions: Seq<Interaction>) -> bool {
        interactions.len() == 0
    }

    open spec fn looks(&self, pre: WorldView, post: WorldView, events: Seq<Event>) -> bool {
        post == pre && single(events, Event::Looked)
    }

    open spec fn goes(&self, pre: WorldView, post: WorldView, target: GoTarget, events: Seq<Event>) -> bool {
        go_post(pre, post, target, events)
    }

    open spec fn takes(
        &self,
        pre: WorldView,
        post: WorldView,
        name: Seq<char>,
        resolution: ObjectResolution,
        events: Seq<Event>,
    ) -> bool {
        take_spec(pre, post, name, resolution, events)
    }

    open spec fn drops(
        &self,
        pre: WorldView,
        post: WorldView,
        name: Seq<char>,
        resolution: ObjectResolution,
        events: Seq<Event>,
    ) -> bool {
        drop_spec(Seq::empty(), pre, post, name, resolution, events)
    }

    open spec fn examines(
        &self,
        pre: WorldView,
        post: WorldView,
        name: Seq<char>,
        resolution: TargetResolution,
        events: Seq<Event>,
    ) -> bool {
        examine_spec(Seq::empty(), pre, post, name, resolution, events)
    }

    open spec fn uses(
        &self,
        pre: WorldView,
        post: WorldView,
        item: Seq<char>,
        target: Option<Seq<char>>,
        item_resolution: ObjectResolution,
        target_resolution: TargetResolution,
        events: Seq<Event>,
    ) -> bool {
        use_spec(Seq::empty(), pre, post, item, target, item_resolution, target_resolution, events)
    }

    open spec fn talks(
        &self,
        pre: WorldView,
        post: WorldView,
        name: Seq<char>,
        npc_id: Option<NpcId>,
        events: Seq<Event>,
    ) -> bool {
        talk_spec(pre, post, name, npc_id, events)
    }

    open spec fn chooses(&self, pre: WorldView, post: WorldView, choice: Seq<char>, events: Seq<Event>) -> bool {
        choose_spec(pre, post, choice, events)
    }

    open spec fn answers_unknown(&self, pre: WorldView, post: WorldView, phrase: Seq<char>, events: Seq<Event>) -> bool {
        &&& post == pre
        &&& events.len() == 1
        &&& events[0] matches Event::UnknownEvent { name } && name@ == phrase
    }

    open spec fn offers(&self, target: Target, interaction_verbs: Seq<Verb>, world: WorldView, verbs: Seq<Verb>) -> bool {
        verbs.to_set() == default_verbs_spec(target, interaction_verbs.to_set(), world)
    }

    fn interactions(&self) -> (interactions: &[Interaction]) {
        &[]
    }

    fn on_look(&mut self, world: &mut WorldState) -> (events: Vec<Event>) {
        default_look(world)
    }

    fn on_go(&mut self, world: &mut WorldState, target: GoTarget) -> (events: Vec<Event>) {
        default_go(world, target)
    }

    fn on_take(&mut self, world: &mut WorldState, name: &str, resolution: ObjectResolution) -> (events: Vec<Event>) {
        default_take(world, name, resolution)
    }

    fn on_drop(&mut self, world: &mut WorldState, name: &str, resolution: ObjectResolution) -> (events: Vec<Event>) {
        default_drop(self.interactions(), world, name, resolution)
    }

    fn on_examine(&mut self, world: &mut WorldState, name: &str, resolution: TargetResolution) -> (events: Vec<Event>) {
        default_examine(self.interactions(), world, name, resolution)
    }

    fn on_use(
        &mut self,
        world: &mut WorldState,
        item: &str,
        target: Option<&str>,
        item_resolution: ObjectResolution,
        target_resolution: TargetResolution,
    ) -> (events: Vec<Event>) {
        default_use(self.interactions(), world, item, target, item_resolution, target_resolution)
    }

    fn on_talk(&mut self, world: &mut WorldState, name: &str, npc_id: Option<NpcId>) -> (events: Vec<Event>) {
        default_talk(world, name, npc_id)
    }

    fn on_choose(&mut self, world: &mut WorldState, choice: &str) -> (events: Vec<Event>) {
        default_choose(world, choice)
    }

    fn on_unknown(&mut self, world: &mut WorldState, phrase: String) -> (events: Vec<Event>) {
        default_unknown(world, phrase)
    }

    fn verbs_for(&self, target: Target, interaction_verbs: &Vec<Verb>, world: &WorldState) -> (verbs: Vec<Verb>) {
        default_verbs(target, interaction_verbs, world)
    }
}

} // verus!
