use vstd::prelude::*;

pub mod item;
pub mod npc;
pub mod laws;
pub mod object;
pub mod player;
pub mod room;
pub mod restore;
pub mod save;

use crate::data::interactions_data::InteractionData;
use crate::data::object_data::ObjectData;
use crate::data::room_data::RoomData;
use crate::data::WorldData;
use crate::text::clone_strings;
use npc::npc_from_data_spec;
use object::from_data_spec;
use room::last_door;
use crate::data::object_data::ObjectKind;
use crate::data::trigger_data::TriggerData;
use crate::input::action::Outcome;
use crate::input::direction::{Direction, DirectionResolution};
use crate::interaction::target::{Target, TargetResolution};
use crate::keys::{DialogueNodeId, NpcId, ObjectId, Resolution, RoomId, TriggerId};
use crate::text::{first_index, keep, lemma_first_index, lemma_first_index_prefix, str_eq};
use npc::{npc_has_name, Npc};
use object::{
    contains_id, find_by_id_spec, has_name_spec, index_of_id, info_of, lemma_index_of_id,
    matching_ids, position_of, resolves_to, without_id, Object, ObjectInfo, ObjectResolution,
    collect_matching, lemma_matching_ids_concat,
};
use player::Player;
use room::{
    add_visible_post, hide_exit_post, hide_object_post, relock_post, remove_visible_post,
    reveal_exit_post, reveal_object_post, Room,
};

verus! {

/// The plain-value picture of a running game.
pub struct WorldView {
    pub flags: Seq<String>,
    pub inventory: Seq<Object>,
    pub rooms: Seq<(RoomId, Room)>,
    pub current: int,
    pub data_interactions: Seq<InteractionData>,
    pub triggers: Seq<TriggerData>,
    pub fired: Seq<TriggerId>,
    pub templates: Seq<Object>,
    pub npcs: Seq<Npc>,
    pub dialogue: Seq<(NpcId, DialogueNodeId)>,
    pub active_npc: Option<NpcId>,
}

/// A room entry has key `id`.
pub open spec fn room_key_is(id: Seq<char>) -> spec_fn((RoomId, Room)) -> bool {
    |entry: (RoomId, Room)| entry.0@ == id
}

/// A dialogue entry belongs to the NPC `id`.
pub open spec fn npc_key_is(id: Seq<char>) -> spec_fn((NpcId, DialogueNodeId)) -> bool {
    |e: (NpcId, DialogueNodeId)| e.0@ == id
}

/// A dialogue entry belongs to another NPC than `id`.
pub open spec fn npc_key_not(id: Seq<char>) -> spec_fn((NpcId, DialogueNodeId)) -> bool {
    |e: (NpcId, DialogueNodeId)| e.0@ != id
}

/// A flag is another one than `flag`.
pub open spec fn flag_not(flag: Seq<char>) -> spec_fn(String) -> bool {
    |f: String| f@ != flag
}

/// An NPC lives in the room `room`.
pub open spec fn npc_in_room(room: Seq<char>) -> spec_fn(Npc) -> bool {
    |n: Npc| n.room@ == room
}

/// An NPC lives in the room `room` and answers to `name`.
pub open spec fn npc_here_named(room: Seq<char>, name: Seq<char>) -> spec_fn(Npc) -> bool {
    |n: Npc| n.room@ == room && npc_has_name(n, name)
}

/// The position of the first room entry with key `id`, or -1.
pub open spec fn room_index(rooms: Seq<(RoomId, Room)>, id: Seq<char>) -> int {
    first_index(rooms, room_key_is(id))
}

/// The node the first dialogue entry for `npc` records, if any.
pub open spec fn dialogue_lookup(entries: Seq<(NpcId, DialogueNodeId)>, npc: Seq<char>) -> Option<
    DialogueNodeId,
> {
    let k = first_index(entries, npc_key_is(npc));
    if k >= 0 {
        Some(entries[k].1)
    } else {
        None
    }
}

/// The ids as object targets.
pub open spec fn object_targets(ids: Seq<ObjectId>) -> Seq<Target> {
    ids.map_values(|id: ObjectId| Target::Object(id))
}

impl WorldView {
    /// The current room index points at a room.
    pub open spec fn wf(self) -> bool {
        0 <= self.current < self.rooms.len()
    }

    /// The room the player is in.
    pub open spec fn cur_room(self) -> Room {
        self.rooms[self.current].1
    }

    /// The key of the room the player is in.
    pub open spec fn cur_room_id(self) -> RoomId {
        self.rooms[self.current].0
    }

    /// The same game with the current room replaced by `room`.
    pub open spec fn with_cur_room(self, room: Room) -> WorldView {
        WorldView {
            rooms: self.rooms.update(self.current, (self.rooms[self.current].0, room)),
            ..self
        }
    }

    /// The object with `id` anywhere in the player's scope: the current
    /// room's visible then hidden objects, then the inventory.
    pub open spec fn any_object(self, id: Seq<char>) -> Option<Object> {
        match self.cur_room().find_any_spec(id) {
            Some(o) => Some(o),
            None => find_by_id_spec(self.inventory, id),
        }
    }

    /// Whether the global flag `flag` is set.
    pub open spec fn has_flag(self, flag: Seq<char>) -> bool {
        exists|i: int| 0 <= i < self.flags.len() && #[trigger] self.flags[i]@ == flag
    }

    /// Whether the player carries the object with `id`.
    pub open spec fn holds(self, id: Seq<char>) -> bool {
        contains_id(self.inventory, id)
    }

    /// The NPCs that live in the room with key `room`, in world order.
    pub open spec fn npcs_in(self, room: Seq<char>) -> Seq<Npc> {
        keep(self.npcs, npc_in_room(room))
    }

    /// The position of the first NPC in the current room answering to
    /// `name`, or -1.
    pub open spec fn npc_index_by_name(self, name: Seq<char>) -> int {
        first_index(self.npcs, npc_here_named(self.cur_room_id()@, name))
    }

    /// What resolving `name` against the player's scope gives: an NPC in the
    /// current room by that name first, otherwise the visible room objects
    /// and carried objects answering to it.
    pub open spec fn resolve_target_spec(self, name: Seq<char>, r: TargetResolution) -> bool {
        let k = self.npc_index_by_name(name);
        if k >= 0 {
            r == Resolution::Found(Target::Npc(self.npcs[k].id))
        } else {
            resolves_to(
                object_targets(matching_ids(self.cur_room().visible() + self.inventory, name)),
                name,
                r,
            )
        }
    }

    /// The dialogue node the player is at with `npc`, if in conversation.
    pub open spec fn dialogue_node(self, npc: Seq<char>) -> Option<DialogueNodeId> {
        dialogue_lookup(self.dialogue, npc)
    }
}

/// The effect of a room operation on the whole game: only the current room
/// changes.
pub open spec fn room_changed(pre: WorldView, post: WorldView) -> bool {
    &&& post.wf()
    &&& post == pre.with_cur_room(post.cur_room())
}

/// The effect of taking the visible object `id` into the inventory.
pub open spec fn take_post(pre: WorldView, post: WorldView, id: Seq<char>, outcome: Outcome) -> bool {
    &&& post.wf()
    &&& match find_by_id_spec(pre.cur_room().visible(), id) {
        Some(o) => {
            &&& outcome == Outcome::Success
            &&& post == (WorldView { inventory: pre.inventory.push(o), ..pre.with_cur_room(post.cur_room()) })
            &&& remove_visible_post(pre.cur_room(), post.cur_room(), id, Some(o))
        },
        None => {
            &&& outcome == Outcome::Fail
            &&& post == pre
        },
    }
}

/// Whether granting `id` does anything: the player does not hold it and a
/// template has that id.
pub open spec fn grant_applies(pre: WorldView, id: Seq<char>) -> bool {
    !pre.holds(id) && find_by_id_spec(pre.templates, id) is Some
}

/// The effect of granting the object `id` from its template.
pub open spec fn grant_post(pre: WorldView, post: WorldView, id: Seq<char>, outcome: Outcome) -> bool {
    &&& grant_applies(pre, id) ==> {
        &&& outcome == Outcome::Success
        &&& post.inventory.len() == pre.inventory.len() + 1
        &&& post.inventory.drop_last() == pre.inventory
        &&& post.inventory.last()@ == find_by_id_spec(pre.templates, id)->0@
        &&& post == (WorldView { inventory: post.inventory, ..pre })
    }
    &&& !grant_applies(pre, id) ==> {
        &&& outcome == Outcome::Fail
        &&& post == pre
    }
}

/// The effect of dropping the carried object `id` into the current room.
pub open spec fn drop_post(pre: WorldView, post: WorldView, id: Seq<char>, outcome: Outcome) -> bool {
    &&& post.wf()
    &&& match find_by_id_spec(pre.inventory, id) {
        Some(o) => {
            &&& outcome == Outcome::Success
            &&& post == (WorldView {
                inventory: without_id(pre.inventory, id),
                ..pre.with_cur_room(post.cur_room())
            })
            &&& add_visible_post(pre.cur_room(), post.cur_room(), o)
        },
        None => {
            &&& outcome == Outcome::Fail
            &&& post == pre
        },
    }
}

/// The effect of discarding the carried object `id`.
pub open spec fn discard_post(pre: WorldView, post: WorldView, id: Seq<char>, outcome: Outcome) -> bool {
    &&& post == (WorldView { inventory: without_id(pre.inventory, id), ..pre })
    &&& outcome == if pre.holds(id) {
        Outcome::Success
    } else {
        Outcome::Fail
    }
}

/// The effect of setting the global flag `flag`.
pub open spec fn set_flag_post(pre: WorldView, post: WorldView, flag: Seq<char>) -> bool {
    &&& pre.has_flag(flag) ==> post == pre
    &&& !pre.has_flag(flag) ==> post.flags.len() == pre.flags.len() + 1 && post.flags.drop_last()
        == pre.flags && post.flags.last()@ == flag
    &&& post == (WorldView { flags: post.flags, ..pre })
}

/// The effect of clearing the global flag `flag`.
pub open spec fn clear_flag_post(pre: WorldView, post: WorldView, flag: Seq<char>) -> bool {
    post == (WorldView { flags: keep(pre.flags, flag_not(flag)), ..pre })
}

/// The mutable authority for a running game: rooms, the player's inventory,
/// global flags, and NPC dialogue state. All gameplay mutation goes through
/// its methods.
#[derive(Debug)]
pub struct WorldState {
    flags: Vec<String>,
    player: Player,
    rooms: Vec<(RoomId, Room)>,
    current: usize,
    data_interactions: Vec<InteractionData>,
    triggers: Vec<TriggerData>,
    fired_triggers: Vec<TriggerId>,
    object_templates: Vec<Object>,
    npcs: Vec<Npc>,
    dialogue_state: Vec<(NpcId, DialogueNodeId)>,
    active_npc: Option<NpcId>,
}

impl View for WorldState {
    type V = WorldView;

    closed spec fn view(&self) -> WorldView {
        WorldView {
            flags: self.flags@,
            inventory: self.player.inventory(),
            rooms: self.rooms@,
            current: self.current as int,
            data_interactions: self.data_interactions@,
            triggers: self.triggers@,
            fired: self.fired_triggers@,
            templates: self.object_templates@,
            npcs: self.npcs@,
            dialogue: self.dialogue_state@,
            active_npc: self.active_npc,
        }
    }
}

/// Navigation: location and movement within the world.
impl WorldState {
    /// The game is well formed: the player stands in a known room.
    pub open spec fn wf(&self) -> bool {
        self@.wf()
    }

    /// The id of the room the player is currently in.
    pub fn current_room_id(&self) -> (id: RoomId)
        requires
            self.wf(),
        ensures
            id == self@.cur_room_id(),
    {
        self.rooms[self.current].0.clone()
    }

    /// The room the player is currently in.
    pub fn current_room(&self) -> (room: &Room)
        requires
            self.wf(),
        ensures
            *room == self@.cur_room(),
    {
        &self.rooms[self.current].1
    }

    /// Take the current room out to change it; `put_current_room` puts it
    /// back.
    fn take_current_room(&mut self) -> (entry: (RoomId, Room))
        requires
            old(self).wf(),
        ensures
            entry == old(self)@.rooms[old(self)@.current],
            final(self)@ == (WorldView {
                rooms: old(self)@.rooms.remove(old(self)@.current),
                ..old(self)@
            }),
    {
        self.rooms.remove(self.current)
    }

    /// Put the current room back after `take_current_room`.
    fn put_current_room(&mut self, entry: (RoomId, Room))
        requires
            old(self).current <= old(self).rooms@.len(),
        ensures
            final(self)@ == (WorldView {
                rooms: old(self)@.rooms.insert(old(self)@.current, entry),
                ..old(self)@
            }),
    {
        self.rooms.insert(self.current, entry);
    }

    /// Resolve which room an open exit direction leads to from the current
    /// room. Hidden and locked exits are not traversable, so they resolve to
    /// `None` just like a direction with no exit at all.
    pub fn get_room_id_by_exit_direction(&self, direction: Direction) -> (room: Option<RoomId>)
        requires
            self.wf(),
        ensures
            room == self@.cur_room().open_exit_spec(direction),
    {
        self.current_room().get_room_id_by_exit_direction(direction)
    }

    /// Change the current room to `room_id`, if it is known to the world.
    /// Moving rooms ends any active conversation.
    pub fn move_to_room(&mut self, room_id: RoomId) -> (outcome: Outcome)
        requires
            old(self).wf(),
        ensures
            final(self).wf(),
            room_index(old(self)@.rooms, room_id@) >= 0 ==> {
                &&& outcome == Outcome::Success
                &&& final(self)@ == (WorldView {
                    current: room_index(old(self)@.rooms, room_id@),
                    dialogue: Seq::empty(),
                    active_npc: None,
                    ..old(self)@
                })
            },
            room_index(old(self)@.rooms, room_id@) < 0 ==> {
                &&& outcome == Outcome::Fail
                &&& final(self)@ == old(self)@
            },
    {
        proof {
            lemma_first_index(self.rooms@, room_key_is(room_id@));
        }
        let mut i: usize = 0;
        while i < self.rooms.len()
            invariant
                old(self)@ == self@,
                self.wf(),
                i <= self.rooms@.len(),
                first_index(self.rooms@.take(i as int), room_key_is(room_id@)) == -1,
            decreases self.rooms@.len() - i,
        {
            assert(self.rooms@.take(i + 1).drop_last() =~= self.rooms@.take(i as int));
            assert(self.rooms@.take(i + 1).last() == self.rooms@[i as int]);
            if self.rooms[i].0 == room_id {
                proof {
                    lemma_first_index_prefix(self.rooms@, room_key_is(room_id@), i + 1);
                }
                self.current = i;
                self.clear_all_dialogue();
                return Outcome::Success;
            }
            i = i + 1;
        }
        assert(self.rooms@.take(self.rooms@.len() as int) =~= self.rooms@);
        Outcome::Fail
    }

    /// Whether the exit in `direction` is locked (blocks traversal).
    pub fn is_exit_locked(&self, direction: Direction) -> (b: bool)
        requires
            self.wf(),
        ensures
            b == self@.cur_room().exit_locked_spec(direction),
    {
        self.current_room().is_exit_locked(direction)
    }

    /// Whether the exit in `direction` is hidden (not yet discovered).
    pub fn is_exit_hidden(&self, direction: Direction) -> (b: bool)
        requires
            self.wf(),
        ensures
            b == self@.cur_room().exit_hidden_spec(direction),
    {
        self.current_room().is_exit_hidden(direction)
    }

    /// Public details about the exit in `direction`, if there is one.
    pub fn exit_info(&self, direction: Direction) -> (info: Option<ObjectInfo>)
        requires
            self.wf(),
        ensures
            match self@.cur_room().door_object(direction) {
                Some(o) => info matches Some(i) && info_of(o, i),
                None => info is None,
            },
    {
        self.current_room().door_in_direction_info(direction)
    }

    /// Directions with an open (passable) exit from the current room, in the
    /// order north, south, east, west.
    pub fn exit_directions(&self) -> (directions: Vec<Direction>)
        requires
            self.wf(),
        ensures
            directions@ == self@.cur_room().exit_directions_spec(),
    {
        self.current_room().exit_directions()
    }
}

/// Room helpers.
impl WorldState {
    /// Whether the visible object `id` is in the current room.
    pub fn get_object_from_room(&self, id: &ObjectId) -> (r: ObjectResolution)
        requires
            self.wf(),
        ensures
            match find_by_id_spec(self@.cur_room().visible(), id@) {
                Some(o) => r == Resolution::Found(o.id),
                None => r is NotFound,
            },
    {
        self.current_room().get_object(id)
    }

    /// Take the visible object `id` out of the current room.
    pub fn remove_object_from_room(&mut self, id: &ObjectId) -> (removed: Option<Object>)
        requires
            old(self).wf(),
        ensures
            final(self).wf(),
            final(self)@ == old(self)@.with_cur_room(final(self)@.cur_room()),
            remove_visible_post(old(self)@.cur_room(), final(self)@.cur_room(), id@, removed),
    {
        let ghost before = self@;
        let (room_id, mut room) = self.take_current_room();
        let removed = room.remove_object(id);
        self.put_current_room((room_id, room));
        assert(self@.rooms =~= before.rooms.update(before.current, (room_id, room)));
        removed
    }

    /// Names of the objects currently visible in the current room.
    pub fn room_object_names(&self) -> (names: Vec<String>)
        requires
            self.wf(),
        ensures
            names@.len() == self@.cur_room().visible().len(),
            forall|i: int|
                0 <= i < names@.len() ==> #[trigger] names@[i] == self@.cur_room().visible()[i].primary_name,
    {
        object_names(self.current_room().objects())
    }

    /// Move the hidden object `id` of the current room to its visible list.
    pub fn reveal_object(&mut self, id: &ObjectId) -> (r: ObjectResolution)
        requires
            old(self).wf(),
        ensures
            room_changed(old(self)@, final(self)@),
            reveal_object_post(old(self)@.cur_room(), final(self)@.cur_room(), *id, r),
            final(self).wf(),
    {
        let ghost before = self@;
        let (room_id, mut room) = self.take_current_room();
        let r = room.reveal_object(id);
        self.put_current_room((room_id, room));
        assert(self@.rooms =~= before.rooms.update(before.current, (room_id, room)));
        r
    }

    /// Move the visible object `id` of the current room to its hidden list.
    pub fn hide_object(&mut self, id: &ObjectId) -> (r: ObjectResolution)
        requires
            old(self).wf(),
        ensures
            room_changed(old(self)@, final(self)@),
            hide_object_post(old(self)@.cur_room(), final(self)@.cur_room(), *id, r),
            final(self).wf(),
    {
        let ghost before = self@;
        let (room_id, mut room) = self.take_current_room();
        let r = room.hide_object(id);
        self.put_current_room((room_id, room));
        assert(self@.rooms =~= before.rooms.update(before.current, (room_id, room)));
        r
    }

    /// Unlock the exit in `direction` (no-op if there is none, or it is
    /// already unlocked).
    pub fn unlock_exit(&mut self, direction: Direction) -> (r: DirectionResolution)
        requires
            old(self).wf(),
        ensures
            room_changed(old(self)@, final(self)@),
            relock_post(old(self)@.cur_room(), final(self)@.cur_room(), direction, false, r),
            final(self).wf(),
    {
        let ghost before = self@;
        let (room_id, mut room) = self.take_current_room();
        let r = room.unlock_exit(direction);
        self.put_current_room((room_id, room));
        assert(self@.rooms =~= before.rooms.update(before.current, (room_id, room)));
        r
    }

    /// Lock the exit in `direction` (no-op if there is none, or it is
    /// already locked).
    pub fn lock_exit(&mut self, direction: Direction) -> (r: DirectionResolution)
        requires
            old(self).wf(),
        ensures
            room_changed(old(self)@, final(self)@),
            relock_post(old(self)@.cur_room(), final(self)@.cur_room(), direction, true, r),
            final(self).wf(),
    {
        let ghost before = self@;
        let (room_id, mut room) = self.take_current_room();
        let r = room.lock_exit(direction);
        self.put_current_room((room_id, room));
        assert(self@.rooms =~= before.rooms.update(before.current, (room_id, room)));
        r
    }

    /// Reveal the hidden exit in `direction` (no-op if there is none, or it
    /// is not hidden).
    pub fn reveal_exit(&mut self, direction: Direction) -> (r: DirectionResolution)
        requires
            old(self).wf(),
        ensures
            room_changed(old(self)@, final(self)@),
            reveal_exit_post(old(self)@.cur_room(), final(self)@.cur_room(), direction, r),
            final(self).wf(),
    {
        let ghost before = self@;
        let (room_id, mut room) = self.take_current_room();
        let r = room.reveal_exit(direction);
        self.put_current_room((room_id, room));
        assert(self@.rooms =~= before.rooms.update(before.current, (room_id, room)));
        r
    }

    /// Hide the exit in `direction` (no-op if there is none, or it is already
    /// hidden).
    pub fn hide_exit(&mut self, direction: Direction) -> (r: DirectionResolution)
        requires
            old(self).wf(),
        ensures
            room_changed(old(self)@, final(self)@),
            hide_exit_post(old(self)@.cur_room(), final(self)@.cur_room(), direction, r),
            final(self).wf(),
    {
        let ghost before = self@;
        let (room_id, mut room) = self.take_current_room();
        let r = room.hide_exit(direction);
        self.put_current_room((room_id, room));
        assert(self@.rooms =~= before.rooms.update(before.current, (room_id, room)));
        r
    }
}

/// The primary names of `objects`, in order.
pub fn object_names(objects: &Vec<Object>) -> (names: Vec<String>)
    ensures
        names@.len() == objects@.len(),
        forall|i: int| 0 <= i < names@.len() ==> #[trigger] names@[i] == objects@[i].primary_name,
{
    let mut names: Vec<String> = Vec::new();
    let mut i: usize = 0;
    while i < objects.len()
        invariant
            i <= objects@.len(),
            names@.len() == i,
            forall|k: int| 0 <= k < i ==> #[trigger] names@[k] == objects@[k].primary_name,
        decreases objects@.len() - i,
    {
        names.push(objects[i].primary_name.clone());
        i = i + 1;
    }
    names
}

/// Player helpers.
impl WorldState {
    /// Whether the player carries the object `id`.
    pub fn get_object_from_player(&self, id: &ObjectId) -> (r: ObjectResolution)
        ensures
            match find_by_id_spec(self@.inventory, id@) {
                Some(o) => r == Resolution::Found(o.id),
                None => r is NotFound,
            },
    {
        self.player.get_object(id)
    }

    /// Take the carried object `id` out of the inventory.
    pub fn remove_object_from_player(&mut self, id: &ObjectId) -> (removed: Option<Object>)
        ensures
            removed == find_by_id_spec(old(self)@.inventory, id@),
            final(self)@ == (WorldView {
                inventory: without_id(old(self)@.inventory, id@),
                ..old(self)@
            }),
    {
        self.player.remove_object(id)
    }

    /// Whether the player currently holds the object with `id`.
    pub fn player_holds(&self, id: &ObjectId) -> (b: bool)
        ensures
            b == self@.holds(id@),
    {
        self.player.holds(id)
    }

    /// Names of the objects currently held by the player.
    pub fn player_object_names(&self) -> (names: Vec<String>)
        ensures
            names@.len() == self@.inventory.len(),
            forall|i: int|
                0 <= i < names@.len() ==> #[trigger] names@[i] == self@.inventory[i].primary_name,
    {
        object_names(self.player.objects())
    }
}

/// Object transfer management.
impl WorldState {
    /// Move the visible object `id` from the current room into the
    /// inventory. Fails, changing nothing, when no such object is visible.
    pub fn player_take_object(&mut self, id: &ObjectId) -> (outcome: Outcome)
        requires
            old(self).wf(),
        ensures
            take_post(old(self)@, final(self)@, id@, outcome),
            final(self).wf(),
    {
        let ghost before = self@;
        let removed = self.remove_object_from_room(id);
        match removed {
            Some(object) => {
                self.player.add_object(object);
                Outcome::Success
            },
            None => {
                proof {
                    lemma_index_of_id(before.cur_room().visible(), id@);
                    assert(self@.cur_room().visible() =~= before.cur_room().visible());
                    assert(self@.rooms =~= before.rooms);
                }
                Outcome::Fail
            },
        }
    }

    /// Materialise the object `id` into the inventory from the world-data
    /// object templates, regardless of where (if anywhere) the object is
    /// placed. A no-op if the player already holds the object or no template
    /// has that id.
    pub fn player_grant_object(&mut self, id: &ObjectId) -> (outcome: Outcome)
        ensures
            grant_post(old(self)@, final(self)@, id@, outcome),
            old(self).wf() ==> final(self).wf(),
    {
        if self.player_holds(id) {
            return Outcome::Fail;
        }
        proof {
            lemma_index_of_id(self.object_templates@, id@);
        }
        match position_of(&self.object_templates, id) {
            Some(k) => {
                let copy = self.object_templates[k].clone();
                self.player.add_object(copy);
                assert(self@.inventory.drop_last() =~= old(self)@.inventory);
                Outcome::Success
            },
            None => Outcome::Fail,
        }
    }

    /// Move the carried object `id` into the current room. Fails, changing
    /// nothing, when it is not carried.
    pub fn player_drop_object(&mut self, id: &ObjectId) -> (outcome: Outcome)
        requires
            old(self).wf(),
        ensures
            drop_post(old(self)@, final(self)@, id@, outcome),
            final(self).wf(),
    {
        let ghost before = self@;
        proof {
            lemma_index_of_id(before.inventory, id@);
        }
        let removed = self.remove_object_from_player(id);
        match removed {
            Some(object) => {
                let ghost mid = self@;
                let (room_id, mut room) = self.take_current_room();
                room.add_object(object);
                self.put_current_room((room_id, room));
                assert(self@.rooms =~= mid.rooms.update(mid.current, (room_id, room)));
                Outcome::Success
            },
            None => {
                assert(self@.inventory =~= before.inventory);
                Outcome::Fail
            },
        }
    }

    /// Remove the carried object `id` from the inventory without placing it
    /// anywhere (consumed). A no-op if it is not carried.
    pub fn player_discard_object(&mut self, id: &ObjectId) -> (outcome: Outcome)
        ensures
            discard_post(old(self)@, final(self)@, id@, outcome),
            old(self).wf() ==> final(self).wf(),
    {
        proof {
            lemma_index_of_id(self@.inventory, id@);
        }
        match self.remove_object_from_player(id) {
            Some(_) => Outcome::Success,
            None => Outcome::Fail,
        }
    }
}

/// Object helpers over everything in the player's scope.
impl WorldState {
    /// Find an object by id across the current room (visible or hidden) and
    /// the player's inventory.
    pub fn any_object(&self, id: &ObjectId) -> (found: Option<&Object>)
        requires
            self.wf(),
        ensures
            match self@.any_object(id@) {
                Some(o) => found == Some(&o),
                None => found is None,
            },
    {
        match self.current_room().find_any(id) {
            Some(object) => Some(object),
            None => self.player.find_by_id(id),
        }
    }

    /// Details about an object in scope (in the room, hidden or not, or in
    /// the inventory).
    pub fn object_info(&self, id: &ObjectId) -> (info: Option<ObjectInfo>)
        requires
            self.wf(),
        ensures
            match self@.any_object(id@) {
                Some(o) => info matches Some(i) && info_of(o, i),
                None => info is None,
            },
    {
        match self.any_object(id) {
            Some(object) => Some(ObjectInfo::from_object(object)),
            None => None,
        }
    }

    /// The kind of the object with `id`, if it is anywhere in scope.
    pub fn object_kind(&self, id: &ObjectId) -> (kind: Option<ObjectKind>)
        requires
            self.wf(),
        ensures
            kind == match self@.any_object(id@) {
                Some(o) => Some(o.kind),
                None => None,
            },
    {
        match self.any_object(id) {
            Some(object) => Some(object.kind),
            None => None,
        }
    }

    /// Whether the object with `id` is a scene object (stays in the world).
    pub fn object_is_scene(&self, id: &ObjectId) -> (b: bool)
        requires
            self.wf(),
        ensures
            b == (self@.any_object(id@) matches Some(o) && o.kind == ObjectKind::Scene),
    {
        match self.any_object(id) {
            Some(object) => object.kind == ObjectKind::Scene,
            None => false,
        }
    }

    /// Whether the object with `id` is a door (a scene object with door
    /// data).
    pub fn object_is_door(&self, id: &ObjectId) -> (b: bool)
        requires
            self.wf(),
        ensures
            b == (self@.any_object(id@) matches Some(o) && o.door is Some),
    {
        match self.any_object(id) {
            Some(object) => object.door.is_some(),
            None => false,
        }
    }

    /// The direction the door object with `id` occupies in its room, if it
    /// is a door in scope (hidden doors included).
    pub fn exit_direction_of(&self, id: &ObjectId) -> (direction: Option<Direction>)
        requires
            self.wf(),
        ensures
            direction == match self@.any_object(id@) {
                Some(o) => match o.door {
                    Some(d) => Some(d.direction),
                    None => None,
                },
                None => None,
            },
    {
        match self.any_object(id) {
            Some(object) => match &object.door {
                Some(door) => Some(door.direction),
                None => None,
            },
            None => None,
        }
    }

    /// Resolve a noun against everything in the player's scope: an NPC in
    /// the current room by that name first, then the visible room objects
    /// and carried objects. Doors are ordinary scene objects, so they
    /// resolve here exactly like any other visible object.
    pub fn resolve_target(&self, name: &str) -> (r: TargetResolution)
        requires
            self.wf(),
        ensures
            self@.resolve_target_spec(name@, r),
    {
        match self.resolve_npc(name) {
            Some(npc) => Resolution::Found(Target::Npc(npc.id.clone())),
            None => {
                let mut ids: Vec<ObjectId> = Vec::new();
                collect_matching(self.current_room().objects(), name, &mut ids);
                collect_matching(self.player.objects(), name, &mut ids);
                proof {
                    lemma_matching_ids_concat(self@.cur_room().visible(), self@.inventory, name@);
                    assert(ids@ =~= matching_ids(self@.cur_room().visible() + self@.inventory, name@));
                }
                let ghost m = ids@;
                let mut targets: Vec<Target> = Vec::new();
                let mut i: usize = 0;
                while i < ids.len()
                    invariant
                        i <= ids@.len(),
                        targets@ =~= object_targets(ids@.take(i as int)),
                    decreases ids@.len() - i,
                {
                    targets.push(Target::Object(ids[i].clone()));
                    i = i + 1;
                }
                assert(ids@.take(ids@.len() as int) =~= ids@);
                let n = targets.len();
                if n == 0 {
                    Resolution::NotFound
                } else if n == 1 {
                    Resolution::Found(targets.remove(0))
                } else {
                    Resolution::Ambiguous { ids: targets, alias: String::from_str(name) }
                }
            },
        }
    }

    /// Resolve a noun against the objects in the current room only.
    pub fn resolve_room_object(&self, name: &str) -> (r: ObjectResolution)
        requires
            self.wf(),
        ensures
            resolves_to(matching_ids(self@.cur_room().visible(), name@), name@, r),
    {
        self.current_room().find_object(name)
    }

    /// Resolve a noun against the objects the player is carrying.
    pub fn resolve_player_object(&self, name: &str) -> (r: ObjectResolution)
        ensures
            resolves_to(matching_ids(self@.inventory, name@), name@, r),
    {
        self.player.find_object(name)
    }

    /// Whether the object `target` is currently in the player's scope:
    /// visible in the room, or carried.
    pub fn target_in_scope(&self, target: &ObjectId) -> (b: bool)
        requires
            self.wf(),
        ensures
            b == (contains_id(self@.cur_room().visible(), target@) || self@.holds(target@)),
    {
        self.current_room().holds(target) || self.player.holds(target)
    }
}

/// Global flags.
impl WorldState {
    /// Whether the global flag `flag` is set.
    pub fn has_flag(&self, flag: &str) -> (b: bool)
        ensures
            b == self@.has_flag(flag@),
    {
        let mut i: usize = 0;
        while i < self.flags.len()
            invariant
                i <= self.flags@.len(),
                forall|k: int| 0 <= k < i ==> self.flags@[k]@ != flag@,
            decreases self.flags@.len() - i,
        {
            if str_eq(self.flags[i].as_str(), flag) {
                assert(self@.flags[i as int]@ == flag@);
                return true;
            }
            i = i + 1;
        }
        false
    }

    /// Set the global flag `flag` (no-op if it is already set).
    pub fn set_flag(&mut self, flag: &str)
        ensures
            set_flag_post(old(self)@, final(self)@, flag@),
            old(self).wf() ==> final(self).wf(),
    {
        if !self.has_flag(flag) {
            self.flags.push(String::from_str(flag));
            assert(self@.flags.drop_last() =~= old(self)@.flags);
        }
    }

    /// Clear the global flag `flag`.
    pub fn clear_flag(&mut self, flag: &str)
        ensures
            clear_flag_post(old(self)@, final(self)@, flag@),
            old(self).wf() ==> final(self).wf(),
    {
        let mut kept: Vec<String> = Vec::new();
        let mut i: usize = 0;
        while i < self.flags.len()
            invariant
                i <= self.flags@.len(),
                kept@ == keep(self.flags@.take(i as int), flag_not(flag@)),
            decreases self.flags@.len() - i,
        {
            assert(self.flags@.take(i + 1).drop_last() =~= self.flags@.take(i as int));
            assert(self.flags@.take(i + 1).last() == self.flags@[i as int]);
            if !str_eq(self.flags[i].as_str(), flag) {
                kept.push(self.flags[i].clone());
            }
            i = i + 1;
        }
        assert(self.flags@.take(self.flags@.len() as int) =~= self.flags@);
        self.flags = kept;
    }
}

/// NPC and dialogue helpers.
impl WorldState {
    /// The NPCs of the world.
    pub fn npcs(&self) -> (npcs: &Vec<Npc>)
        ensures
            npcs@ == self@.npcs,
    {
        &self.npcs
    }

    /// The NPC the player is currently talking to.
    pub fn active_npc(&self) -> (npc: &Option<NpcId>)
        ensures
            *npc == self@.active_npc,
    {
        &self.active_npc
    }

    /// NPCs present in the given room.
    pub fn npcs_in_room(&self, room_id: &RoomId) -> (npcs: Vec<&Npc>)
        ensures
            npcs@.map_values(|n: &Npc| *n) == self@.npcs_in(room_id@),
    {
        let mut found: Vec<&Npc> = Vec::new();
        let mut i: usize = 0;
        while i < self.npcs.len()
            invariant
                i <= self.npcs@.len(),
                found@.map_values(|n: &Npc| *n) == keep(self.npcs@.take(i as int), npc_in_room(room_id@)),
            decreases self.npcs@.len() - i,
        {
            assert(self.npcs@.take(i + 1).drop_last() =~= self.npcs@.take(i as int));
            assert(self.npcs@.take(i + 1).last() == self.npcs@[i as int]);
            let ghost before = found@;
            if self.npcs[i].room == *room_id {
                found.push(&self.npcs[i]);
                assert(found@.map_values(|n: &Npc| *n) =~= before.map_values(|n: &Npc| *n).push(
                    self.npcs@[i as int],
                ));
            } else {
                assert(found@ == before);
            }
            i = i + 1;
        }
        assert(self.npcs@.take(self.npcs@.len() as int) =~= self.npcs@);
        found
    }

    /// Resolve an NPC by name (primary name or alias) in the current room.
    pub fn resolve_npc(&self, name: &str) -> (npc: Option<&Npc>)
        requires
            self.wf(),
        ensures
            ({
                let k = self@.npc_index_by_name(name@);
                if k >= 0 {
                    npc == Some(&self@.npcs[k])
                } else {
                    npc is None
                }
            }),
    {
        let ghost cur = self@.cur_room_id()@;
        proof {
            lemma_first_index(self.npcs@, npc_here_named(cur, name@));
        }
        let current = &self.rooms[self.current].0;
        let mut i: usize = 0;
        while i < self.npcs.len()
            invariant
                i <= self.npcs@.len(),
                *current == self@.cur_room_id(),
                cur == self@.cur_room_id()@,
                first_index(self.npcs@.take(i as int), npc_here_named(cur, name@)) == -1,
            decreases self.npcs@.len() - i,
        {
            assert(self.npcs@.take(i + 1).drop_last() =~= self.npcs@.take(i as int));
            assert(self.npcs@.take(i + 1).last() == self.npcs@[i as int]);
            if self.npcs[i].room == *current && self.npcs[i].has_name(name) {
                proof {
                    lemma_first_index_prefix(self.npcs@, npc_here_named(cur, name@), i + 1);
                }
                return Some(&self.npcs[i]);
            }
            i = i + 1;
        }
        assert(self.npcs@.take(self.npcs@.len() as int) =~= self.npcs@);
        None
    }

    /// The current dialogue node id for the given NPC, if in conversation.
    pub fn npc_dialogue_node(&self, npc_id: &NpcId) -> (node: Option<&DialogueNodeId>)
        ensures
            match self@.dialogue_node(npc_id@) {
                Some(n) => node == Some(&n),
                None => node is None,
            },
    {
        proof {
            lemma_first_index(self.dialogue_state@, npc_key_is(npc_id@));
        }
        let mut i: usize = 0;
        while i < self.dialogue_state.len()
            invariant
                i <= self.dialogue_state@.len(),
                first_index(self.dialogue_state@.take(i as int), npc_key_is(npc_id@)) == -1,
            decreases self.dialogue_state@.len() - i,
        {
            assert(self.dialogue_state@.take(i + 1).drop_last() =~= self.dialogue_state@.take(
                i as int,
            ));
            assert(self.dialogue_state@.take(i + 1).last() == self.dialogue_state@[i as int]);
            if self.dialogue_state[i].0 == *npc_id {
                proof {
                    lemma_first_index_prefix(self.dialogue_state@, npc_key_is(npc_id@), i + 1);
                }
                return Some(&self.dialogue_state[i].1);
            }
            i = i + 1;
        }
        assert(self.dialogue_state@.take(self.dialogue_state@.len() as int)
            =~= self.dialogue_state@);
        None
    }

    /// Set the dialogue node for an NPC.
    pub fn set_dialogue_node(&mut self, npc_id: NpcId, node_id: DialogueNodeId)
        ensures
            forall|n: Seq<char>| #[trigger]
                final(self)@.dialogue_node(n) == if n == npc_id@ {
                    Some(node_id)
                } else {
                    old(self)@.dialogue_node(n)
                },
            final(self)@ == (WorldView { dialogue: final(self)@.dialogue, ..old(self)@ }),
    {
        let ghost old_entries = self.dialogue_state@;
        let mut kept: Vec<(NpcId, DialogueNodeId)> = Vec::new();
        let mut i: usize = 0;
        while i < self.dialogue_state.len()
            invariant
                self.dialogue_state@ == old_entries,
                i <= old_entries.len(),
                kept@ == keep(old_entries.take(i as int), npc_key_not(npc_id@)),
            decreases old_entries.len() - i,
        {
            assert(old_entries.take(i + 1).drop_last() =~= old_entries.take(i as int));
            assert(old_entries.take(i + 1).last() == old_entries[i as int]);
            if !(self.dialogue_state[i].0 == npc_id) {
                let entry = (self.dialogue_state[i].0.clone(), self.dialogue_state[i].1.clone());
                kept.push(entry);
            }
            i = i + 1;
        }
        assert(old_entries.take(old_entries.len() as int) =~= old_entries);
        let ghost rest = kept@;
        kept.insert(0, (npc_id, node_id));
        proof {
            assert forall|n: Seq<char>| #[trigger]
                dialogue_lookup(kept@, n) == if n == npc_id@ {
                    Some(node_id)
                } else {
                    dialogue_lookup(old_entries, n)
                } by {
                lemma_lookup_front(rest, npc_id, node_id, n);
                if n != npc_id@ {
                    lemma_lookup_keep(old_entries, npc_id@, n);
                }
            }
        }
        self.dialogue_state = kept;
    }

    /// Clear the dialogue state for an NPC (end conversation).
    pub fn clear_dialogue(&mut self, npc_id: &NpcId)
        ensures
            forall|n: Seq<char>| #[trigger]
                final(self)@.dialogue_node(n) == if n == npc_id@ {
                    None
                } else {
                    old(self)@.dialogue_node(n)
                },
            final(self)@ == (WorldView { dialogue: final(self)@.dialogue, ..old(self)@ }),
    {
        let ghost old_entries = self.dialogue_state@;
        let mut kept: Vec<(NpcId, DialogueNodeId)> = Vec::new();
        let mut i: usize = 0;
        while i < self.dialogue_state.len()
            invariant
                self.dialogue_state@ == old_entries,
                i <= old_entries.len(),
                kept@ == keep(old_entries.take(i as int), npc_key_not(npc_id@)),
            decreases old_entries.len() - i,
        {
            assert(old_entries.take(i + 1).drop_last() =~= old_entries.take(i as int));
            assert(old_entries.take(i + 1).last() == old_entries[i as int]);
            if !(self.dialogue_state[i].0 == *npc_id) {
                let entry = (self.dialogue_state[i].0.clone(), self.dialogue_state[i].1.clone());
                kept.push(entry);
            }
            i = i + 1;
        }
        assert(old_entries.take(old_entries.len() as int) =~= old_entries);
        proof {
            assert forall|n: Seq<char>| #[trigger]
                dialogue_lookup(kept@, n) == if n == npc_id@ {
                    None
                } else {
                    dialogue_lookup(old_entries, n)
                } by {
                lemma_lookup_keep(old_entries, npc_id@, n);
            }
        }
        self.dialogue_state = kept;
    }

    /// Clear all dialogue state (e.g. on room change).
    pub fn clear_all_dialogue(&mut self)
        ensures
            final(self)@ == (WorldView { dialogue: Seq::empty(), active_npc: None, ..old(self)@ }),
    {
        self.dialogue_state = Vec::new();
        self.active_npc = None;
    }

    /// Mark the NPC the player is currently talking to.
    pub fn set_active_npc(&mut self, npc_id: NpcId)
        ensures
            final(self)@ == (WorldView { active_npc: Some(npc_id), ..old(self)@ }),
    {
        self.active_npc = Some(npc_id);
    }

    /// Clear the active NPC (e.g. when a conversation ends).
    pub fn clear_active_npc(&mut self)
        ensures
            final(self)@ == (WorldView { active_npc: None, ..old(self)@ }),
    {
        self.active_npc = None;
    }
}

/// Looking `n` up after an entry for `key` was put in front finds that entry
/// for `key`, and otherwise what the rest holds.
#[verifier::spinoff_prover]
#[verifier::rlimit(40)]
proof fn lemma_lookup_front(
    rest: Seq<(NpcId, DialogueNodeId)>,
    key: NpcId,
    node: DialogueNodeId,
    n: Seq<char>,
)
    ensures
        dialogue_lookup(rest.insert(0, (key, node)), n) == if n == key@ {
            Some(node)
        } else {
            dialogue_lookup(rest, n)
        },
{
    let s = rest.insert(0, (key, node));
    let p = npc_key_is(n);
    lemma_first_index(s, p);
    lemma_first_index(rest, p);
    if n == key@ {
        assert(p(s[0]));
    } else {
        assert forall|j: int| 0 <= j < rest.len() implies s[j + 1] == rest[j] by {}
        let k = first_index(rest, p);
        let ks = first_index(s, p);
        if k >= 0 {
            assert(p(s[k + 1]));
            if ks >= 0 && ks < k + 1 {
                assert(ks >= 1);
                assert(!p(rest[ks - 1]));
            }
        } else {
            if ks >= 0 {
                assert(ks >= 1);
                assert(!p(rest[ks - 1]));
            }
        }
    }
}

/// Dropping the entries for `key` leaves every other key's lookup alone and
/// leaves none for `key`.
proof fn lemma_lookup_keep(entries: Seq<(NpcId, DialogueNodeId)>, key: Seq<char>, n: Seq<char>)
    ensures
        dialogue_lookup(keep(entries, npc_key_not(key)), n) == if n == key {
            None
        } else {
            dialogue_lookup(entries, n)
        },
    decreases entries.len(),
{
    let q = npc_key_not(key);
    let p = npc_key_is(n);
    if entries.len() > 0 {
        lemma_lookup_keep(entries.drop_last(), key, n);
        let kept = keep(entries, q);
        let kept_prefix = keep(entries.drop_last(), q);
        lemma_first_index(kept_prefix, p);
        lemma_first_index(entries.drop_last(), p);
        if q(entries.last()) {
            assert(kept.drop_last() =~= kept_prefix);
        } else {
            assert(kept =~= kept_prefix);
        }
    }
}

/// Data-driven interaction and trigger access.
impl WorldState {
    /// The authored data-driven interactions, in declaration order.
    pub fn data_interactions(&self) -> (interactions: &[InteractionData])
        ensures
            interactions@ == self@.data_interactions,
    {
        self.data_interactions.as_slice()
    }

    /// The authored triggers, in declaration order.
    pub fn triggers(&self) -> (triggers: &[TriggerData])
        ensures
            triggers@ == self@.triggers,
    {
        self.triggers.as_slice()
    }

    /// Whether the trigger with `id` has already fired.
    pub fn trigger_fired(&self, id: &TriggerId) -> (b: bool)
        ensures
            b == (exists|i: int| 0 <= i < self@.fired.len() && #[trigger] self@.fired[i]@ == id@),
    {
        let mut i: usize = 0;
        while i < self.fired_triggers.len()
            invariant
                i <= self.fired_triggers@.len(),
                forall|k: int| 0 <= k < i ==> self.fired_triggers@[k]@ != id@,
            decreases self.fired_triggers@.len() - i,
        {
            if self.fired_triggers[i] == *id {
                assert(self@.fired[i as int]@ == id@);
                return true;
            }
            i = i + 1;
        }
        false
    }

    /// Mark the trigger with `id` as fired (idempotent).
    pub fn mark_trigger_fired(&mut self, id: TriggerId)
        ensures
            (exists|i: int| 0 <= i < old(self)@.fired.len() && #[trigger] old(self)@.fired[i]@
                == id@) ==> final(self)@ == old(self)@,
            !(exists|i: int| 0 <= i < old(self)@.fired.len() && #[trigger] old(self)@.fired[i]@
                == id@) ==> final(self)@ == (WorldView {
                fired: old(self)@.fired.push(id),
                ..old(self)@
            }),
    {
        if !self.trigger_fired(&id) {
            self.fired_triggers.push(id);
        }
    }
}

/// An object definition has key `id`.
pub open spec fn object_key_is(id: Seq<char>) -> spec_fn(ObjectData) -> bool {
    |o: ObjectData| o.id@ == id
}

/// The definitions of the placed ids that name a defined object, in order;
/// ids that name none are skipped.
pub open spec fn found_objects(objects: Seq<ObjectData>, ids: Seq<ObjectId>) -> Seq<ObjectData>
    decreases ids.len(),
{
    if ids.len() == 0 {
        seq![]
    } else {
        let prefix = found_objects(objects, ids.drop_last());
        let k = first_index(objects, object_key_is(ids.last()@));
        if k >= 0 {
            prefix.push(objects[k])
        } else {
            prefix
        }
    }
}

/// `objs` are live objects built, one for one, from `defs`.
pub open spec fn built_from(defs: Seq<ObjectData>, objs: Seq<Object>) -> bool {
    &&& objs.len() == defs.len()
    &&& forall|i: int| 0 <= i < defs.len() ==> from_data_spec(defs[i], #[trigger] objs[i])
}

/// `room` is the live room built from `rd`: its placed objects, visible and
/// hidden, and the door index derived from them.
pub open spec fn room_built_from(objects: Seq<ObjectData>, rd: RoomData, room: Room) -> bool {
    &&& built_from(found_objects(objects, rd.visible_objects@), room.visible())
    &&& built_from(found_objects(objects, rd.hidden_objects@), room.hidden())
    &&& forall|d: Direction| #[trigger]
        room.door_slot(d) == last_door(room.visible() + room.hidden(), d)
}

/// The position of the last room definition with key `id`, or -1.
pub open spec fn last_room_data(rooms: Seq<RoomData>, id: Seq<char>) -> int
    decreases rooms.len(),
{
    if rooms.len() == 0 {
        -1
    } else if rooms.last().id@ == id {
        rooms.len() - 1
    } else {
        last_room_data(rooms.drop_last(), id)
    }
}

proof fn lemma_last_room_data(rooms: Seq<RoomData>, id: Seq<char>)
    ensures
        -1 <= last_room_data(rooms, id) < rooms.len(),
        last_room_data(rooms, id) >= 0 ==> rooms[last_room_data(rooms, id)].id@ == id,
        last_room_data(rooms, id) == -1 ==> forall|j: int|
            0 <= j < rooms.len() ==> rooms[j].id@ != id,
    decreases rooms.len(),
{
    if rooms.len() > 0 {
        lemma_last_room_data(rooms.drop_last(), id);
        assert forall|j: int| 0 <= j < rooms.len() - 1 implies rooms[j] == rooms.drop_last()[j] by {}
    }
}

/// A copy of an authored interaction: same verb, item and target, same
/// conditions and effects.
pub open spec fn interaction_copy(a: InteractionData, b: InteractionData) -> bool {
    &&& a.verb == b.verb
    &&& a.item == b.item
    &&& a.target == b.target
    &&& a.condition@ == b.condition@
    &&& a.effect@ == b.effect@
}

/// A copy of an authored trigger: same id, conditions and effects.
pub open spec fn trigger_copy(a: TriggerData, b: TriggerData) -> bool {
    &&& a.id == b.id
    &&& a.condition@ == b.condition@
    &&& a.effect@ == b.effect@
}

/// `w` is the fresh game built from `data`: the authored flags, an empty
/// inventory, one room per distinct room key (built from the last definition
/// with that key), the player in the first defined room, the authored
/// interactions, triggers and NPCs, object templates for every defined
/// object (latest definition first, so a lookup by key finds the last
/// definition of that key), and no progress.
pub open spec fn world_from_data(data: WorldData, w: WorldView) -> bool {
    &&& w.wf()
    &&& w.cur_room_id()@ == data.rooms@[0].id@
    &&& w.flags == data.flags@
    &&& w.inventory == Seq::<Object>::empty()
    &&& w.fired == Seq::<TriggerId>::empty()
    &&& w.dialogue == Seq::<(NpcId, DialogueNodeId)>::empty()
    &&& w.active_npc is None
    &&& built_from(data.objects@.reverse(), w.templates)
    &&& w.data_interactions.len() == data.interactions@.len()
    &&& forall|i: int|
        0 <= i < data.interactions@.len() ==> interaction_copy(
            data.interactions@[i],
            #[trigger] w.data_interactions[i],
        )
    &&& w.triggers.len() == data.triggers@.len()
    &&& forall|i: int|
        0 <= i < data.triggers@.len() ==> trigger_copy(data.triggers@[i], #[trigger] w.triggers[i])
    &&& w.npcs.len() == data.npcs@.len()
    &&& forall|i: int| 0 <= i < data.npcs@.len() ==> npc_from_data_spec(data.npcs@[i], #[trigger] w.npcs[i])
    &&& rooms_from_data(data.objects@, data.rooms@, w.rooms)
}

/// The room entries built from the room definitions `defs`: distinct keys,
/// every defined key present, each room built from the last definition with
/// its key.
pub open spec fn rooms_from_data(objects: Seq<ObjectData>, defs: Seq<RoomData>, rooms: Seq<(RoomId, Room)>) -> bool {
    &&& forall|j1: int, j2: int|
        0 <= j1 < j2 < rooms.len() ==> (#[trigger] rooms[j1]).0@ != (#[trigger] rooms[j2]).0@
    &&& forall|k: int| 0 <= k < defs.len() ==> room_index(rooms, (#[trigger] defs[k]).id@) >= 0
    &&& forall|j: int|
        0 <= j < rooms.len() ==> {
            let k = last_room_data(defs, (#[trigger] rooms[j]).0@);
            &&& 0 <= k < defs.len()
            &&& room_built_from(objects, defs[k], rooms[j].1)
        }
}

/// The definition of the object `id`, if any.
fn find_object<'a>(objects: &'a Vec<ObjectData>, id: &ObjectId) -> (found: Option<&'a ObjectData>)
    ensures
        ({
            let k = first_index(objects@, object_key_is(id@));
            if k >= 0 {
                found == Some(&objects@[k])
            } else {
                found is None
            }
        }),
{
    proof {
        lemma_first_index(objects@, object_key_is(id@));
    }
    let mut i: usize = 0;
    while i < objects.len()
        invariant
            i <= objects@.len(),
            first_index(objects@.take(i as int), object_key_is(id@)) == -1,
        decreases objects@.len() - i,
    {
        assert(objects@.take(i + 1).drop_last() =~= objects@.take(i as int));
        assert(objects@.take(i + 1).last() == objects@[i as int]);
        if objects[i].id == *id {
            proof {
                lemma_first_index_prefix(objects@, object_key_is(id@), i + 1);
            }
            return Some(&objects[i]);
        }
        i = i + 1;
    }
    assert(objects@.take(objects@.len() as int) =~= objects@);
    None
}

/// The live objects placed by `ids`: each id that names a defined object
/// becomes a fresh object built from its definition.
fn place_objects(objects: &Vec<ObjectData>, ids: &Vec<ObjectId>) -> (placed: Vec<Object>)
    ensures
        built_from(found_objects(objects@, ids@), placed@),
{
    let mut placed: Vec<Object> = Vec::new();
    let mut i: usize = 0;
    while i < ids.len()
        invariant
            i <= ids@.len(),
            built_from(found_objects(objects@, ids@.take(i as int)), placed@),
        decreases ids@.len() - i,
    {
        assert(ids@.take(i + 1).drop_last() =~= ids@.take(i as int));
        assert(ids@.take(i + 1).last() == ids@[i as int]);
        let ghost before = found_objects(objects@, ids@.take(i as int));
        match find_object(objects, &ids[i]) {
            Some(def) => {
                let o = Object::from_data(def);
                placed.push(o);
                proof {
                    let now = found_objects(objects@, ids@.take(i + 1));
                    assert(now == before.push(*def));
                    assert forall|k: int| 0 <= k < now.len() implies from_data_spec(
                        now[k],
                        #[trigger] placed@[k],
                    ) by {
                        if k < before.len() {
                            assert(now[k] == before[k]);
                        }
                    }
                }
            },
            None => {},
        }
        i = i + 1;
    }
    assert(ids@.take(ids@.len() as int) =~= ids@);
    placed
}

/// The position of the first room entry with key `id`.
fn room_position(rooms: &Vec<(RoomId, Room)>, id: &RoomId) -> (pos: Option<usize>)
    ensures
        match pos {
            Some(k) => k as int == room_index(rooms@, id@),
            None => room_index(rooms@, id@) == -1,
        },
{
    proof {
        lemma_first_index(rooms@, room_key_is(id@));
    }
    let mut i: usize = 0;
    while i < rooms.len()
        invariant
            i <= rooms@.len(),
            first_index(rooms@.take(i as int), room_key_is(id@)) == -1,
        decreases rooms@.len() - i,
    {
        assert(rooms@.take(i + 1).drop_last() =~= rooms@.take(i as int));
        assert(rooms@.take(i + 1).last() == rooms@[i as int]);
        if rooms[i].0 == *id {
            proof {
                lemma_first_index_prefix(rooms@, room_key_is(id@), i + 1);
            }
            return Some(i);
        }
        i = i + 1;
    }
    assert(rooms@.take(rooms@.len() as int) =~= rooms@);
    None
}

/// Data import.
impl WorldState {
    /// Build a `WorldState` directly from world data. The world must define
    /// at least one room; the player starts in the first.
    pub fn from_data(data: &WorldData) -> (world: Self)
        requires
            data.rooms@.len() > 0,
        ensures
            world_from_data(*data, world@),
    {
        let mut templates: Vec<Object> = Vec::new();
        let ghost defs = data.objects@.reverse();
        let mut i: usize = 0;
        while i < data.objects.len()
            invariant
                i <= data.objects@.len(),
                defs == data.objects@.reverse(),
                built_from(defs.take(i as int), templates@),
            decreases data.objects@.len() - i,
        {
            let j = data.objects.len() - 1 - i;
            assert(defs[i as int] == data.objects@[j as int]);
            templates.push(Object::from_data(&data.objects[j]));
            proof {
                assert forall|k: int| 0 <= k < i + 1 implies from_data_spec(
                    defs.take(i + 1)[k],
                    #[trigger] templates@[k],
                ) by {
                    if k < i {
                        assert(defs.take(i + 1)[k] == defs.take(i as int)[k]);
                    }
                }
            }
            i = i + 1;
        }
        assert(defs.take(data.objects@.len() as int) =~= defs);

        let mut rooms: Vec<(RoomId, Room)> = Vec::new();
        let mut i: usize = 0;
        while i < data.rooms.len()
            invariant
                i <= data.rooms@.len(),
                rooms_from_data(data.objects@, data.rooms@.take(i as int), rooms@),
            decreases data.rooms@.len() - i,
        {
            let room_data = &data.rooms[i];
            let visible = place_objects(&data.objects, &room_data.visible_objects);
            let hidden = place_objects(&data.objects, &room_data.hidden_objects);
            let room = Room::new(visible, hidden);
            let ghost defs = data.rooms@.take(i + 1);
            let ghost prev = data.rooms@.take(i as int);
            assert(defs.drop_last() =~= prev);
            assert(defs.last() == *room_data);
            assert(defs =~= prev.push(*room_data));
            let ghost old_rooms = rooms@;
            let found_at = room_position(&rooms, &room_data.id);
            let found = found_at.is_some();
            let k: usize = match found_at {
                Some(k) => k,
                None => 0,
            };
            proof {
                lemma_first_index(rooms@, room_key_is(room_data.id@));
            }
            if found {
                rooms.set(k, (room_data.id.clone(), room));
            } else {
                rooms.push((room_data.id.clone(), room));
                assert(rooms@.drop_last() =~= old_rooms);
            }
            proof {
                lemma_rooms_step(data.objects@, prev, *room_data, old_rooms, rooms@, found, k as int);
            }
            i = i + 1;
        }
        assert(data.rooms@.take(data.rooms@.len() as int) =~= data.rooms@);

        let first = &data.rooms[0].id;
        proof {
            assert(data.rooms@[0] == data.rooms@[0]);
            lemma_first_index(rooms@, room_key_is(first@));
        }
        let current: usize = match room_position(&rooms, first) {
            Some(k) => k,
            None => 0,
        };

        let mut interactions: Vec<InteractionData> = Vec::new();
        let mut i: usize = 0;
        while i < data.interactions.len()
            invariant
                i <= data.interactions@.len(),
                interactions@.len() == i,
                forall|k: int|
                    0 <= k < i ==> interaction_copy(
                        data.interactions@[k],
                        #[trigger] interactions@[k],
                    ),
            decreases data.interactions@.len() - i,
        {
            interactions.push(data.interactions[i].clone());
            i = i + 1;
        }

        let mut triggers: Vec<TriggerData> = Vec::new();
        let mut i: usize = 0;
        while i < data.triggers.len()
            invariant
                i <= data.triggers@.len(),
                triggers@.len() == i,
                forall|k: int| 0 <= k < i ==> trigger_copy(data.triggers@[k], #[trigger] triggers@[k]),
            decreases data.triggers@.len() - i,
        {
            triggers.push(data.triggers[i].clone());
            i = i + 1;
        }

        let mut npcs: Vec<Npc> = Vec::new();
        let mut i: usize = 0;
        while i < data.npcs.len()
            invariant
                i <= data.npcs@.len(),
                npcs@.len() == i,
                forall|k: int| 0 <= k < i ==> npc_from_data_spec(data.npcs@[k], #[trigger] npcs@[k]),
            decreases data.npcs@.len() - i,
        {
            npcs.push(Npc::from_data(&data.npcs[i]));
            i = i + 1;
        }

        WorldState {
            flags: clone_strings(&data.flags),
            player: Player::new(),
            rooms,
            current,
            data_interactions: interactions,
            triggers,
            fired_triggers: Vec::new(),
            object_templates: templates,
            npcs,
            dialogue_state: Vec::new(),
            active_npc: None,
        }
    }
}

/// One step of building the room entries: the entry for the next definition
/// replaces the entry with its key, or is appended when there is none.
proof fn lemma_rooms_step(
    objects: Seq<ObjectData>,
    prev: Seq<RoomData>,
    rd: RoomData,
    old_rooms: Seq<(RoomId, Room)>,
    rooms: Seq<(RoomId, Room)>,
    found: bool,
    k: int,
)
    requires
        rooms_from_data(objects, prev, old_rooms),
        found ==> 0 <= k < old_rooms.len() && old_rooms[k].0@ == rd.id@ && rooms == old_rooms.update(
            k,
            (rooms[k].0, rooms[k].1),
        ),
        !found ==> forall|j: int| 0 <= j < old_rooms.len() ==> old_rooms[j].0@ != rd.id@,
        !found ==> rooms.len() == old_rooms.len() + 1 && rooms.drop_last() == old_rooms,
        found ==> rooms.len() == old_rooms.len(),
        rooms[if found { k } else { old_rooms.len() as int }].0@ == rd.id@,
        room_built_from(objects, rd, rooms[if found { k } else { old_rooms.len() as int }].1),
    ensures
        rooms_from_data(objects, prev.push(rd), rooms),
{
    let defs = prev.push(rd);
    let idx = if found { k } else { old_rooms.len() as int };
    assert(defs.drop_last() =~= prev);
    assert forall|j: int| 0 <= j < rooms.len() && j != idx implies rooms[j] == old_rooms[j] by {
        if !found {
            assert(rooms[j] == rooms.drop_last()[j]);
        }
    }
    assert forall|j1: int, j2: int|
        0 <= j1 < j2 < rooms.len() implies (#[trigger] rooms[j1]).0@ != (#[trigger] rooms[j2]).0@ by {
        if j1 != idx && j2 != idx {
            assert(old_rooms[j1].0@ != old_rooms[j2].0@);
        } else if found {
            if j1 == idx {
                assert(old_rooms[k].0@ != old_rooms[j2].0@);
            } else {
                assert(old_rooms[j1].0@ != old_rooms[k].0@);
            }
        }
    }
    assert forall|m: int| 0 <= m < defs.len() implies room_index(rooms, (#[trigger] defs[m]).id@)
        >= 0 by {
        let key = defs[m].id@;
        lemma_first_index(rooms, room_key_is(key));
        if m < prev.len() {
            assert(defs[m] == prev[m]);
            lemma_first_index(old_rooms, room_key_is(key));
            let j = first_index(old_rooms, room_key_is(key));
            if j == idx {
                assert(rooms[idx].0@ == key);
            } else {
                assert(rooms[j] == old_rooms[j]);
            }
            if first_index(rooms, room_key_is(key)) < 0 {
                assert(!room_key_is(key)(rooms[if j == idx { idx } else { j }]));
            }
        } else {
            if first_index(rooms, room_key_is(key)) < 0 {
                assert(!room_key_is(key)(rooms[idx]));
            }
        }
    }
    assert forall|j: int| 0 <= j < rooms.len() implies {
        let kk = last_room_data(defs, (#[trigger] rooms[j]).0@);
        &&& 0 <= kk < defs.len()
        &&& room_built_from(objects, defs[kk], rooms[j].1)
    } by {
        let key = rooms[j].0@;
        if j == idx {
            assert(last_room_data(defs, key) == defs.len() - 1);
        } else {
            assert(rooms[j] == old_rooms[j]);
            assert(key != rd.id@) by {
                if found {
                    assert(old_rooms[j].0@ != old_rooms[k].0@ || j == k);
                }
            }
            assert(last_room_data(defs, key) == last_room_data(prev, key));
            lemma_last_room_data(prev, key);
            assert(defs[last_room_data(prev, key)] == prev[last_room_data(prev, key)]);
        }
    }
}

} // verus!
