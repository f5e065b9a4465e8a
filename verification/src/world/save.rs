//! Save and restore: the dynamic slice of a running game (flags, where each
//! object is, door locks, fired triggers and dialogue progress), never the
//! authored content, which a load always takes fresh from the world data.
use vstd::prelude::*;

use crate::keys::{DialogueNodeId, NpcId, ObjectId, RoomId, TriggerId};
use crate::text::{first_index, keep, lemma_first_index, lemma_first_index_prefix};
use crate::world::object::{contains_id, find_by_id_spec, lemma_index_of_id, without_id, Object};
use crate::world::room::{relock_all, remove_visible_post, Room};
use crate::world::{room_index, room_key_is, WorldState, WorldView};

verus! {

/// The object placement of one room within a [`WorldSnapshot`].
#[derive(Debug, PartialEq, Eq)]
pub struct RoomSnapshot {
    pub visible: Vec<ObjectId>,
    pub hidden: Vec<ObjectId>,
}

/// The dynamic slice of a running game: flags, object placement, door
/// locks, fired triggers and dialogue progress.
#[derive(Debug, PartialEq, Eq)]
pub struct WorldSnapshot {
    pub flags: Vec<String>,
    pub current_room: RoomId,
    pub inventory: Vec<ObjectId>,
    pub rooms: Vec<(RoomId, RoomSnapshot)>,
    pub locked_doors: Vec<ObjectId>,
    pub fired_triggers: Vec<TriggerId>,
    pub dialogue_state: Vec<(NpcId, DialogueNodeId)>,
    pub active_npc: Option<NpcId>,
}

/// The ids of `objs`, in order.
pub open spec fn ids_of(objs: Seq<Object>) -> Seq<ObjectId> {
    objs.map_values(|o: Object| o.id)
}

/// Whether `o` is a locked door.
pub open spec fn is_locked_door() -> spec_fn(Object) -> bool {
    |o: Object| o.door matches Some(d) && d.locked
}

/// The ids of the locked doors of `rooms`, room by room, visible ones first.
pub open spec fn locked_in(rooms: Seq<(RoomId, Room)>) -> Seq<ObjectId>
    decreases rooms.len(),
{
    if rooms.len() == 0 {
        Seq::empty()
    } else {
        let room = rooms.last().1;
        locked_in(rooms.drop_last()) + ids_of(keep(room.visible() + room.hidden(), is_locked_door()))
    }
}

/// `s` is the snapshot of `w`.
pub open spec fn is_snapshot_of(w: WorldView, s: WorldSnapshot) -> bool {
    &&& s.flags@ == w.flags
    &&& s.current_room == w.cur_room_id()
    &&& s.inventory@ == ids_of(w.inventory)
    &&& s.rooms@.len() == w.rooms.len()
    &&& forall|i: int|
        0 <= i < w.rooms.len() ==> {
            &&& (#[trigger] s.rooms@[i]).0 == w.rooms[i].0
            &&& s.rooms@[i].1.visible@ == ids_of(w.rooms[i].1.visible())
            &&& s.rooms@[i].1.hidden@ == ids_of(w.rooms[i].1.hidden())
        }
    &&& s.locked_doors@ == locked_in(w.rooms)
    &&& s.fired_triggers@ == w.fired
    &&& s.dialogue_state@ == w.dialogue
    &&& s.active_npc == w.active_npc
}

/// The ids of `objs`.
fn collect_ids(objs: &Vec<Object>) -> (ids: Vec<ObjectId>)
    ensures
        ids@ == ids_of(objs@),
{
    let mut ids: Vec<ObjectId> = Vec::new();
    let mut i: usize = 0;
    while i < objs.len()
        invariant
            i <= objs@.len(),
            ids@ == ids_of(objs@.take(i as int)),
        decreases objs@.len() - i,
    {
        ids.push(objs[i].id.clone());
        assert(ids@ =~= ids_of(objs@.take(i + 1)));
        i = i + 1;
    }
    assert(objs@.take(objs@.len() as int) =~= objs@);
    ids
}

/// Append the ids of the locked doors of `objs` to `out`.
fn collect_locked(objs: &Vec<Object>, out: &mut Vec<ObjectId>)
    ensures
        final(out)@ == old(out)@ + ids_of(keep(objs@, is_locked_door())),
{
    let ghost start = out@;
    let mut i: usize = 0;
    while i < objs.len()
        invariant
            i <= objs@.len(),
            out@ == start + ids_of(keep(objs@.take(i as int), is_locked_door())),
        decreases objs@.len() - i,
    {
        let ghost before = keep(objs@.take(i as int), is_locked_door());
        assert(objs@.take(i + 1).drop_last() =~= objs@.take(i as int));
        assert(objs@.take(i + 1).last() == objs@[i as int]);
        let locked = match &objs[i].door {
            Some(d) => d.locked,
            None => false,
        };
        if locked {
            out.push(objs[i].id.clone());
            assert(keep(objs@.take(i + 1), is_locked_door()) == before.push(objs@[i as int]));
            assert(out@ =~= start + ids_of(keep(objs@.take(i + 1), is_locked_door())));
        } else {
            assert(keep(objs@.take(i + 1), is_locked_door()) == before);
        }
        i = i + 1;
    }
    assert(objs@.take(objs@.len() as int) =~= objs@);
}

/// `keep` of two lists one after the other keeps from each.
pub proof fn lemma_keep_concat<T>(a: Seq<T>, b: Seq<T>, p: spec_fn(T) -> bool)
    ensures
        keep(a + b, p) == keep(a, p) + keep(b, p),
    decreases b.len(),
{
    if b.len() == 0 {
        assert(a + b =~= a);
        assert(keep(b, p) =~= Seq::<T>::empty());
        assert(keep(a, p) + keep(b, p) =~= keep(a, p));
    } else {
        lemma_keep_concat(a, b.drop_last(), p);
        assert((a + b).drop_last() =~= a + b.drop_last());
        assert((a + b).last() == b.last());
        if p(b.last()) {
            assert(keep(a, p) + keep(b, p) =~= (keep(a, p) + keep(b.drop_last(), p)).push(b.last()));
        } else {
            assert(keep(a, p) + keep(b, p) =~= keep(a, p) + keep(b.drop_last(), p));
        }
    }
}

proof fn lemma_ids_concat(a: Seq<Object>, b: Seq<Object>)
    ensures
        ids_of(a + b) == ids_of(a) + ids_of(b),
{
    assert(ids_of(a + b) =~= ids_of(a) + ids_of(b));
}

impl WorldState {
    /// The snapshot of the game's progress.
    pub fn snapshot(&self) -> (snapshot: WorldSnapshot)
        requires
            self.wf(),
        ensures
            is_snapshot_of(self@, snapshot),
    {
        let mut rooms: Vec<(RoomId, RoomSnapshot)> = Vec::new();
        let mut locked: Vec<ObjectId> = Vec::new();
        let mut i: usize = 0;
        while i < self.rooms.len()
            invariant
                i <= self@.rooms.len(),
                rooms@.len() == i,
                forall|k: int|
                    0 <= k < i ==> {
                        &&& (#[trigger] rooms@[k]).0 == self@.rooms[k].0
                        &&& rooms@[k].1.visible@ == ids_of(self@.rooms[k].1.visible())
                        &&& rooms@[k].1.hidden@ == ids_of(self@.rooms[k].1.hidden())
                    },
                locked@ == locked_in(self@.rooms.take(i as int)),
            decreases self@.rooms.len() - i,
        {
            let room = &self.rooms[i].1;
            let snapshot = RoomSnapshot {
                visible: collect_ids(room.objects()),
                hidden: collect_ids(room.hidden_objects()),
            };
            rooms.push((self.rooms[i].0.clone(), snapshot));
            let ghost before = locked@;
            collect_locked(room.objects(), &mut locked);
            collect_locked(room.hidden_objects(), &mut locked);
            proof {
                let t = self@.rooms.take(i + 1);
                assert(t.drop_last() =~= self@.rooms.take(i as int));
                assert(t.last() == self@.rooms[i as int]);
                lemma_keep_concat(room.visible(), room.hidden(), is_locked_door());
                lemma_ids_concat(
                    keep(room.visible(), is_locked_door()),
                    keep(room.hidden(), is_locked_door()),
                );
                assert(locked@ =~= locked_in(t));
            }
            i = i + 1;
        }
        assert(self@.rooms.take(self@.rooms.len() as int) =~= self@.rooms);
        WorldSnapshot {
            flags: crate::text::clone_strings(&self.flags),
            current_room: self.current_room_id(),
            inventory: collect_ids(self.player.objects()),
            rooms,
            locked_doors: locked,
            fired_triggers: clone_trigger_ids(&self.fired_triggers),
            dialogue_state: clone_dialogue(&self.dialogue_state),
            active_npc: match &self.active_npc {
                Some(id) => Some(id.clone()),
                None => None,
            },
        }
    }
}

/// A copy of a list of trigger ids.
fn clone_trigger_ids(ids: &Vec<TriggerId>) -> (copy: Vec<TriggerId>)
    ensures
        copy@ == ids@,
{
    let mut copy: Vec<TriggerId> = Vec::new();
    let mut i: usize = 0;
    while i < ids.len()
        invariant
            i <= ids@.len(),
            copy@ == ids@.take(i as int),
        decreases ids@.len() - i,
    {
        copy.push(ids[i].clone());
        assert(copy@ =~= ids@.take(i + 1));
        i = i + 1;
    }
    assert(ids@.take(ids@.len() as int) =~= ids@);
    copy
}

/// A copy of a dialogue state.
fn clone_dialogue(entries: &Vec<(NpcId, DialogueNodeId)>) -> (copy: Vec<(NpcId, DialogueNodeId)>)
    ensures
        copy@ == entries@,
{
    let mut copy: Vec<(NpcId, DialogueNodeId)> = Vec::new();
    let mut i: usize = 0;
    while i < entries.len()
        invariant
            i <= entries@.len(),
            copy@ == entries@.take(i as int),
        decreases entries@.len() - i,
    {
        copy.push((entries[i].0.clone(), entries[i].1.clone()));
        assert(copy@ =~= entries@.take(i + 1));
        i = i + 1;
    }
    assert(entries@.take(entries@.len() as int) =~= entries@);
    copy
}

/// Where a restore puts an object.
#[derive(Debug)]
pub enum Destination {
    /// The visible list of the room with this key.
    Visible(RoomId),
    /// The hidden list of the room with this key.
    Hidden(RoomId),
    /// The inventory.
    Carried,
}

/// Whether the room entry holds an object with key `id`, visible or hidden.
pub open spec fn room_holds_any(id: Seq<char>) -> spec_fn((RoomId, Room)) -> bool {
    |e: (RoomId, Room)| contains_id(e.1.visible(), id) || contains_id(e.1.hidden(), id)
}

/// `post` is `pre` with only the room at position `k` changed, to one with
/// the lists `visible` and `hidden` and the same doors.
pub open spec fn room_replaced(pre: WorldView, post: WorldView, k: int, visible: Seq<Object>, hidden: Seq<Object>) -> bool {
    &&& post == (WorldView { rooms: post.rooms, ..pre })
    &&& post.rooms.len() == pre.rooms.len()
    &&& forall|j: int| 0 <= j < pre.rooms.len() && j != k ==> #[trigger] post.rooms[j] == pre.rooms[j]
    &&& post.rooms[k].0 == pre.rooms[k].0
    &&& post.rooms[k].1.visible() == visible
    &&& post.rooms[k].1.hidden() == hidden
    &&& post.rooms[k].1.same_slots(&pre.rooms[k].1)
}

/// Taking the object `id` from wherever it is: the inventory first, then the
/// first room holding it (its visible list first); failing those, a fresh
/// copy of its template, changing nothing; nothing at all for an unknown id.
pub open spec fn take_anywhere_post(pre: WorldView, post: WorldView, id: Seq<char>, r: Option<Object>) -> bool {
    match find_by_id_spec(pre.inventory, id) {
        Some(o) => r == Some(o) && post == (WorldView { inventory: without_id(pre.inventory, id), ..pre }),
        None => {
            let k = first_index(pre.rooms, room_holds_any(id));
            if k >= 0 {
                let room = pre.rooms[k].1;
                if contains_id(room.visible(), id) {
                    r == find_by_id_spec(room.visible(), id) && room_replaced(
                        pre,
                        post,
                        k,
                        without_id(room.visible(), id),
                        room.hidden(),
                    )
                } else {
                    r == find_by_id_spec(room.hidden(), id) && room_replaced(
                        pre,
                        post,
                        k,
                        room.visible(),
                        without_id(room.hidden(), id),
                    )
                }
            } else {
                post == pre && match find_by_id_spec(pre.templates, id) {
                    Some(t) => r matches Some(x) && x@ == t@,
                    None => r is None,
                }
            }
        },
    }
}

/// `post` is `mid` with the object `r` (if any) put at `dest`; an object
/// whose room is unknown is not put anywhere.
pub open spec fn placed(mid: WorldView, post: WorldView, r: Option<Object>, dest: Destination) -> bool {
    match r {
        None => post == mid,
        Some(o) => match dest {
            Destination::Carried => post == (WorldView { inventory: mid.inventory.push(o), ..mid }),
            Destination::Visible(room) => {
                let k = room_index(mid.rooms, room@);
                if k >= 0 {
                    room_replaced(mid, post, k, mid.rooms[k].1.visible().push(o), mid.rooms[k].1.hidden())
                } else {
                    post == mid
                }
            },
            Destination::Hidden(room) => {
                let k = room_index(mid.rooms, room@);
                if k >= 0 {
                    room_replaced(mid, post, k, mid.rooms[k].1.visible(), mid.rooms[k].1.hidden().push(o))
                } else {
                    post == mid
                }
            },
        },
    }
}

/// Moving the object `id` to `dest`: taken from wherever it is, then put.
pub open spec fn place_post(pre: WorldView, post: WorldView, id: ObjectId, dest: Destination) -> bool {
    exists|mid: WorldView, r: Option<Object>|
        #[trigger] take_anywhere_post(pre, mid, id@, r) && placed(mid, post, r, dest)
}

/// The moves a snapshot asks for: room by room, its visible objects then its
/// hidden ones, and last the inventory.
pub open spec fn rooms_plan(rooms: Seq<(RoomId, RoomSnapshot)>) -> Seq<(ObjectId, Destination)>
    decreases rooms.len(),
{
    if rooms.len() == 0 {
        Seq::empty()
    } else {
        let (room, r) = rooms.last();
        rooms_plan(rooms.drop_last()) + r.visible@.map_values(
            |id: ObjectId| (id, Destination::Visible(room)),
        ) + r.hidden@.map_values(|id: ObjectId| (id, Destination::Hidden(room)))
    }
}

/// All the moves of the snapshot `s`, in order.
pub open spec fn plan_of(s: WorldSnapshot) -> Seq<(ObjectId, Destination)> {
    rooms_plan(s.rooms@) + s.inventory@.map_values(|id: ObjectId| (id, Destination::Carried))
}

/// `worlds` traces the moves `plan`, one world after each.
pub open spec fn is_place_trace(plan: Seq<(ObjectId, Destination)>, worlds: Seq<WorldView>) -> bool {
    &&& worlds.len() == plan.len() + 1
    &&& forall|k: int|
        0 <= k < plan.len() ==> #[trigger] place_post(worlds[k], worlds[k + 1], plan[k].0, plan[k].1)
}

/// `post` is `pre` with every door relocked by `locked`.
pub open spec fn relocked_world(pre: WorldView, post: WorldView, locked: Seq<ObjectId>) -> bool {
    &&& post == (WorldView { rooms: post.rooms, ..pre })
    &&& post.rooms.len() == pre.rooms.len()
    &&& forall|k: int|
        0 <= k < pre.rooms.len() ==> {
            &&& (#[trigger] post.rooms[k]).0 == pre.rooms[k].0
            &&& post.rooms[k].1.visible() == relock_all(pre.rooms[k].1.visible(), locked)
            &&& post.rooms[k].1.hidden() == relock_all(pre.rooms[k].1.hidden(), locked)
            &&& post.rooms[k].1.same_slots(&pre.rooms[k].1)
        }
}

/// What restoring the snapshot `s` onto `pre` does: its flags, fired
/// triggers and dialogue progress replace the world's; its objects move, one
/// after another, to where it put them; every door is locked exactly when it
/// lists it; and the player stands in its room, when the world has it.
pub open spec fn restore_post(pre: WorldView, post: WorldView, s: WorldSnapshot) -> bool {
    exists|worlds: Seq<WorldView>, relocked: WorldView|
        #![trigger is_place_trace(plan_of(s), worlds), relocked_world(worlds.last(), relocked, s.locked_doors@)]
        is_place_trace(plan_of(s), worlds) && worlds[0] == (WorldView {
            flags: s.flags@,
            fired: s.fired_triggers@,
            dialogue: s.dialogue_state@,
            active_npc: s.active_npc,
            ..pre
        }) && relocked_world(worlds.last(), relocked, s.locked_doors@) && post == (WorldView {
            current: if room_index(relocked.rooms, s.current_room@) >= 0 {
                room_index(relocked.rooms, s.current_room@)
            } else {
                relocked.current
            },
            ..relocked
        })
}

/// A trace extended by one more move.
proof fn lemma_trace_push(plan: Seq<(ObjectId, Destination)>, worlds: Seq<WorldView>, id: ObjectId, dest: Destination, w: WorldView)
    requires
        is_place_trace(plan, worlds),
        place_post(worlds.last(), w, id, dest),
    ensures
        is_place_trace(plan.push((id, dest)), worlds.push(w)),
{
    let p2 = plan.push((id, dest));
    let w2 = worlds.push(w);
    assert forall|k: int| 0 <= k < p2.len() implies #[trigger] place_post(w2[k], w2[k + 1], p2[k].0, p2[k].1) by {
        if k < plan.len() {
            assert(w2[k] == worlds[k] && w2[k + 1] == worlds[k + 1] && p2[k] == plan[k]);
        } else {
            assert(w2[k] == worlds.last());
        }
    }
}

impl WorldState {
    /// Change the room at position `k`: take it out, change it, put it back.
    fn take_room(&mut self, k: usize) -> (entry: (RoomId, Room))
        requires
            k < old(self)@.rooms.len(),
        ensures
            entry == old(self)@.rooms[k as int],
            final(self)@ == (WorldView { rooms: old(self)@.rooms.remove(k as int), ..old(self)@ }),
    {
        self.rooms.remove(k)
    }

    /// Put a room back at position `k`.
    fn put_room(&mut self, k: usize, entry: (RoomId, Room))
        requires
            k <= old(self)@.rooms.len(),
        ensures
            final(self)@ == (WorldView { rooms: old(self)@.rooms.insert(k as int, entry), ..old(self)@ }),
    {
        self.rooms.insert(k, entry);
    }

    /// Take the object with `id` out of wherever it currently lives: the
    /// inventory, or any room's visible or hidden list. Failing that, a
    /// fresh copy of its template (for an object a game only ever grants);
    /// `None` only for an id that is no template either.
    pub fn take_object_anywhere(&mut self, id: &ObjectId) -> (object: Option<Object>)
        requires
            old(self).wf(),
        ensures
            final(self).wf(),
            take_anywhere_post(old(self)@, final(self)@, id@, object),
    {
        match self.player.remove_object(id) {
            Some(o) => return Some(o),
            None => {},
        }
        let ghost p = room_holds_any(id@);
        proof {
            lemma_first_index(self@.rooms, p);
        }
        let mut k: usize = 0;
        while k < self.rooms.len()
            invariant
                self@ == old(self)@,
                self.wf(),
                k <= self@.rooms.len(),
                p == room_holds_any(id@),
                find_by_id_spec(self@.inventory, id@) is None,
                first_index(self@.rooms.take(k as int), p) == -1,
            decreases self@.rooms.len() - k,
        {
            assert(self@.rooms.take(k + 1).drop_last() =~= self@.rooms.take(k as int));
            assert(self@.rooms.take(k + 1).last() == self@.rooms[k as int]);
            let in_visible = self.rooms[k].1.holds(id);
            let anywhere = self.rooms[k].1.find_any(id).is_some();
            proof {
                lemma_index_of_id(self@.rooms[k as int].1.visible(), id@);
                lemma_index_of_id(self@.rooms[k as int].1.hidden(), id@);
                assert(p(self@.rooms[k as int]) == (in_visible || anywhere));
            }
            if in_visible || anywhere {
                proof {
                    lemma_first_index_prefix(self@.rooms, p, k + 1);
                }
                let ghost before = self@;
                let mut entry = self.take_room(k);
                let removed = if in_visible {
                    entry.1.remove_object(id)
                } else {
                    entry.1.remove_hidden_object(id)
                };
                self.put_room(k, entry);
                proof {
                    assert(self@.rooms =~= before.rooms.update(k as int, entry));
                    let kk = first_index(before.rooms, room_holds_any(id@));
                    assert(kk == k);
                    assert(find_by_id_spec(before.inventory, id@) is None);
                    let room = before.rooms[k as int].1;
                    if in_visible {
                        assert(room_replaced(before, self@, k as int, without_id(room.visible(), id@), room.hidden()));
                    } else {
                        assert(room_replaced(before, self@, k as int, room.visible(), without_id(room.hidden(), id@)));
                    }
                }
                return removed;
            }
            k = k + 1;
        }
        assert(self@.rooms.take(self@.rooms.len() as int) =~= self@.rooms);
        proof {
            lemma_index_of_id(self.object_templates@, id@);
        }
        match crate::world::object::position_of(&self.object_templates, id) {
            Some(t) => Some(self.object_templates[t].clone()),
            None => None,
        }
    }

    /// Move the object with `id` to `dest`.
    pub fn place_object(&mut self, id: &ObjectId, dest: &Destination)
        requires
            old(self).wf(),
        ensures
            final(self).wf(),
            place_post(old(self)@, final(self)@, *id, *dest),
    {
        let ghost pre = self@;
        let taken = self.take_object_anywhere(id);
        let ghost mid = self@;
        proof {
            match dest {
                Destination::Visible(room) => lemma_first_index(mid.rooms, room_key_is(room@)),
                Destination::Hidden(room) => lemma_first_index(mid.rooms, room_key_is(room@)),
                Destination::Carried => {},
            }
        }
        match taken {
            None => {},
            Some(o) => match dest {
                Destination::Carried => self.player.add_object(o),
                Destination::Visible(room) => match super::room_position(&self.rooms, room) {
                    Some(k) => {
                        let ghost before = self@;
                        let mut entry = self.take_room(k);
                        entry.1.add_object(o);
                        self.put_room(k, entry);
                        assert(self@.rooms =~= before.rooms.update(k as int, entry));
                    },
                    None => {},
                },
                Destination::Hidden(room) => match super::room_position(&self.rooms, room) {
                    Some(k) => {
                        let ghost before = self@;
                        let mut entry = self.take_room(k);
                        entry.1.add_hidden_object(o);
                        self.put_room(k, entry);
                        assert(self@.rooms =~= before.rooms.update(k as int, entry));
                    },
                    None => {},
                },
            },
        }
        assert(take_anywhere_post(pre, mid, id@, taken));
    }
}

impl WorldState {
    /// Lock every door exactly when `locked` lists it.
    pub fn set_all_locks(&mut self, locked: &Vec<ObjectId>)
        requires
            old(self).wf(),
        ensures
            final(self).wf(),
            relocked_world(old(self)@, final(self)@, locked@),
    {
        let mut k: usize = 0;
        while k < self.rooms.len()
            invariant
                self.wf(),
                k <= self@.rooms.len(),
                self@ == (WorldView { rooms: self@.rooms, ..old(self)@ }),
                self@.rooms.len() == old(self)@.rooms.len(),
                forall|j: int|
                    0 <= j < self@.rooms.len() ==> {
                        &&& (#[trigger] self@.rooms[j]).0 == old(self)@.rooms[j].0
                        &&& self@.rooms[j].1.same_slots(&old(self)@.rooms[j].1)
                        &&& j < k ==> self@.rooms[j].1.visible() == relock_all(
                            old(self)@.rooms[j].1.visible(),
                            locked@,
                        )
                        &&& j < k ==> self@.rooms[j].1.hidden() == relock_all(
                            old(self)@.rooms[j].1.hidden(),
                            locked@,
                        )
                        &&& j >= k ==> self@.rooms[j] == old(self)@.rooms[j]
                    },
            decreases self@.rooms.len() - k,
        {
            let ghost before = self@;
            let mut entry = self.take_room(k);
            entry.1.set_locks(locked);
            self.put_room(k, entry);
            assert(self@.rooms =~= before.rooms.update(k as int, entry));
            k = k + 1;
        }
    }

    /// Restore the progress `snapshot` captured onto this (freshly built)
    /// world. An id the snapshot mentions that the world no longer has is
    /// skipped; an object the snapshot never mentions keeps its place.
    pub fn apply_snapshot(&mut self, snapshot: WorldSnapshot)
        requires
            old(self).wf(),
        ensures
            final(self).wf(),
            restore_post(old(self)@, final(self)@, snapshot),
    {
        let ghost s = snapshot;
        let WorldSnapshot {
            flags,
            current_room,
            inventory,
            rooms,
            locked_doors,
            fired_triggers,
            dialogue_state,
            active_npc,
        } = snapshot;
        self.flags = flags;
        self.fired_triggers = fired_triggers;
        self.dialogue_state = dialogue_state;
        self.active_npc = active_npc;
        let ghost start = self@;
        let ghost mut worlds: Seq<WorldView> = seq![self@];
        let ghost mut steps: Seq<(ObjectId, Destination)> = Seq::empty();
        let mut i: usize = 0;
        assert(rooms@.take(0) =~= Seq::<(RoomId, RoomSnapshot)>::empty());
        while i < rooms.len()
            invariant
                self.wf(),
                i <= rooms@.len(),
                rooms@ == s.rooms@,
                steps == rooms_plan(rooms@.take(i as int)),
                is_place_trace(steps, worlds),
                worlds[0] == start,
                worlds.last() == self@,
            decreases rooms@.len() - i,
        {
            let room_id = &rooms[i].0;
            let room_snapshot = &rooms[i].1;
            let ghost base = steps;
            let mut j: usize = 0;
            assert(room_snapshot.visible@.take(0) =~= Seq::<ObjectId>::empty());
            while j < room_snapshot.visible.len()
                invariant
                    self.wf(),
                    j <= room_snapshot.visible@.len(),
                    steps == base + room_snapshot.visible@.take(j as int).map_values(
                        |id: ObjectId| (id, Destination::Visible(*room_id)),
                    ),
                    is_place_trace(steps, worlds),
                    worlds[0] == start,
                    worlds.last() == self@,
                decreases room_snapshot.visible@.len() - j,
            {
                let dest = Destination::Visible(room_id.clone());
                let ghost pre = self@;
                self.place_object(&room_snapshot.visible[j], &dest);
                proof {
                    lemma_trace_push(steps, worlds, room_snapshot.visible@[j as int], dest, self@);
                    worlds = worlds.push(self@);
                    steps = steps.push((room_snapshot.visible@[j as int], dest));
                    assert(steps =~= base + room_snapshot.visible@.take(j + 1).map_values(
                        |id: ObjectId| (id, Destination::Visible(*room_id)),
                    ));
                }
                j = j + 1;
            }
            assert(room_snapshot.visible@.take(room_snapshot.visible@.len() as int) =~= room_snapshot.visible@);
            let ghost mid = steps;
            let mut j: usize = 0;
            assert(room_snapshot.hidden@.take(0) =~= Seq::<ObjectId>::empty());
            while j < room_snapshot.hidden.len()
                invariant
                    self.wf(),
                    j <= room_snapshot.hidden@.len(),
                    steps == mid + room_snapshot.hidden@.take(j as int).map_values(
                        |id: ObjectId| (id, Destination::Hidden(*room_id)),
                    ),
                    is_place_trace(steps, worlds),
                    worlds[0] == start,
                    worlds.last() == self@,
                decreases room_snapshot.hidden@.len() - j,
            {
                let dest = Destination::Hidden(room_id.clone());
                self.place_object(&room_snapshot.hidden[j], &dest);
                proof {
                    lemma_trace_push(steps, worlds, room_snapshot.hidden@[j as int], dest, self@);
                    worlds = worlds.push(self@);
                    steps = steps.push((room_snapshot.hidden@[j as int], dest));
                    assert(steps =~= mid + room_snapshot.hidden@.take(j + 1).map_values(
                        |id: ObjectId| (id, Destination::Hidden(*room_id)),
                    ));
                }
                j = j + 1;
            }
            assert(room_snapshot.hidden@.take(room_snapshot.hidden@.len() as int) =~= room_snapshot.hidden@);
            proof {
                let t = rooms@.take(i + 1);
                assert(t.drop_last() =~= rooms@.take(i as int));
                assert(t.last() == rooms@[i as int]);
                assert(steps == rooms_plan(t));
            }
            i = i + 1;
        }
        assert(rooms@.take(rooms@.len() as int) =~= rooms@);
        let ghost base = steps;
        let mut j: usize = 0;
        assert(inventory@.take(0) =~= Seq::<ObjectId>::empty());
        while j < inventory.len()
            invariant
                self.wf(),
                j <= inventory@.len(),
                inventory@ == s.inventory@,
                steps == base + inventory@.take(j as int).map_values(
                    |id: ObjectId| (id, Destination::Carried),
                ),
                is_place_trace(steps, worlds),
                worlds[0] == start,
                worlds.last() == self@,
            decreases inventory@.len() - j,
        {
            let dest = Destination::Carried;
            self.place_object(&inventory[j], &dest);
            proof {
                lemma_trace_push(steps, worlds, inventory@[j as int], dest, self@);
                worlds = worlds.push(self@);
                steps = steps.push((inventory@[j as int], dest));
                assert(steps =~= base + inventory@.take(j + 1).map_values(
                    |id: ObjectId| (id, Destination::Carried),
                ));
            }
            j = j + 1;
        }
        assert(inventory@.take(inventory@.len() as int) =~= inventory@);
        assert(steps == plan_of(s));
        let ghost placed_world = self@;
        self.set_all_locks(&locked_doors);
        let ghost relocked = self@;
        proof {
            lemma_first_index(self@.rooms, room_key_is(current_room@));
        }
        match super::room_position(&self.rooms, &current_room) {
            Some(k) => {
                self.current = k;
            },
            None => {},
        }
        assert(relocked_world(worlds.last(), relocked, s.locked_doors@));
    }
}

/// The progress a move never touches: flags, fired triggers, dialogue and
/// the authored content stay; the rooms keep their keys and number.
pub open spec fn progress_kept(pre: WorldView, post: WorldView) -> bool {
    &&& post.flags == pre.flags
    &&& post.fired == pre.fired
    &&& post.dialogue == pre.dialogue
    &&& post.active_npc == pre.active_npc
    &&& post.current == pre.current
    &&& post.rooms.len() == pre.rooms.len()
    &&& forall|k: int| 0 <= k < pre.rooms.len() ==> (#[trigger] post.rooms[k]).0 == pre.rooms[k].0
}

proof fn lemma_place_keeps_progress(pre: WorldView, post: WorldView, id: ObjectId, dest: Destination)
    requires
        place_post(pre, post, id, dest),
    ensures
        progress_kept(pre, post),
{
    let (mid, r) = choose|mid: WorldView, r: Option<Object>|
        #[trigger] take_anywhere_post(pre, mid, id@, r) && placed(mid, post, r, dest);
    assert(progress_kept(pre, mid));
    assert(progress_kept(mid, post));
}

proof fn lemma_trace_keeps_progress(plan: Seq<(ObjectId, Destination)>, worlds: Seq<WorldView>, n: int)
    requires
        is_place_trace(plan, worlds),
        0 <= n <= plan.len(),
    ensures
        progress_kept(worlds[0], worlds[n]),
    decreases n,
{
    if n > 0 {
        let m = n - 1;
        lemma_trace_keeps_progress(plan, worlds, m);
        assert(place_post(worlds[m], worlds[m + 1], plan[m].0, plan[m].1));
        lemma_place_keeps_progress(worlds[m], worlds[m + 1], plan[m].0, plan[m].1);
    }
}

/// Restoring a snapshot brings back the saved flags, fired triggers,
/// dialogue progress and active NPC, and, when the world has the saved room,
/// puts the player in it.
pub proof fn law_restore_brings_back_progress(saved: WorldView, snapshot: WorldSnapshot, fresh: WorldView, post: WorldView)
    requires
        saved.wf(),
        is_snapshot_of(saved, snapshot),
        restore_post(fresh, post, snapshot),
    ensures
        post.flags == saved.flags,
        post.fired == saved.fired,
        post.dialogue == saved.dialogue,
        post.active_npc == saved.active_npc,
        room_index(fresh.rooms, saved.cur_room_id()@) >= 0 ==> post.cur_room_id()@ == saved.cur_room_id()@,
{
    let (worlds, relocked) = choose|worlds: Seq<WorldView>, relocked: WorldView|
        #![trigger is_place_trace(plan_of(snapshot), worlds), relocked_world(worlds.last(), relocked, snapshot.locked_doors@)]
        is_place_trace(plan_of(snapshot), worlds) && worlds[0] == (WorldView {
            flags: snapshot.flags@,
            fired: snapshot.fired_triggers@,
            dialogue: snapshot.dialogue_state@,
            active_npc: snapshot.active_npc,
            ..fresh
        }) && relocked_world(worlds.last(), relocked, snapshot.locked_doors@) && post == (WorldView {
            current: if room_index(relocked.rooms, snapshot.current_room@) >= 0 {
                room_index(relocked.rooms, snapshot.current_room@)
            } else {
                relocked.current
            },
            ..relocked
        });
    let plan = plan_of(snapshot);
    lemma_trace_keeps_progress(plan, worlds, plan.len() as int);
    assert(worlds.last() == worlds[plan.len() as int]);
    let cur = saved.cur_room_id()@;
    if room_index(fresh.rooms, cur) >= 0 {
        assert(relocked.rooms.len() == fresh.rooms.len());
        assert forall|k: int| 0 <= k < fresh.rooms.len() implies (#[trigger] relocked.rooms[k]).0 == fresh.rooms[k].0 by {
            assert(worlds.last().rooms[k].0 == fresh.rooms[k].0);
        }
        assert(relocked.rooms.map_values(|e: (RoomId, Room)| e.0) =~= fresh.rooms.map_values(|e: (RoomId, Room)| e.0));
        lemma_room_index_by_keys(fresh.rooms, relocked.rooms, cur);
        lemma_first_index(relocked.rooms, room_key_is(cur));
    }
}

/// Where a room key is found depends on the keys alone.
pub proof fn lemma_room_index_by_keys(a: Seq<(RoomId, Room)>, b: Seq<(RoomId, Room)>, key: Seq<char>)
    requires
        a.len() == b.len(),
        forall|k: int| 0 <= k < a.len() ==> (#[trigger] b[k]).0 == a[k].0,
    ensures
        room_index(a, key) == room_index(b, key),
    decreases a.len(),
{
    if a.len() > 0 {
        lemma_room_index_by_keys(a.drop_last(), b.drop_last(), key);
        assert(a.last().0 == b.last().0);
    }
}

/// Two saves of the same unchanged state agree entry for entry, so the saved
/// text of one state never changes between saves.
pub proof fn law_saves_of_one_state_agree(w: WorldView, first: WorldSnapshot, second: WorldSnapshot)
    requires
        is_snapshot_of(w, first),
        is_snapshot_of(w, second),
    ensures
        first.flags@ == second.flags@,
        first.current_room == second.current_room,
        first.inventory@ == second.inventory@,
        first.rooms@.len() == second.rooms@.len(),
        forall|i: int|
            0 <= i < first.rooms@.len() ==> {
                &&& (#[trigger] first.rooms@[i]).0 == second.rooms@[i].0
                &&& first.rooms@[i].1.visible@ == second.rooms@[i].1.visible@
                &&& first.rooms@[i].1.hidden@ == second.rooms@[i].1.hidden@
            },
        first.locked_doors@ == second.locked_doors@,
        first.fired_triggers@ == second.fired_triggers@,
        first.dialogue_state@ == second.dialogue_state@,
        first.active_npc == second.active_npc,
{
    assert forall|i: int| 0 <= i < first.rooms@.len() implies {
        &&& (#[trigger] first.rooms@[i]).0 == second.rooms@[i].0
        &&& first.rooms@[i].1.visible@ == second.rooms@[i].1.visible@
        &&& first.rooms@[i].1.hidden@ == second.rooms@[i].1.hidden@
    } by {
        assert(second.rooms@[i].0 == w.rooms[i].0);
    }
}

} // verus!
