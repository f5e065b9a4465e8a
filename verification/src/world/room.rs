use vstd::prelude::*;

use crate::input::direction::{Direction, DirectionResolution};
use crate::keys::{ObjectId, Resolution, RoomId};
use crate::world::object::{
    contains_id, find_by_id_spec, index_of_id, info_of, lemma_index_of_id, matching_ids,
    position_of, remove_by_id, resolves_to, without_id, DoorState, Object, ObjectInfo,
    ObjectResolution,
};

verus! {

/// The direction a door object occupies, if it is a door.
pub open spec fn door_direction(o: Object) -> Option<Direction> {
    match o.door {
        Some(ds) => Some(ds.direction),
        None => None,
    }
}

/// The id of the last door in `objs` that occupies `direction`: the one a
/// room built from `objs` indexes under that direction.
pub open spec fn last_door(objs: Seq<Object>, direction: Direction) -> Option<ObjectId>
    decreases objs.len(),
{
    if objs.len() == 0 {
        None
    } else if door_direction(objs.last()) == Some(direction) {
        Some(objs.last().id)
    } else {
        last_door(objs.drop_last(), direction)
    }
}

/// The door `objs` index for `direction` when scanned after an index that
/// already held `prev`.
pub open spec fn last_door_after(prev: Option<ObjectId>, objs: Seq<Object>, direction: Direction) -> Option<
    ObjectId,
> {
    match last_door(objs, direction) {
        Some(id) => Some(id),
        None => prev,
    }
}

/// Scanning two lists in turn indexes what scanning their concatenation does.
pub proof fn lemma_last_door_concat(a: Seq<Object>, b: Seq<Object>, direction: Direction)
    ensures
        last_door(a + b, direction) == last_door_after(last_door(a, direction), b, direction),
    decreases b.len(),
{
    if b.len() == 0 {
        assert(a + b =~= a);
    } else {
        assert((a + b).drop_last() =~= a + b.drop_last());
        assert((a + b).last() == b.last());
        lemma_last_door_concat(a, b.drop_last(), direction);
    }
}

/// A door index under construction.
struct DoorSlots {
    north: Option<ObjectId>,
    south: Option<ObjectId>,
    east: Option<ObjectId>,
    west: Option<ObjectId>,
}

impl DoorSlots {
    spec fn slot(&self, direction: Direction) -> Option<ObjectId> {
        match direction {
            Direction::North => self.north,
            Direction::South => self.south,
            Direction::East => self.east,
            Direction::West => self.west,
        }
    }

    /// Index every door of `objs`, in order.
    fn index(&mut self, objs: &Vec<Object>)
        ensures
            forall|d: Direction| #[trigger]
                final(self).slot(d) == last_door_after(old(self).slot(d), objs@, d),
    {
        let ghost start = *self;
        let mut i: usize = 0;
        while i < objs.len()
            invariant
                i <= objs@.len(),
                forall|d: Direction| #[trigger]
                    self.slot(d) == last_door_after(start.slot(d), objs@.take(i as int), d),
            decreases objs@.len() - i,
        {
            let object = &objs[i];
            let ghost pre = *self;
            assert(objs@.take(i + 1).drop_last() =~= objs@.take(i as int));
            assert(objs@.take(i + 1).last() == objs@[i as int]);
            match &object.door {
                Some(door) => {
                    let id = object.id.clone();
                    match door.direction {
                        Direction::North => self.north = Some(id),
                        Direction::South => self.south = Some(id),
                        Direction::East => self.east = Some(id),
                        Direction::West => self.west = Some(id),
                    }
                },
                None => {},
            }
            proof {
                assert forall|d: Direction| #[trigger]
                    self.slot(d) == last_door_after(start.slot(d), objs@.take(i + 1), d) by {
                    let s = objs@.take(i + 1);
                    assert(pre.slot(d) == last_door_after(start.slot(d), objs@.take(i as int), d));
                    if door_direction(objs@[i as int]) == Some(d) {
                        assert(self.slot(d) == Some(objs@[i as int].id));
                    } else {
                        assert(self.slot(d) == pre.slot(d));
                    }
                    assert(last_door(s, d) == if door_direction(s.last()) == Some(d) {
                        Some(s.last().id)
                    } else {
                        last_door(s.drop_last(), d)
                    });
                }
            }
            i = i + 1;
        }
        assert(objs@.take(objs@.len() as int) =~= objs@);
    }
}

/// `o` with its door (if any) set to the lock state `locked`.
pub open spec fn with_lock(o: Object, locked: bool) -> Object {
    Object {
        id: o.id,
        primary_name: o.primary_name,
        aliases: o.aliases,
        kind: o.kind,
        door: match o.door {
            Some(ds) => Some(DoorState { direction: ds.direction, to: ds.to, locked }),
            None => None,
        },
    }
}

/// The effect of setting the lock of the door in `direction` to `locked` on
/// a room: where the door exists with the other state it changes and the
/// call reports `Found`, otherwise nothing changes and it reports `NotFound`.
pub open spec fn relock_post(pre: Room, post: Room, direction: Direction, locked: bool, r: DirectionResolution) -> bool {
    &&& pre.relock_applies(direction, locked) ==> {
        &&& r == DirectionResolution::Found(direction)
        &&& (post.visible(), post.hidden()) == pre.relocked(direction, locked)
    }
    &&& !pre.relock_applies(direction, locked) ==> {
        &&& r == DirectionResolution::NotFound
        &&& post == pre
    }
    &&& post.same_slots(&pre)
}

/// The effect of hiding the exit in `direction`: a visible door moves to the
/// end of the hidden list; otherwise nothing changes.
pub open spec fn hide_exit_post(pre: Room, post: Room, direction: Direction, r: DirectionResolution) -> bool {
    &&& match pre.door_slot(direction) {
        Some(id) => if !pre.exit_hidden_spec(direction) && contains_id(pre.visible(), id@) {
            &&& r == DirectionResolution::Found(direction)
            &&& post.visible() == without_id(pre.visible(), id@)
            &&& post.hidden() == pre.hidden().push(find_by_id_spec(pre.visible(), id@)->0)
        } else {
            &&& r == DirectionResolution::NotFound
            &&& post == pre
        },
        None => {
            &&& r == DirectionResolution::NotFound
            &&& post == pre
        },
    }
    &&& post.same_slots(&pre)
}

/// The effect of revealing the exit in `direction`: a hidden door moves to
/// the end of the visible list; otherwise nothing changes.
pub open spec fn reveal_exit_post(pre: Room, post: Room, direction: Direction, r: DirectionResolution) -> bool {
    &&& match pre.door_slot(direction) {
        Some(id) => if pre.exit_hidden_spec(direction) {
            &&& r == DirectionResolution::Found(direction)
            &&& post.visible() == pre.visible().push(find_by_id_spec(pre.hidden(), id@)->0)
            &&& post.hidden() == without_id(pre.hidden(), id@)
        } else {
            &&& r == DirectionResolution::NotFound
            &&& post == pre
        },
        None => {
            &&& r == DirectionResolution::NotFound
            &&& post == pre
        },
    }
    &&& post.same_slots(&pre)
}

/// The effect of revealing the object `id`: a hidden object with that id
/// moves to the end of the visible list; otherwise nothing changes.
pub open spec fn reveal_object_post(pre: Room, post: Room, id: ObjectId, r: ObjectResolution) -> bool {
    &&& match find_by_id_spec(pre.hidden(), id@) {
        Some(o) => {
            &&& r == Resolution::Found(id)
            &&& post.visible() == pre.visible().push(o)
            &&& post.hidden() == without_id(pre.hidden(), id@)
        },
        None => {
            &&& r is NotFound
            &&& post == pre
        },
    }
    &&& post.same_slots(&pre)
}

/// The effect of hiding the object `id`: a visible object with that id
/// moves to the end of the hidden list; otherwise nothing changes.
pub open spec fn hide_object_post(pre: Room, post: Room, id: ObjectId, r: ObjectResolution) -> bool {
    &&& match find_by_id_spec(pre.visible(), id@) {
        Some(o) => {
            &&& r == Resolution::Found(id)
            &&& post.visible() == without_id(pre.visible(), id@)
            &&& post.hidden() == pre.hidden().push(o)
        },
        None => {
            &&& r is NotFound
            &&& post == pre
        },
    }
    &&& post.same_slots(&pre)
}

/// `new` is `old` with the first visible object of id `id` taken out.
pub open spec fn remove_visible_post(pre: Room, post: Room, id: Seq<char>, removed: Option<Object>) -> bool {
    &&& removed == find_by_id_spec(pre.visible(), id)
    &&& removed is None ==> post == pre
    &&& post.visible() == without_id(pre.visible(), id)
    &&& post.hidden() == pre.hidden()
    &&& post.same_slots(&pre)
}

/// `new` is `old` with `o` added at the end of the visible list.
pub open spec fn add_visible_post(pre: Room, post: Room, o: Object) -> bool {
    &&& post.visible() == pre.visible().push(o)
    &&& post.hidden() == pre.hidden()
    &&& post.same_slots(&pre)
}

/// A single room: its visible and hidden objects, plus a door index by
/// direction derived from them when the room is built.
#[derive(Debug)]
pub struct Room {
    objects: Vec<Object>,
    hidden_objects: Vec<Object>,
    north: Option<ObjectId>,
    south: Option<ObjectId>,
    east: Option<ObjectId>,
    west: Option<ObjectId>,
}

impl Room {
    /// The objects the player can see, in order.
    pub closed spec fn visible(&self) -> Seq<Object> {
        self.objects@
    }

    /// The objects present but not yet revealed, in order.
    pub closed spec fn hidden(&self) -> Seq<Object> {
        self.hidden_objects@
    }

    /// The id the door index holds for `direction`.
    pub closed spec fn door_slot(&self, direction: Direction) -> Option<ObjectId> {
        match direction {
            Direction::North => self.north,
            Direction::South => self.south,
            Direction::East => self.east,
            Direction::West => self.west,
        }
    }

    /// The first object with `id`, looking at visible objects before hidden
    /// ones.
    pub open spec fn find_any_spec(&self, id: Seq<char>) -> Option<Object> {
        if contains_id(self.visible(), id) {
            find_by_id_spec(self.visible(), id)
        } else {
            find_by_id_spec(self.hidden(), id)
        }
    }

    /// The door object the index names for `direction`, visible or hidden.
    pub open spec fn door_object(&self, direction: Direction) -> Option<Object> {
        match self.door_slot(direction) {
            Some(id) => self.find_any_spec(id@),
            None => None,
        }
    }

    /// Whether the door in `direction` exists and is locked.
    pub open spec fn exit_locked_spec(&self, direction: Direction) -> bool {
        self.door_object(direction) matches Some(o) && o.door matches Some(ds) && ds.locked
    }

    /// Whether the door in `direction` is one of the hidden objects.
    pub open spec fn exit_hidden_spec(&self, direction: Direction) -> bool {
        self.door_slot(direction) matches Some(id) && contains_id(self.hidden(), id@)
    }

    /// Where an open (present, unlocked, visible) exit in `direction` leads.
    pub open spec fn open_exit_spec(&self, direction: Direction) -> Option<RoomId> {
        match self.door_object(direction) {
            Some(o) => match o.door {
                Some(ds) => if ds.locked || self.exit_hidden_spec(direction) {
                    None
                } else {
                    Some(ds.to)
                },
                None => None,
            },
            None => None,
        }
    }

    /// Whether the exit in `direction` can be walked through.
    pub open spec fn passable_spec(&self, direction: Direction) -> bool {
        self.door_object(direction) is Some && !self.exit_locked_spec(direction)
            && !self.exit_hidden_spec(direction)
    }

    /// The passable directions, in the order north, south, east, west.
    pub open spec fn exit_directions_spec(&self) -> Seq<Direction> {
        let n: Seq<Direction> = if self.passable_spec(Direction::North) {
            seq![Direction::North]
        } else {
            seq![]
        };
        let s: Seq<Direction> = if self.passable_spec(Direction::South) {
            seq![Direction::South]
        } else {
            seq![]
        };
        let e: Seq<Direction> = if self.passable_spec(Direction::East) {
            seq![Direction::East]
        } else {
            seq![]
        };
        let w: Seq<Direction> = if self.passable_spec(Direction::West) {
            seq![Direction::West]
        } else {
            seq![]
        };
        n + s + e + w
    }

    /// Whether setting the lock of the door in `direction` to `locked` changes
    /// anything: the door exists and currently has the other state.
    pub open spec fn relock_applies(&self, direction: Direction, locked: bool) -> bool {
        self.door_object(direction) matches Some(o) && o.door matches Some(ds) && ds.locked
            != locked
    }

    /// The two object lists after the door in `direction` is set to `locked`:
    /// the object is changed where it lives, visible or hidden.
    pub open spec fn relocked(&self, direction: Direction, locked: bool) -> (
        Seq<Object>,
        Seq<Object>,
    ) {
        let id = self.door_slot(direction)->0@;
        if contains_id(self.visible(), id) {
            let k = index_of_id(self.visible(), id);
            (self.visible().update(k, with_lock(self.visible()[k], locked)), self.hidden())
        } else {
            let k = index_of_id(self.hidden(), id);
            (self.visible(), self.hidden().update(k, with_lock(self.hidden()[k], locked)))
        }
    }

    /// `self` and `other` index the same doors.
    pub open spec fn same_slots(&self, other: &Room) -> bool {
        forall|d: Direction| #[trigger] self.door_slot(d) == other.door_slot(d)
    }

    /// Build a room, indexing its door objects (visible and hidden) by
    /// direction; a later door in the same direction wins.
    pub fn new(objects: Vec<Object>, hidden_objects: Vec<Object>) -> (room: Self)
        ensures
            room.visible() == objects@,
            room.hidden() == hidden_objects@,
            forall|d: Direction| #[trigger]
                room.door_slot(d) == last_door(objects@ + hidden_objects@, d),
    {
        let mut doors = DoorSlots { north: None, south: None, east: None, west: None };
        doors.index(&objects);
        doors.index(&hidden_objects);
        proof {
            assert forall|d: Direction| #[trigger]
                doors.slot(d) == last_door(objects@ + hidden_objects@, d) by {
                lemma_last_door_concat(objects@, hidden_objects@, d);
                assert(last_door_after(None, objects@, d) == last_door(objects@, d));
            }
        }
        Room {
            objects,
            hidden_objects,
            north: doors.north,
            south: doors.south,
            east: doors.east,
            west: doors.west,
        }
    }

    /// A room with no objects and no doors.
    pub fn empty() -> (room: Self)
        ensures
            room.visible() == Seq::<Object>::empty(),
            room.hidden() == Seq::<Object>::empty(),
            forall|d: Direction| #[trigger] room.door_slot(d) is None,
    {
        Room {
            objects: Vec::new(),
            hidden_objects: Vec::new(),
            north: None,
            south: None,
            east: None,
            west: None,
        }
    }

    /// The visible objects.
    pub fn objects(&self) -> (objects: &Vec<Object>)
        ensures
            objects@ == self.visible(),
    {
        &self.objects
    }

    /// The hidden objects.
    pub fn hidden_objects(&self) -> (objects: &Vec<Object>)
        ensures
            objects@ == self.hidden(),
    {
        &self.hidden_objects
    }

    /// Find a *visible* object by id.
    pub fn get_object(&self, id: &ObjectId) -> (r: ObjectResolution)
        ensures
            match find_by_id_spec(self.visible(), id@) {
                Some(o) => r == Resolution::Found(o.id),
                None => r is NotFound,
            },
    {
        proof {
            lemma_index_of_id(self.objects@, id@);
        }
        match position_of(&self.objects, id) {
            Some(k) => Resolution::Found(self.objects[k].id.clone()),
            None => Resolution::NotFound,
        }
    }

    /// Resolve `name` against the room's *visible* objects.
    pub fn find_object(&self, name: &str) -> (r: ObjectResolution)
        ensures
            resolves_to(matching_ids(self.visible(), name@), name@, r),
    {
        Object::resolve_by_name(self.objects.as_slice(), name)
    }

    /// Whether the *visible* object with `id` is in this room.
    pub fn holds(&self, id: &ObjectId) -> (b: bool)
        ensures
            b == contains_id(self.visible(), id@),
    {
        proof {
            lemma_index_of_id(self.objects@, id@);
        }
        position_of(&self.objects, id).is_some()
    }

    /// Find an object by id across visible and hidden contents.
    pub fn find_any(&self, id: &ObjectId) -> (found: Option<&Object>)
        ensures
            match self.find_any_spec(id@) {
                Some(o) => found == Some(&o),
                None => found is None,
            },
    {
        proof {
            lemma_index_of_id(self.objects@, id@);
            lemma_index_of_id(self.hidden_objects@, id@);
        }
        match position_of(&self.objects, id) {
            Some(k) => Some(&self.objects[k]),
            None => match position_of(&self.hidden_objects, id) {
                Some(k) => Some(&self.hidden_objects[k]),
                None => None,
            },
        }
    }

    /// The contents of `self` with the object `id` names, visible or hidden,
    /// replaced by `object`.
    pub open spec fn with_object(&self, id: Seq<char>, object: Object) -> (Seq<Object>, Seq<Object>) {
        if contains_id(self.visible(), id) {
            (self.visible().update(index_of_id(self.visible(), id), object), self.hidden())
        } else {
            (self.visible(), self.hidden().update(index_of_id(self.hidden(), id), object))
        }
    }

    /// A mutable handle on the object `id` names, visible or hidden; what is
    /// written through it lands in the room.
    pub fn find_any_mut(&mut self, id: &ObjectId) -> (found: Option<&mut Object>)
        ensures
            match old(self).find_any_spec(id@) {
                Some(o) => found matches Some(r) && *r == o && (final(self).visible(), final(self).hidden())
                    == old(self).with_object(id@, *final(r)) && final(self).same_slots(&*old(self)),
                None => found is None && *final(self) == *old(self),
            },
    {
        proof {
            lemma_index_of_id(self.objects@, id@);
            lemma_index_of_id(self.hidden_objects@, id@);
        }
        match position_of(&self.objects, id) {
            Some(k) => Some(&mut self.objects[k]),
            None => match position_of(&self.hidden_objects, id) {
                Some(k) => Some(&mut self.hidden_objects[k]),
                None => None,
            },
        }
    }

    /// Add an object to the visible list.
    pub fn add_object(&mut self, object: Object)
        ensures
            add_visible_post(*old(self), *final(self), object),
    {
        self.objects.push(object);
    }

    /// Add an object to the hidden list.
    pub fn add_hidden_object(&mut self, object: Object)
        ensures
            final(self).visible() == old(self).visible(),
            final(self).hidden() == old(self).hidden().push(object),
            final(self).same_slots(old(self)),
    {
        self.hidden_objects.push(object);
    }

    /// Take the visible object with `id` out of the room.
    pub fn remove_object(&mut self, id: &ObjectId) -> (removed: Option<Object>)
        ensures
            remove_visible_post(*old(self), *final(self), id@, removed),
    {
        Room::remove_object_from_list(&mut self.objects, id)
    }

    /// Take the hidden object with `id` out of the room.
    pub fn remove_hidden_object(&mut self, id: &ObjectId) -> (removed: Option<Object>)
        ensures
            removed == find_by_id_spec(old(self).hidden(), id@),
            removed is None ==> *final(self) == *old(self),
            final(self).visible() == old(self).visible(),
            final(self).hidden() == without_id(old(self).hidden(), id@),
            final(self).same_slots(old(self)),
    {
        Room::remove_object_from_list(&mut self.hidden_objects, id)
    }

    fn remove_object_from_list(objects: &mut Vec<Object>, id: &ObjectId) -> (removed: Option<
        Object,
    >)
        ensures
            removed == find_by_id_spec(old(objects)@, id@),
            removed is None ==> *final(objects) == *old(objects),
            final(objects)@ == without_id(old(objects)@, id@),
    {
        remove_by_id(objects, id)
    }

    /// Move the hidden object with `id` to the visible list.
    pub fn reveal_object(&mut self, id: &ObjectId) -> (r: ObjectResolution)
        ensures
            reveal_object_post(*old(self), *final(self), *id, r),
    {
        proof {
            lemma_index_of_id(self.hidden_objects@, id@);
        }
        let removed = self.remove_hidden_object(id);
        match removed {
            Some(object) => {
                self.add_object(object);
                Resolution::Found(id.clone())
            },
            None => Resolution::NotFound,
        }
    }

    /// Move the visible object with `id` to the hidden list.
    pub fn hide_object(&mut self, id: &ObjectId) -> (r: ObjectResolution)
        ensures
            hide_object_post(*old(self), *final(self), *id, r),
    {
        proof {
            lemma_index_of_id(self.objects@, id@);
        }
        let removed = self.remove_object(id);
        match removed {
            Some(object) => {
                self.add_hidden_object(object);
                Resolution::Found(id.clone())
            },
            None => Resolution::NotFound,
        }
    }
}

/// Door state and exit queries.
impl Room {
    /// The id of the scene object occupying `direction`, if any.
    pub fn door_id(&self, direction: Direction) -> (id: Option<ObjectId>)
        ensures
            id == self.door_slot(direction),
    {
        let slot = match direction {
            Direction::North => &self.north,
            Direction::South => &self.south,
            Direction::East => &self.east,
            Direction::West => &self.west,
        };
        match slot {
            Some(id) => Some(id.clone()),
            None => None,
        }
    }

    /// The door object occupying `direction`, if any (visible or hidden).
    pub fn door_in_direction(&self, direction: Direction) -> (door: Option<&Object>)
        ensures
            match self.door_object(direction) {
                Some(o) => door == Some(&o),
                None => door is None,
            },
    {
        match self.door_id(direction) {
            Some(id) => self.find_any(&id),
            None => None,
        }
    }

    /// The destination of an *open* exit in `direction`, if one exists.
    /// Hidden and locked exits resolve to `None`, as if no exit were there.
    pub fn get_room_id_by_exit_direction(&self, direction: Direction) -> (room: Option<RoomId>)
        ensures
            room == self.open_exit_spec(direction),
    {
        let door = match self.door_in_direction(direction) {
            Some(door) => door,
            None => return None,
        };
        let state = match &door.door {
            Some(state) => state,
            None => return None,
        };
        if state.locked || self.is_exit_hidden(direction) {
            None
        } else {
            Some(state.to.clone())
        }
    }

    /// Whether the door in `direction` exists and is locked.
    pub fn is_exit_locked(&self, direction: Direction) -> (b: bool)
        ensures
            b == self.exit_locked_spec(direction),
    {
        match self.door_in_direction(direction) {
            Some(object) => match &object.door {
                Some(door) => door.locked,
                None => false,
            },
            None => false,
        }
    }

    /// Whether the door in `direction` is hidden: it exists, but lives in the
    /// room's hidden objects until revealed.
    pub fn is_exit_hidden(&self, direction: Direction) -> (b: bool)
        ensures
            b == self.exit_hidden_spec(direction),
    {
        proof {
            lemma_index_of_id(self.hidden_objects@, self.door_slot(direction)->0@);
        }
        match self.door_id(direction) {
            Some(id) => position_of(&self.hidden_objects, &id).is_some(),
            None => false,
        }
    }

    fn passable(&self, direction: Direction) -> (b: bool)
        ensures
            b == self.passable_spec(direction),
    {
        self.door_in_direction(direction).is_some() && !self.is_exit_locked(direction)
            && !self.is_exit_hidden(direction)
    }

    /// Directions leading to an *open* (passable) exit in this room, in the
    /// order north, south, east, west.
    pub fn exit_directions(&self) -> (directions: Vec<Direction>)
        ensures
            directions@ == self.exit_directions_spec(),
    {
        let mut directions: Vec<Direction> = Vec::new();
        if self.passable(Direction::North) {
            directions.push(Direction::North);
        }
        let ghost n = directions@;
        if self.passable(Direction::South) {
            directions.push(Direction::South);
        }
        let ghost s = directions@;
        if self.passable(Direction::East) {
            directions.push(Direction::East);
        }
        let ghost e = directions@;
        if self.passable(Direction::West) {
            directions.push(Direction::West);
        }
        assert(directions@ =~= self.exit_directions_spec());
        directions
    }

    /// Public view of the door object in `direction`, if any (visible or
    /// hidden).
    pub fn door_in_direction_info(&self, direction: Direction) -> (info: Option<ObjectInfo>)
        ensures
            match self.door_object(direction) {
                Some(o) => info matches Some(i) && info_of(o, i),
                None => info is None,
            },
    {
        match self.door_in_direction(direction) {
            Some(object) => Some(ObjectInfo::from_object(object)),
            None => None,
        }
    }

    /// Set the lock of the door in `direction` to `locked`, where it has the
    /// other state.
    fn set_exit_lock(&mut self, direction: Direction, locked: bool) -> (r: DirectionResolution)
        ensures
            relock_post(*old(self), *final(self), direction, locked, r),
    {
        let id = match self.door_id(direction) {
            Some(id) => id,
            None => return DirectionResolution::NotFound,
        };
        proof {
            lemma_index_of_id(self.objects@, id@);
            lemma_index_of_id(self.hidden_objects@, id@);
        }
        match position_of(&self.objects, &id) {
            Some(k) => {
                if Room::lock_differs(&self.objects[k], locked) {
                    let mut object = self.objects.remove(k);
                    Room::relock(&mut object, locked);
                    self.objects.insert(k, object);
                    assert(self.objects@ =~= old(self).visible().update(
                        k as int,
                        with_lock(old(self).visible()[k as int], locked),
                    ));
                    DirectionResolution::Found(direction)
                } else {
                    DirectionResolution::NotFound
                }
            },
            None => match position_of(&self.hidden_objects, &id) {
                Some(k) => {
                    if Room::lock_differs(&self.hidden_objects[k], locked) {
                        let mut object = self.hidden_objects.remove(k);
                        Room::relock(&mut object, locked);
                        self.hidden_objects.insert(k, object);
                        assert(self.hidden_objects@ =~= old(self).hidden().update(
                            k as int,
                            with_lock(old(self).hidden()[k as int], locked),
                        ));
                        DirectionResolution::Found(direction)
                    } else {
                        DirectionResolution::NotFound
                    }
                },
                None => DirectionResolution::NotFound,
            },
        }
    }

    fn lock_differs(object: &Object, locked: bool) -> (b: bool)
        ensures
            b == (object.door matches Some(ds) && ds.locked != locked),
    {
        match &object.door {
            Some(door) => door.locked != locked,
            None => false,
        }
    }

    fn relock(object: &mut Object, locked: bool)
        ensures
            *final(object) == with_lock(*old(object), locked),
    {
        let door = object.door.take();
        object.door = match door {
            Some(ds) => Some(DoorState { direction: ds.direction, to: ds.to, locked }),
            None => None,
        };
    }

    /// Lock the door in `direction` (no-op if there is none, or it is
    /// already locked).
    pub fn lock_exit(&mut self, direction: Direction) -> (r: DirectionResolution)
        ensures
            relock_post(*old(self), *final(self), direction, true, r),
    {
        self.set_exit_lock(direction, true)
    }

    /// Unlock the door in `direction` (no-op if there is none, or it is
    /// already unlocked).
    pub fn unlock_exit(&mut self, direction: Direction) -> (r: DirectionResolution)
        ensures
            relock_post(*old(self), *final(self), direction, false, r),
    {
        self.set_exit_lock(direction, false)
    }

    /// Hide the door in `direction` by moving its object out of the visible
    /// contents. A door that is already hidden, or absent, is left alone.
    pub fn hide_exit(&mut self, direction: Direction) -> (r: DirectionResolution)
        ensures
            hide_exit_post(*old(self), *final(self), direction, r),
    {
        let id = match self.door_id(direction) {
            Some(id) => id,
            None => return DirectionResolution::NotFound,
        };
        if self.is_exit_hidden(direction) {
            return DirectionResolution::NotFound;
        }
        proof {
            lemma_index_of_id(self.objects@, id@);
        }
        match self.remove_object(&id) {
            Some(object) => {
                self.add_hidden_object(object);
                DirectionResolution::Found(direction)
            },
            None => DirectionResolution::NotFound,
        }
    }

    /// Reveal the hidden door in `direction` (no-op if there is none, or it
    /// is not hidden).
    pub fn reveal_exit(&mut self, direction: Direction) -> (r: DirectionResolution)
        ensures
            reveal_exit_post(*old(self), *final(self), direction, r),
    {
        let id = match self.door_id(direction) {
            Some(id) => id,
            None => return DirectionResolution::NotFound,
        };
        if !self.is_exit_hidden(direction) {
            return DirectionResolution::NotFound;
        }
        proof {
            lemma_index_of_id(self.hidden_objects@, id@);
        }
        match self.remove_hidden_object(&id) {
            Some(object) => {
                self.add_object(object);
                DirectionResolution::Found(direction)
            },
            None => DirectionResolution::NotFound,
        }
    }
}

impl Default for Room {
    fn default() -> (room: Self)
        ensures
            room.visible() == Seq::<Object>::empty(),
            room.hidden() == Seq::<Object>::empty(),
            forall|d: Direction| #[trigger] room.door_slot(d) is None,
    {
        Room::empty()
    }
}

/// Whether `locked` lists the id `id`.
pub open spec fn id_listed(locked: Seq<ObjectId>, id: Seq<char>) -> bool {
    exists|j: int| 0 <= j < locked.len() && (#[trigger] locked[j])@ == id
}

/// `o` with its door locked exactly when `locked` lists it; an object
/// without a door stays as it is.
pub open spec fn relocked_by(o: Object, locked: Seq<ObjectId>) -> Object {
    match o.door {
        Some(_) => with_lock(o, id_listed(locked, o.id@)),
        None => o,
    }
}

/// Every object of `objs` relocked by `locked`.
pub open spec fn relock_all(objs: Seq<Object>, locked: Seq<ObjectId>) -> Seq<Object> {
    objs.map_values(|o: Object| relocked_by(o, locked))
}

/// Whether `locked` lists the id `id`.
pub fn is_listed(locked: &Vec<ObjectId>, id: &ObjectId) -> (b: bool)
    ensures
        b == id_listed(locked@, id@),
{
    let mut j: usize = 0;
    while j < locked.len()
        invariant
            j <= locked@.len(),
            forall|m: int| 0 <= m < j ==> (#[trigger] locked@[m])@ != id@,
        decreases locked@.len() - j,
    {
        if locked[j] == *id {
            assert(locked@[j as int]@ == id@);
            return true;
        }
        j = j + 1;
    }
    false
}

/// The objects of `objs`, each relocked by `locked`.
pub fn relock_list(objs: Vec<Object>, locked: &Vec<ObjectId>) -> (out: Vec<Object>)
    ensures
        out@ == relock_all(objs@, locked@),
{
    let ghost orig = objs@;
    let mut rest = objs;
    let mut out: Vec<Object> = Vec::new();
    while rest.len() > 0
        invariant
            out@.len() + rest@.len() == orig.len(),
            rest@ == orig.skip(out@.len() as int),
            out@ == relock_all(orig.take(out@.len() as int), locked@),
        decreases rest@.len(),
    {
        let ghost n = out@.len() as int;
        let o = rest.remove(0);
        assert(o == orig[n]);
        let relocked = match o.door {
            Some(d) => {
                let l = is_listed(locked, &o.id);
                Object {
                    id: o.id,
                    primary_name: o.primary_name,
                    aliases: o.aliases,
                    kind: o.kind,
                    door: Some(DoorState { direction: d.direction, to: d.to, locked: l }),
                }
            },
            None => o,
        };
        out.push(relocked);
        assert(rest@ =~= orig.skip(n + 1));
        assert(out@ =~= relock_all(orig.take(n + 1), locked@));
    }
    assert(orig.take(orig.len() as int) =~= orig);
    out
}

impl Room {
    /// Set the lock of every door object, visible or hidden, to whether
    /// `locked` lists it.
    pub fn set_locks(&mut self, locked: &Vec<ObjectId>)
        ensures
            final(self).visible() == relock_all(old(self).visible(), locked@),
            final(self).hidden() == relock_all(old(self).hidden(), locked@),
            final(self).same_slots(old(self)),
    {
        let mut visible: Vec<Object> = Vec::new();
        std::mem::swap(&mut visible, &mut self.objects);
        self.objects = relock_list(visible, locked);
        let mut hidden: Vec<Object> = Vec::new();
        std::mem::swap(&mut hidden, &mut self.hidden_objects);
        self.hidden_objects = relock_list(hidden, locked);
    }
}

} // verus!
