use vstd::prelude::*;

use crate::data::door_data::DoorData;
use crate::data::object_data::{ObjectData, ObjectKind};
use crate::input::direction::{parse_direction, Direction};
use crate::keys::{ObjectId, Resolution, RoomId};
use crate::text::{clone_strings, contains_str, str_eq, strings_contain};

verus! {

/// Outcome of resolving a player-typed noun against the objects in scope.
pub type ObjectResolution = Resolution<ObjectId>;

/// A world object: gameplay "thing" that can be carried, examined and used.
/// Contains only *facts* (identity, names, kind, door state); all behaviour
/// lives in rules and interactions.
#[derive(Debug)]
pub struct Object {
    pub id: ObjectId,
    pub primary_name: String,
    pub aliases: Vec<String>,
    pub kind: ObjectKind,
    pub door: Option<DoorState>,
}

/// Runtime door state of a scene object: the direction it occupies, its
/// destination, and whether it is locked. Hidden-ness is *not* stored here:
/// a hidden door is simply an object living in the room's hidden list.
#[derive(Debug)]
pub struct DoorState {
    pub direction: Direction,
    pub to: RoomId,
    pub locked: bool,
}

impl Clone for DoorState {
    fn clone(&self) -> (copy: Self)
        ensures
            copy == *self,
    {
        DoorState { direction: self.direction, to: self.to.clone(), locked: self.locked }
    }
}

impl Clone for Object {
    fn clone(&self) -> (copy: Self)
        ensures
            copy@ == self@,
    {
        let door = match &self.door {
            Some(d) => Some(d.clone()),
            None => None,
        };
        Object {
            id: self.id.clone(),
            primary_name: self.primary_name.clone(),
            aliases: clone_strings(&self.aliases),
            kind: self.kind,
            door,
        }
    }
}

/// The plain-value picture of an object: the same fields, with the aliases
/// as a sequence.
pub struct ObjectView {
    pub id: ObjectId,
    pub primary_name: String,
    pub aliases: Seq<String>,
    pub kind: ObjectKind,
    pub door: Option<DoorState>,
}

impl View for Object {
    type V = ObjectView;

    open spec fn view(&self) -> ObjectView {
        ObjectView {
            id: self.id,
            primary_name: self.primary_name,
            aliases: self.aliases@,
            kind: self.kind,
            door: self.door,
        }
    }
}

/// Whether `name` is the object's primary name or one of its aliases.
pub open spec fn has_name_spec(o: Object, name: Seq<char>) -> bool {
    o.primary_name@ == name || contains_str(o.aliases@, name)
}

/// The ids of the objects in `objs` that answer to `name`, in order.
pub open spec fn matching_ids(objs: Seq<Object>, name: Seq<char>) -> Seq<ObjectId>
    decreases objs.len(),
{
    if objs.len() == 0 {
        seq![]
    } else {
        let prefix = matching_ids(objs.drop_last(), name);
        if has_name_spec(objs.last(), name) {
            prefix.push(objs.last().id)
        } else {
            prefix
        }
    }
}

/// `r` is what resolving `name` gives when `m` are the matching ids: none
/// found, exactly one, or an ambiguity listing them all.
pub open spec fn resolves_to<T>(m: Seq<T>, name: Seq<char>, r: Resolution<T>) -> bool {
    if m.len() == 0 {
        r is NotFound
    } else if m.len() == 1 {
        r == Resolution::Found(m[0])
    } else {
        r matches Resolution::Ambiguous { ids, alias } && ids@ == m && alias@ == name
    }
}

/// The position of the first object in `objs` whose id is `id`, or -1.
pub open spec fn index_of_id(objs: Seq<Object>, id: Seq<char>) -> int
    decreases objs.len(),
{
    if objs.len() == 0 {
        -1
    } else {
        let k = index_of_id(objs.drop_last(), id);
        if k >= 0 {
            k
        } else if objs.last().id@ == id {
            objs.len() - 1
        } else {
            -1
        }
    }
}

/// Whether some object in `objs` has id `id`.
pub open spec fn contains_id(objs: Seq<Object>, id: Seq<char>) -> bool {
    exists|i: int| 0 <= i < objs.len() && (#[trigger] objs[i]).id@ == id
}

/// The first object in `objs` with id `id`, if any.
pub open spec fn find_by_id_spec(objs: Seq<Object>, id: Seq<char>) -> Option<Object> {
    let k = index_of_id(objs, id);
    if k >= 0 {
        Some(objs[k])
    } else {
        None
    }
}

/// `objs` with the first object of id `id` taken out, if there is one.
pub open spec fn without_id(objs: Seq<Object>, id: Seq<char>) -> Seq<Object> {
    let k = index_of_id(objs, id);
    if k >= 0 {
        objs.remove(k)
    } else {
        objs
    }
}

/// `index_of_id` finds the first match, and finds none only when there is
/// none.
pub proof fn lemma_index_of_id(objs: Seq<Object>, id: Seq<char>)
    ensures
        -1 <= index_of_id(objs, id) < objs.len(),
        index_of_id(objs, id) == -1 <==> !contains_id(objs, id),
        index_of_id(objs, id) >= 0 ==> objs[index_of_id(objs, id)].id@ == id,
        forall|j: int| 0 <= j < index_of_id(objs, id) ==> objs[j].id@ != id,
    decreases objs.len(),
{
    if objs.len() > 0 {
        lemma_index_of_id(objs.drop_last(), id);
        let k = index_of_id(objs.drop_last(), id);
        if k < 0 {
            assert forall|j: int| 0 <= j < objs.len() - 1 implies objs[j].id@ != id by {
                assert(objs[j] == objs.drop_last()[j]);
            }
            if objs.last().id@ != id {
                assert forall|j: int| 0 <= j < objs.len() implies objs[j].id@ != id by {
                    if j < objs.len() - 1 {
                        assert(objs[j] == objs.drop_last()[j]);
                    }
                }
            } else {
                assert(contains_id(objs, id));
            }
        } else {
            assert(objs[k] == objs.drop_last()[k]);
            assert forall|j: int| 0 <= j < k implies objs[j].id@ != id by {
                assert(objs[j] == objs.drop_last()[j]);
            }
        }
    } else {
    }
}

/// The position of the first object in `objs` with id `id`, or `None`.
pub fn position_of(objs: &Vec<Object>, id: &ObjectId) -> (pos: Option<usize>)
    ensures
        match pos {
            Some(k) => k as int == index_of_id(objs@, id@),
            None => index_of_id(objs@, id@) == -1,
        },
{
    let mut i: usize = 0;
    while i < objs.len()
        invariant
            i <= objs@.len(),
            index_of_id(objs@.take(i as int), id@) == -1,
        decreases objs@.len() - i,
    {
        assert(objs@.take(i + 1).drop_last() =~= objs@.take(i as int));
        if objs[i].id == *id {
            proof {
                lemma_index_of_id_prefix(objs@, id@, i as int + 1);
            }
            return Some(i);
        }
        i = i + 1;
    }
    assert(objs@.take(objs@.len() as int) =~= objs@);
    None
}

/// The first match in a prefix that contains one is the first match overall.
pub proof fn lemma_index_of_id_prefix(objs: Seq<Object>, id: Seq<char>, n: int)
    requires
        0 <= n <= objs.len(),
        index_of_id(objs.take(n), id) >= 0,
    ensures
        index_of_id(objs, id) == index_of_id(objs.take(n), id),
    decreases objs.len() - n,
{
    if n < objs.len() {
        assert(objs.take(n + 1).drop_last() =~= objs.take(n));
        lemma_index_of_id_prefix(objs, id, n + 1);
    } else {
        assert(objs.take(n) =~= objs);
    }
}

/// Remove and return the first object in `objs` with id `id`.
pub fn remove_by_id(objs: &mut Vec<Object>, id: &ObjectId) -> (removed: Option<Object>)
    ensures
        removed == find_by_id_spec(old(objs)@, id@),
        removed is None ==> *final(objs) == *old(objs),
        final(objs)@ == without_id(old(objs)@, id@),
{
    proof {
        lemma_index_of_id(objs@, id@);
    }
    match position_of(objs, id) {
        Some(k) => Some(objs.remove(k)),
        None => None,
    }
}

impl Object {
    /// Whether `name` matches this object's primary name or any alias.
    pub fn has_name(&self, name: &str) -> (b: bool)
        ensures
            b == has_name_spec(*self, name@),
    {
        str_eq(self.primary_name.as_str(), name) || strings_contain(&self.aliases, name)
    }

    /// Resolve `name` against `objects`, matching primary name or alias.
    pub fn resolve_by_name(objects: &[Object], name: &str) -> (r: ObjectResolution)
        ensures
            resolves_to(matching_ids(objects@, name@), name@, r),
    {
        let mut matching: Vec<ObjectId> = Vec::new();
        let mut i: usize = 0;
        while i < objects.len()
            invariant
                i <= objects@.len(),
                matching@ == matching_ids(objects@.take(i as int), name@),
            decreases objects@.len() - i,
        {
            assert(objects@.take(i + 1).drop_last() =~= objects@.take(i as int));
            if objects[i].has_name(name) {
                matching.push(objects[i].id.clone());
            }
            i = i + 1;
        }
        assert(objects@.take(objects@.len() as int) =~= objects@);
        let n = matching.len();
        if n == 0 {
            Resolution::NotFound
        } else if n == 1 {
            Resolution::Found(matching.remove(0))
        } else {
            Resolution::Ambiguous { ids: matching, alias: String::from_str(name) }
        }
    }

    /// Build a live [`Object`] from authored [`ObjectData`]. A door whose
    /// direction does not parse carries no door state.
    pub fn from_data(object: &ObjectData) -> (o: Self)
        ensures
            from_data_spec(*object, o),
    {
        let door = match &object.door {
            Some(door_data) => match Direction::parse(door_data.direction.as_str()) {
                Some(direction) => Some(
                    DoorState {
                        direction,
                        to: RoomId::new(door_data.to.as_str()),
                        locked: door_data.locked,
                    },
                ),
                None => None,
            },
            None => None,
        };
        Object {
            id: object.id.clone(),
            primary_name: object.primary_name.clone(),
            aliases: clone_strings(&object.aliases),
            kind: object.kind,
            door,
        }
    }
}

/// The door state authored door data yields: present exactly when the
/// direction parses, with the destination key and lock flag carried over.
pub open spec fn door_from_data(data: Option<DoorData>, door: Option<DoorState>) -> bool {
    match data {
        Some(dd) => match parse_direction(dd.direction@) {
            Some(d) => door matches Some(ds) && ds.direction == d && ds.to@ == dd.to@ && ds.locked
                == dd.locked,
            None => door is None,
        },
        None => door is None,
    }
}

/// `o` is the live object built from `data`.
pub open spec fn from_data_spec(data: ObjectData, o: Object) -> bool {
    &&& o.id == data.id
    &&& o.primary_name == data.primary_name
    &&& o.aliases@ == data.aliases@
    &&& o.kind == data.kind
    &&& door_from_data(data.door, o.door)
}

/// Public, plain-data *owned* snapshot of an object, handed to game rules so
/// they can decide behaviour without reaching into the engine's internals.
#[derive(Debug, PartialEq, Eq)]
pub struct ObjectInfo {
    pub id: ObjectId,
    pub name: String,
    pub aliases: Vec<String>,
    pub kind: ObjectKind,
    pub door: Option<DoorInfo>,
}

/// Public, plain-data view of a door on a scene object.
#[derive(Debug, PartialEq, Eq)]
pub struct DoorInfo {
    pub direction: Direction,
    pub to: RoomId,
    pub locked: bool,
}

/// `info` describes `o` field for field.
pub open spec fn info_of(o: Object, info: ObjectInfo) -> bool {
    &&& info.id == o.id
    &&& info.name == o.primary_name
    &&& info.aliases@ == o.aliases@
    &&& info.kind == o.kind
    &&& match o.door {
        Some(d) => info.door matches Some(di) && di.direction == d.direction && di.to == d.to
            && di.locked == d.locked,
        None => info.door is None,
    }
}

impl ObjectInfo {
    /// The public snapshot of `object`.
    pub fn from_object(object: &Object) -> (info: Self)
        ensures
            info_of(*object, info),
    {
        let door = match &object.door {
            Some(door) => Some(
                DoorInfo { direction: door.direction, to: door.to.clone(), locked: door.locked },
            ),
            None => None,
        };
        ObjectInfo {
            id: object.id.clone(),
            name: object.primary_name.clone(),
            aliases: clone_strings(&object.aliases),
            kind: object.kind,
            door,
        }
    }
}

/// Matching against two lists in turn finds what matching against their
/// concatenation does.
pub proof fn lemma_matching_ids_concat(a: Seq<Object>, b: Seq<Object>, name: Seq<char>)
    ensures
        matching_ids(a + b, name) == matching_ids(a, name) + matching_ids(b, name),
    decreases b.len(),
{
    if b.len() == 0 {
        assert(a + b =~= a);
        assert(matching_ids(a, name) + matching_ids(b, name) =~= matching_ids(a, name));
    } else {
        assert((a + b).drop_last() =~= a + b.drop_last());
        assert((a + b).last() == b.last());
        lemma_matching_ids_concat(a, b.drop_last(), name);
        let pa = matching_ids(a, name);
        let pb = matching_ids(b.drop_last(), name);
        if has_name_spec(b.last(), name) {
            assert((pa + pb).push(b.last().id) =~= pa + pb.push(b.last().id));
        }
    }
}

/// Append the ids of the objects in `objects` that answer to `name`.
pub fn collect_matching(objects: &Vec<Object>, name: &str, out: &mut Vec<ObjectId>)
    ensures
        final(out)@ == old(out)@ + matching_ids(objects@, name@),
{
    let ghost start = out@;
    let mut i: usize = 0;
    while i < objects.len()
        invariant
            i <= objects@.len(),
            out@ == start + matching_ids(objects@.take(i as int), name@),
        decreases objects@.len() - i,
    {
        assert(objects@.take(i + 1).drop_last() =~= objects@.take(i as int));
        assert(objects@.take(i + 1).last() == objects@[i as int]);
        let ghost before = out@;
        if objects[i].has_name(name) {
            out.push(objects[i].id.clone());
            assert(out@ =~= start + matching_ids(objects@.take(i + 1), name@));
        }
        i = i + 1;
    }
    assert(objects@.take(objects@.len() as int) =~= objects@);
}

} // verus!
