//! Structural checks of authored world data: unique keys, and every key
//! reference resolving to a declared key.
use vstd::prelude::*;

use crate::data::interactions_data::{DataCondition, DataEffect, DataTarget, InteractionData};
use crate::data::npc_data::{DialogueChoiceData, DialogueNodeData, NpcData};
use crate::data::object_data::ObjectData;
use crate::data::room_data::RoomData;
use crate::data::trigger_data::TriggerData;
use crate::data::WorldData;
use crate::input::direction::{direction_name, parse_direction, Direction};
use crate::interaction::verb::Verb;
use crate::keys::{DialogueNodeId, ObjectId, RoomId};
use crate::text::{first_index, lemma_first_index, lemma_first_index_prefix, str_eq};

verus! {

/// Why world data was refused.
#[derive(Debug, PartialEq, Eq)]
pub enum WorldDataError {
    /// A key referenced by the world data does not exist, or a key is
    /// declared more than once.
    Validation(String),
}

impl WorldDataError {
    /// The error as a sentence: `invalid world data: ` and the problem.
    pub fn to_string(&self) -> (text: String)
        ensures
            match self {
                WorldDataError::Validation(m) => text@ == "invalid world data: "@ + m@,
            },
    {
        match self {
            WorldDataError::Validation(m) => {
                let mut text = "invalid world data: ".to_string();
                text.append(m.as_str());
                text
            },
        }
    }
}

/// `prefix`, then `key`, then `suffix`.
pub open spec fn quoted(prefix: Seq<char>, key: Seq<char>, suffix: Seq<char>) -> Seq<char> {
    prefix + key + suffix
}

/// `prefix`, `first`, `middle`, `second`, `suffix`, one after another.
pub open spec fn quoted2(
    prefix: Seq<char>,
    first: Seq<char>,
    middle: Seq<char>,
    second: Seq<char>,
    suffix: Seq<char>,
) -> Seq<char> {
    prefix + first + middle + second + suffix
}

/// Build `prefix + key + suffix`.
pub fn quote(prefix: &str, key: &str, suffix: &str) -> (s: String)
    ensures
        s@ == quoted(prefix@, key@, suffix@),
{
    let mut s = String::from_str(prefix);
    s.append(key);
    s.append(suffix);
    s
}

/// Build `prefix + first + middle + second + suffix`.
pub fn quote2(prefix: &str, first: &str, middle: &str, second: &str, suffix: &str) -> (s: String)
    ensures
        s@ == quoted2(prefix@, first@, middle@, second@, suffix@),
{
    let mut s = String::from_str(prefix);
    s.append(first);
    s.append(middle);
    s.append(second);
    s.append(suffix);
    s
}

/// The first error `check` finds among `items`, in order.
pub open spec fn first_error<T>(items: Seq<T>, check: spec_fn(T) -> Option<Seq<char>>) -> Option<Seq<char>>
    decreases items.len(),
{
    if items.len() == 0 {
        None
    } else {
        match first_error(items.drop_last(), check) {
            Some(m) => Some(m),
            None => check(items.last()),
        }
    }
}

/// The first of two checks that fails.
pub open spec fn or_else(a: Option<Seq<char>>, b: Option<Seq<char>>) -> Option<Seq<char>> {
    match a {
        Some(m) => Some(m),
        None => b,
    }
}

/// The position of the first key that repeats an earlier one, or -1.
pub open spec fn first_dup(keys: Seq<Seq<char>>) -> int
    decreases keys.len(),
{
    if keys.len() == 0 {
        -1
    } else {
        let k = first_dup(keys.drop_last());
        if k >= 0 {
            k
        } else if keys.drop_last().contains(keys.last()) {
            keys.len() - 1
        } else {
            -1
        }
    }
}

/// The clash report for `keys`, naming the first key declared twice.
pub open spec fn dup_error(keys: Seq<Seq<char>>, prefix: Seq<char>) -> Option<Seq<char>> {
    let k = first_dup(keys);
    if k >= 0 {
        Some(quoted(prefix, keys[k], "` declared more than once"@))
    } else {
        None
    }
}

/// Whether `data` declares an object with key `id`.
pub open spec fn known_object(data: WorldData, id: Seq<char>) -> bool {
    exists|i: int| 0 <= i < data.objects@.len() && (#[trigger] data.objects@[i]).id@ == id
}

/// Whether `data` declares a room with key `id`.
pub open spec fn known_room(data: WorldData, id: Seq<char>) -> bool {
    exists|i: int| 0 <= i < data.rooms@.len() && (#[trigger] data.rooms@[i]).id@ == id
}

/// Whether `data` declares an NPC with key `id`.
pub open spec fn known_npc(data: WorldData, id: Seq<char>) -> bool {
    exists|i: int| 0 <= i < data.npcs@.len() && (#[trigger] data.npcs@[i]).id@ == id
}

/// An object key `data` does not declare.
pub open spec fn unknown_object(data: WorldData) -> spec_fn(ObjectId) -> bool {
    |id: ObjectId| !known_object(data, id@)
}

/// The object keys a room lists, visible ones first.
pub open spec fn room_ids(room: RoomData) -> Seq<ObjectId> {
    room.visible_objects@ + room.hidden_objects@
}

/// A room listing an undeclared object.
pub open spec fn room_ref_error(data: WorldData, room: RoomData) -> Option<Seq<char>> {
    let ids = room_ids(room);
    let k = first_index(ids, unknown_object(data));
    if k >= 0 {
        Some(quoted2("room `"@, room.id@, "` references unknown object key `"@, ids[k]@, "`"@))
    } else {
        None
    }
}

/// The definition with key `id` is `o`, the first with that key.
pub open spec fn object_def_is(id: Seq<char>) -> spec_fn(ObjectData) -> bool {
    |o: ObjectData| o.id@ == id
}

/// The compass direction the door with key `id` occupies, if its first
/// definition is a door with a parsable direction.
pub open spec fn door_direction_of(data: WorldData, id: ObjectId) -> Option<Direction> {
    let k = first_index(data.objects@, object_def_is(id@));
    if k >= 0 {
        match data.objects@[k].door {
            Some(door) => parse_direction(door.direction@),
            None => None,
        }
    } else {
        None
    }
}

/// The position of the first entry naming a direction an earlier entry
/// already named, or -1.
pub open spec fn first_dup_direction(dirs: Seq<Option<Direction>>) -> int
    decreases dirs.len(),
{
    if dirs.len() == 0 {
        -1
    } else {
        let k = first_dup_direction(dirs.drop_last());
        if k >= 0 {
            k
        } else if dirs.last() is Some && dirs.drop_last().contains(dirs.last()) {
            dirs.len() - 1
        } else {
            -1
        }
    }
}

/// A room with two doors in one compass direction.
pub open spec fn room_direction_error(data: WorldData, room: RoomData) -> Option<Seq<char>> {
    let dirs = room_ids(room).map_values(|id: ObjectId| door_direction_of(data, id));
    let k = first_dup_direction(dirs);
    if k >= 0 {
        Some(
            quoted2(
                "room `"@,
                room.id@,
                "` declares more than one exit in direction `"@,
                direction_name(dirs[k]->0),
                "`"@,
            ),
        )
    } else {
        None
    }
}

/// An object whose door leads to an undeclared room.
pub open spec fn object_ref_error(data: WorldData, object: ObjectData) -> Option<Seq<char>> {
    match object.door {
        Some(door) => if known_room(data, door.to@) {
            None
        } else {
            Some(quoted2("object `"@, object.id@, "` door leads to unknown room key `"@, door.to@, "`"@))
        },
        None => None,
    }
}

/// A condition naming an undeclared room or object.
pub open spec fn condition_error(data: WorldData, condition: DataCondition) -> Option<Seq<char>>
    decreases condition,
{
    match condition {
        DataCondition::Room { room } => if known_room(data, room@) {
            None
        } else {
            Some(quoted("condition references unknown room key `"@, room@, "`"@))
        },
        DataCondition::PlayerHolds { player_holds } => if known_object(data, player_holds@) {
            None
        } else {
            Some(quoted("condition references unknown object key `"@, player_holds@, "`"@))
        },
        DataCondition::Not { not } => condition_error(data, *not),
        _ => None,
    }
}

/// The object an effect acts on, if it acts on one.
pub open spec fn effect_object(effect: DataEffect) -> Option<ObjectId> {
    match effect {
        DataEffect::Take { take } => Some(take),
        DataEffect::Grant { grant } => Some(grant),
        DataEffect::Drop { drop } => Some(drop),
        DataEffect::Discard { discard } => Some(discard),
        DataEffect::RevealObject { reveal_object } => Some(reveal_object),
        DataEffect::HideObject { hide_object } => Some(hide_object),
        _ => None,
    }
}

/// An effect acting on an undeclared object.
pub open spec fn effect_error(data: WorldData, effect: DataEffect) -> Option<Seq<char>> {
    match effect_object(effect) {
        Some(id) => if known_object(data, id@) {
            None
        } else {
            Some(quoted("effect references unknown object key `"@, id@, "`"@))
        },
        None => None,
    }
}

/// The condition check, as a function of the condition.
pub open spec fn condition_check(data: WorldData) -> spec_fn(DataCondition) -> Option<Seq<char>> {
    |c: DataCondition| condition_error(data, c)
}

/// The effect check, as a function of the effect.
pub open spec fn effect_check(data: WorldData) -> spec_fn(DataEffect) -> Option<Seq<char>> {
    |e: DataEffect| effect_error(data, e)
}

/// The first bad condition of `conditions`.
pub open spec fn conditions_error(data: WorldData, conditions: Seq<DataCondition>) -> Option<Seq<char>> {
    first_error(conditions, condition_check(data))
}

/// The first bad effect of `effects`.
pub open spec fn effects_error(data: WorldData, effects: Seq<DataEffect>) -> Option<Seq<char>> {
    first_error(effects, effect_check(data))
}

/// How a verb is named in reports.
pub open spec fn verb_name(verb: Verb) -> Seq<char> {
    match verb {
        Verb::Look => "Look"@,
        Verb::Go => "Go"@,
        Verb::Examine => "Examine"@,
        Verb::Take => "Take"@,
        Verb::Drop => "Drop"@,
        Verb::Use => "Use"@,
        Verb::Talk => "Talk"@,
    }
}

/// An interaction naming an undeclared object or NPC.
pub open spec fn interaction_error(data: WorldData, interaction: InteractionData) -> Option<Seq<char>> {
    let verb = verb_name(interaction.verb);
    let item_error = match interaction.item {
        Some(item) => if known_object(data, item@) {
            None
        } else {
            Some(
                quoted2(
                    "interaction with verb `"@,
                    verb,
                    "` references unknown object key `"@,
                    item@,
                    "`"@,
                ),
            )
        },
        None => None,
    };
    let target_error = match interaction.target {
        Some(DataTarget::Object { object }) => if known_object(data, object@) {
            None
        } else {
            Some(
                quoted2(
                    "interaction with verb `"@,
                    verb,
                    "` references unknown object key `"@,
                    object@,
                    "`"@,
                ),
            )
        },
        Some(DataTarget::Npc { npc }) => if known_npc(data, npc@) {
            None
        } else {
            Some(quoted2("interaction with verb `"@, verb, "` references unknown npc key `"@, npc@, "`"@))
        },
        _ => None,
    };
    or_else(
        item_error,
        or_else(
            target_error,
            or_else(conditions_error(data, interaction.condition@), effects_error(data, interaction.effect@)),
        ),
    )
}

/// Whether the dialogue of `npc` has a node with key `id`.
pub open spec fn has_node(npc: NpcData, id: Seq<char>) -> bool {
    exists|i: int| 0 <= i < npc.dialogue.nodes@.len() && (#[trigger] npc.dialogue.nodes@[i]).0@ == id
}

/// A choice of node `node_id` leading to a node the NPC lacks, or running a
/// bad effect.
pub open spec fn choice_error(data: WorldData, npc: NpcData, node_id: Seq<char>, choice: DialogueChoiceData) -> Option<Seq<char>> {
    if choice.next@ != ".end"@ && !has_node(npc, choice.next@) {
        Some(
            quoted2("npc `"@, npc.id@, "` dialogue node `"@, node_id, "` choice references unknown node `"@)
                + choice.next@ + "`"@,
        )
    } else {
        effects_error(data, choice.effect@)
    }
}

/// The check of the choices of node `node_id`, as a function of the choice.
pub open spec fn choice_check(data: WorldData, npc: NpcData, node_id: Seq<char>) -> spec_fn(DialogueChoiceData) -> Option<Seq<char>> {
    |c: DialogueChoiceData| choice_error(data, npc, node_id, c)
}

/// The check of a dialogue node, as a function of the node entry.
pub open spec fn node_check(data: WorldData, npc: NpcData) -> spec_fn((DialogueNodeId, DialogueNodeData)) -> Option<Seq<char>> {
    |entry: (DialogueNodeId, DialogueNodeData)| first_error(entry.1.choices@, choice_check(data, npc, entry.0@))
}

/// An NPC living in an undeclared room, or with a dialogue naming a node it
/// lacks, or running a bad effect.
pub open spec fn npc_error(data: WorldData, npc: NpcData) -> Option<Seq<char>> {
    if !known_room(data, npc.room@) {
        Some(quoted2("npc `"@, npc.id@, "` references unknown room id `"@, npc.room@, "`"@))
    } else if !has_node(npc, npc.dialogue.root@) {
        Some(quoted2("npc `"@, npc.id@, "` dialogue root references unknown node `"@, npc.dialogue.root@, "`"@))
    } else {
        first_error(npc.dialogue.nodes@, node_check(data, npc))
    }
}

/// A trigger with a bad condition or effect.
pub open spec fn trigger_error(data: WorldData, trigger: TriggerData) -> Option<Seq<char>> {
    or_else(conditions_error(data, trigger.condition@), effects_error(data, trigger.effect@))
}

/// The room reference check, as a function of the room.
pub open spec fn room_ref_check(data: WorldData) -> spec_fn(RoomData) -> Option<Seq<char>> {
    |r: RoomData| room_ref_error(data, r)
}

/// The room direction check, as a function of the room.
pub open spec fn room_direction_check(data: WorldData) -> spec_fn(RoomData) -> Option<Seq<char>> {
    |r: RoomData| room_direction_error(data, r)
}

/// The object check, as a function of the object.
pub open spec fn object_check(data: WorldData) -> spec_fn(ObjectData) -> Option<Seq<char>> {
    |o: ObjectData| object_ref_error(data, o)
}

/// The interaction check, as a function of the interaction.
pub open spec fn interaction_check(data: WorldData) -> spec_fn(InteractionData) -> Option<Seq<char>> {
    |i: InteractionData| interaction_error(data, i)
}

/// The NPC check, as a function of the NPC.
pub open spec fn npc_check(data: WorldData) -> spec_fn(NpcData) -> Option<Seq<char>> {
    |n: NpcData| npc_error(data, n)
}

/// The trigger check, as a function of the trigger.
pub open spec fn trigger_check(data: WorldData) -> spec_fn(TriggerData) -> Option<Seq<char>> {
    |t: TriggerData| trigger_error(data, t)
}

/// The reference checks, in the order they run, once the keys are unique
/// and a room exists.
pub open spec fn reference_error(data: WorldData) -> Option<Seq<char>> {
    or_else(
        first_error(data.rooms@, room_ref_check(data)),
        or_else(
            first_error(data.rooms@, room_direction_check(data)),
            or_else(
                first_error(data.objects@, object_check(data)),
                or_else(
                    first_error(data.interactions@, interaction_check(data)),
                    or_else(
                        first_error(data.npcs@, npc_check(data)),
                        first_error(data.triggers@, trigger_check(data)),
                    ),
                ),
            ),
        ),
    )
}

/// The object keys `data` declares, in order.
pub open spec fn declared_object_keys(data: WorldData) -> Seq<Seq<char>> {
    data.objects@.map_values(|o: ObjectData| o.id@)
}

/// The room keys `data` declares, in order.
pub open spec fn declared_room_keys(data: WorldData) -> Seq<Seq<char>> {
    data.rooms@.map_values(|r: RoomData| r.id@)
}

/// The trigger keys `data` declares, in order.
pub open spec fn declared_trigger_keys(data: WorldData) -> Seq<Seq<char>> {
    data.triggers@.map_values(|t: TriggerData| t.id@)
}

/// The first problem of `data`, in the order the checks run: repeated
/// object, room and trigger keys; no room at all; rooms listing undeclared
/// objects; rooms with two doors in one direction; doors leading to
/// undeclared rooms; and interactions, NPCs and triggers naming undeclared
/// keys.
pub open spec fn validation_error(data: WorldData) -> Option<Seq<char>> {
    or_else(
        dup_error(declared_object_keys(data), "object key `"@),
        or_else(
            dup_error(declared_room_keys(data), "room key `"@),
            or_else(
                dup_error(declared_trigger_keys(data), "trigger key `"@),
                if data.rooms@.len() == 0 {
                    Some("world data must declare at least one room"@)
                } else {
                    reference_error(data)
                },
            ),
        ),
    )
}

/// `r` reports exactly the problem `e`, or success when there is none.
pub open spec fn reports(r: Result<(), WorldDataError>, e: Option<Seq<char>>) -> bool {
    match e {
        Some(m) => r matches Err(WorldDataError::Validation(s)) && s@ == m,
        None => r is Ok,
    }
}

impl WorldData {
    /// The definition of the object with key `id`, if there is one (the
    /// first, when the key repeats).
    pub fn find_object(&self, id: &ObjectId) -> (object: Option<&ObjectData>)
        ensures
            ({
                let k = first_index(self.objects@, object_def_is(id@));
                if k >= 0 {
                    object == Some(&self.objects@[k])
                } else {
                    object is None
                }
            }),
            object is Some <==> known_object(*self, id@),
    {
        proof {
            lemma_first_index(self.objects@, object_def_is(id@));
        }
        let mut i: usize = 0;
        while i < self.objects.len()
            invariant
                i <= self.objects@.len(),
                first_index(self.objects@.take(i as int), object_def_is(id@)) == -1,
            decreases self.objects@.len() - i,
        {
            assert(self.objects@.take(i + 1).drop_last() =~= self.objects@.take(i as int));
            assert(self.objects@.take(i + 1).last() == self.objects@[i as int]);
            if self.objects[i].id == *id {
                proof {
                    lemma_first_index_prefix(self.objects@, object_def_is(id@), i + 1);
                }
                return Some(&self.objects[i]);
            }
            i = i + 1;
        }
        assert(self.objects@.take(self.objects@.len() as int) =~= self.objects@);
        proof {
            if known_object(*self, id@) {
                let j = choose|j: int| 0 <= j < self.objects@.len() && (#[trigger] self.objects@[j]).id@ == id@;
                assert(object_def_is(id@)(self.objects@[j]));
            }
        }
        None
    }

    /// The definition of the room with key `id`, if there is one.
    pub fn find_room(&self, id: &RoomId) -> (room: Option<&RoomData>)
        ensures
            room is Some <==> known_room(*self, id@),
            room matches Some(r) ==> r.id@ == id@,
    {
        let mut i: usize = 0;
        while i < self.rooms.len()
            invariant
                i <= self.rooms@.len(),
                forall|k: int| 0 <= k < i ==> (#[trigger] self.rooms@[k]).id@ != id@,
            decreases self.rooms@.len() - i,
        {
            if self.rooms[i].id == *id {
                return Some(&self.rooms[i]);
            }
            i = i + 1;
        }
        None
    }
}

/// Whether `data` declares a room with key `key`.
fn room_key_known(data: &WorldData, key: &str) -> (b: bool)
    ensures
        b == known_room(*data, key@),
{
    let mut i: usize = 0;
    while i < data.rooms.len()
        invariant
            i <= data.rooms@.len(),
            forall|k: int| 0 <= k < i ==> (#[trigger] data.rooms@[k]).id@ != key@,
        decreases data.rooms@.len() - i,
    {
        if str_eq(data.rooms[i].id.get(), key) {
            assert(data.rooms@[i as int].id@ == key@);
            return true;
        }
        i = i + 1;
    }
    false
}

/// Whether `data` declares an NPC with key `id`.
fn npc_known(data: &WorldData, id: &crate::keys::NpcId) -> (b: bool)
    ensures
        b == known_npc(*data, id@),
{
    let mut i: usize = 0;
    while i < data.npcs.len()
        invariant
            i <= data.npcs@.len(),
            forall|k: int| 0 <= k < i ==> (#[trigger] data.npcs@[k]).id@ != id@,
        decreases data.npcs@.len() - i,
    {
        if data.npcs[i].id == *id {
            return true;
        }
        i = i + 1;
    }
    false
}

/// Whether the key lists clash: the first key repeating an earlier one.
fn ensure_unique_keys(keys: &Vec<&str>, prefix: &str) -> (r: Result<(), WorldDataError>)
    ensures
        reports(r, dup_error(keys@.map_values(|k: &str| k@), prefix@)),
{
    let ghost views = keys@.map_values(|k: &str| k@);
    let mut i: usize = 0;
    while i < keys.len()
        invariant
            i <= keys@.len(),
            views == keys@.map_values(|k: &str| k@),
            first_dup(views.take(i as int)) == -1,
        decreases keys@.len() - i,
    {
        let ghost t = views.take(i + 1);
        assert(t.drop_last() =~= views.take(i as int));
        assert(t.last() == keys@[i as int]@);
        let mut j: usize = 0;
        while j < i
            invariant
                j <= i,
                i < keys@.len(),
                views == keys@.map_values(|k: &str| k@),
                t == views.take(i + 1),
                t.drop_last() == views.take(i as int),
                t.last() == views[i as int],
                first_dup(views.take(i as int)) == -1,
                forall|m: int| 0 <= m < j ==> views[m] != views[i as int],
            decreases i - j,
        {
            if str_eq(keys[j], keys[i]) {
                proof {
                    assert(views.take(i as int)[j as int] == views[i as int]);
                    assert(views.take(i as int).contains(t.last()));
                    assert(first_dup(t) == i);
                    lemma_first_dup_prefix(views, i + 1);
                }
                return Err(WorldDataError::Validation(quote(prefix, keys[i], "` declared more than once")));
            }
            j = j + 1;
        }
        proof {
            if views.take(i as int).contains(t.last()) {
                let m = choose|m: int| 0 <= m < i && views.take(i as int)[m] == t.last();
                assert(views[m] == views[i as int]);
            }
        }
        i = i + 1;
    }
    assert(views.take(keys@.len() as int) =~= views);
    Ok(())
}

/// A repeat found in a prefix is the first repeat of the whole list.
proof fn lemma_first_dup_prefix(keys: Seq<Seq<char>>, n: int)
    requires
        0 <= n <= keys.len(),
        first_dup(keys.take(n)) >= 0,
    ensures
        first_dup(keys) == first_dup(keys.take(n)),
    decreases keys.len() - n,
{
    if n < keys.len() {
        assert(keys.take(n + 1).drop_last() =~= keys.take(n));
        lemma_first_dup_prefix(keys, n + 1);
    } else {
        assert(keys.take(n) =~= keys);
    }
}

/// A repeated direction found in a prefix is the first of the whole list.
proof fn lemma_first_dup_direction_prefix(dirs: Seq<Option<Direction>>, n: int)
    requires
        0 <= n <= dirs.len(),
        first_dup_direction(dirs.take(n)) >= 0,
    ensures
        first_dup_direction(dirs) == first_dup_direction(dirs.take(n)),
    decreases dirs.len() - n,
{
    if n < dirs.len() {
        assert(dirs.take(n + 1).drop_last() =~= dirs.take(n));
        lemma_first_dup_direction_prefix(dirs, n + 1);
    } else {
        assert(dirs.take(n) =~= dirs);
    }
}

/// The object keys `room` lists, visible ones first.
fn room_id_refs(room: &RoomData) -> (ids: Vec<ObjectId>)
    ensures
        ids@ == room_ids(*room),
{
    let mut ids: Vec<ObjectId> = Vec::new();
    let mut i: usize = 0;
    while i < room.visible_objects.len()
        invariant
            i <= room.visible_objects@.len(),
            ids@ == room.visible_objects@.take(i as int),
        decreases room.visible_objects@.len() - i,
    {
        ids.push(room.visible_objects[i].clone());
        assert(ids@ =~= room.visible_objects@.take(i + 1));
        i = i + 1;
    }
    let mut j: usize = 0;
    while j < room.hidden_objects.len()
        invariant
            j <= room.hidden_objects@.len(),
            ids@ == room.visible_objects@.take(room.visible_objects@.len() as int) + room.hidden_objects@.take(j as int),
        decreases room.hidden_objects@.len() - j,
    {
        ids.push(room.hidden_objects[j].clone());
        assert(ids@ =~= room.visible_objects@.take(room.visible_objects@.len() as int) + room.hidden_objects@.take(j + 1));
        j = j + 1;
    }
    assert(room.visible_objects@.take(room.visible_objects@.len() as int) =~= room.visible_objects@);
    assert(room.hidden_objects@.take(room.hidden_objects@.len() as int) =~= room.hidden_objects@);
    ids
}

/// Whether `seen` holds `d`.
fn holds_direction(seen: &Vec<Direction>, d: Direction) -> (b: bool)
    ensures
        b == seen@.contains(d),
{
    let mut j: usize = 0;
    while j < seen.len()
        invariant
            j <= seen@.len(),
            forall|m: int| 0 <= m < j ==> seen@[m] != d,
        decreases seen@.len() - j,
    {
        if seen[j] == d {
            return true;
        }
        j = j + 1;
    }
    false
}

impl RoomData {
    /// Reports the first object this room lists that `data` does not declare.
    #[verifier::rlimit(30)]
    pub(crate) fn validate_references(&self, data: &WorldData) -> (r: Result<(), WorldDataError>)
        ensures
            reports(r, room_ref_error(*data, *self)),
    {
        let ghost ids = room_ids(*self);
        let refs = room_id_refs(self);
        proof {
            lemma_first_index(ids, unknown_object(*data));
        }
        let mut i: usize = 0;
        while i < refs.len()
            invariant
                ids == room_ids(*self),
                refs@ == ids,
                i <= refs@.len(),
                first_index(ids.take(i as int), unknown_object(*data)) == -1,
            decreases refs@.len() - i,
        {
            let id = &refs[i];
            assert(*id == ids[i as int]);
            assert(ids.take(i + 1).drop_last() =~= ids.take(i as int));
            assert(ids.take(i + 1).last() == ids[i as int]);
            if data.find_object(id).is_none() {
                proof {
                    lemma_first_index_prefix(ids, unknown_object(*data), i + 1);
                }
                return Err(
                    WorldDataError::Validation(
                        quote2("room `", self.id.get(), "` references unknown object key `", id.get(), "`"),
                    ),
                );
            }
            i = i + 1;
        }
        assert(ids.take(ids.len() as int) =~= ids);
        Ok(())
    }
}

/// The compass direction the door with key `id` occupies, if any.
fn door_direction(data: &WorldData, id: &ObjectId) -> (d: Option<Direction>)
    ensures
        d == door_direction_of(*data, *id),
{
    match data.find_object(id) {
        Some(object) => match &object.door {
            Some(door) => Direction::parse(door.direction.as_str()),
            None => None,
        },
        None => None,
    }
}

impl RoomData {
    /// Reports the first compass direction this room gives two doors.
    pub(crate) fn validate_unique_directions(&self, data: &WorldData) -> (r: Result<(), WorldDataError>)
        ensures
            reports(r, room_direction_error(*data, *self)),
    {
        let ghost dirs = room_ids(*self).map_values(|id: ObjectId| door_direction_of(*data, id));
        let refs = room_id_refs(self);
        let mut seen: Vec<Direction> = Vec::new();
        let mut i: usize = 0;
        while i < refs.len()
            invariant
                dirs == room_ids(*self).map_values(|id: ObjectId| door_direction_of(*data, id)),
                refs@ == room_ids(*self),
                refs@.len() == dirs.len(),
                i <= refs@.len(),
                first_dup_direction(dirs.take(i as int)) == -1,
                forall|d: Direction| #![trigger seen@.contains(d)] #![trigger dirs.take(i as int).contains(Some(d))] seen@.contains(d) <==> dirs.take(i as int).contains(Some(d)),
            decreases refs@.len() - i,
        {
            let id = &refs[i];
            assert(door_direction_of(*data, *id) == dirs[i as int]);
            let ghost t = dirs.take(i + 1);
            let ghost prefix = dirs.take(i as int);
            assert(t.drop_last() =~= prefix);
            assert(t.last() == dirs[i as int]);
            assert forall|k: int| 0 <= k < i implies t[k] == prefix[k] by {}
            match door_direction(data, id) {
                Some(d) => {
                    if holds_direction(&seen, d) {
                        proof {
                            assert(prefix.contains(Some(d)));
                            assert(first_dup_direction(t) == i);
                            lemma_first_dup_direction_prefix(dirs, i + 1);
                        }
                        return Err(
                            WorldDataError::Validation(
                                quote2(
                                    "room `",
                                    self.id.get(),
                                    "` declares more than one exit in direction `",
                                    d.name(),
                                    "`",
                                ),
                            ),
                        );
                    }
                    let ghost before = seen@;
                    seen.push(d);
                    proof {
                        assert(!prefix.contains(Some(d)));
                        assert forall|e: Direction| #![trigger seen@.contains(e)] #![trigger t.contains(Some(e))] seen@.contains(e) <==> t.contains(Some(e)) by {
                            if seen@.contains(e) {
                                let m = choose|m: int| 0 <= m < seen@.len() && seen@[m] == e;
                                if m < before.len() {
                                    assert(before[m] == e);
                                    assert(before.contains(e));
                                    assert(prefix.contains(Some(e)));
                                    let k = choose|k: int| 0 <= k < prefix.len() && prefix[k] == Some(e);
                                    assert(t[k] == Some(e));
                                } else {
                                    assert(t[i as int] == Some(e));
                                }
                            }
                            if t.contains(Some(e)) {
                                let k = choose|k: int| 0 <= k < t.len() && t[k] == Some(e);
                                if k < i {
                                    assert(prefix[k] == Some(e));
                                    assert(prefix.contains(Some(e)));
                                    assert(before.contains(e));
                                    let m = choose|m: int| 0 <= m < before.len() && before[m] == e;
                                    assert(seen@[m] == e);
                                } else {
                                    assert(seen@[before.len() as int] == e);
                                }
                            }
                        }
                    }
                },
                None => {
                    proof {
                        assert forall|e: Direction| #![trigger seen@.contains(e)] #![trigger t.contains(Some(e))] seen@.contains(e) <==> t.contains(Some(e)) by {
                            if t.contains(Some(e)) {
                                let k = choose|k: int| 0 <= k < t.len() && t[k] == Some(e);
                                assert(k < i);
                                assert(prefix[k] == Some(e));
                                assert(prefix.contains(Some(e)));
                            }
                            if seen@.contains(e) {
                                assert(prefix.contains(Some(e)));
                                let k = choose|k: int| 0 <= k < prefix.len() && prefix[k] == Some(e);
                                assert(t[k] == Some(e));
                            }
                        }
                    }
                },
            }
            i = i + 1;
        }
        assert(dirs.take(dirs.len() as int) =~= dirs);
        Ok(())
    }
}

impl ObjectData {
    /// Reports a door of this object leading to an undeclared room.
    pub(crate) fn validate_references(&self, data: &WorldData) -> (r: Result<(), WorldDataError>)
        ensures
            reports(r, object_ref_error(*data, *self)),
    {
        match &self.door {
            Some(door) => if room_key_known(data, door.to.as_str()) {
                Ok(())
            } else {
                Err(
                    WorldDataError::Validation(
                        quote2("object `", self.id.get(), "` door leads to unknown room key `", door.to.as_str(), "`"),
                    ),
                )
            },
            None => Ok(()),
        }
    }
}

impl DataCondition {
    /// Reports a condition naming an undeclared room or object.
    pub(crate) fn validate_references(&self, data: &WorldData) -> (r: Result<(), WorldDataError>)
        ensures
            reports(r, condition_error(*data, *self)),
        decreases self,
    {
        match self {
            DataCondition::Room { room } => if data.find_room(room).is_some() {
                Ok(())
            } else {
                Err(WorldDataError::Validation(quote("condition references unknown room key `", room.get(), "`")))
            },
            DataCondition::PlayerHolds { player_holds } => if data.find_object(player_holds).is_some() {
                Ok(())
            } else {
                Err(
                    WorldDataError::Validation(
                        quote("condition references unknown object key `", player_holds.get(), "`"),
                    ),
                )
            },
            DataCondition::Not { not } => {
                let inner: &DataCondition = not;
                inner.validate_references(data)
            },
            _ => Ok(()),
        }
    }
}

impl DataEffect {
    /// Reports an effect acting on an undeclared object.
    pub(crate) fn validate_references(&self, data: &WorldData) -> (r: Result<(), WorldDataError>)
        ensures
            reports(r, effect_error(*data, *self)),
    {
        let id = match self {
            DataEffect::Take { take } => take,
            DataEffect::Grant { grant } => grant,
            DataEffect::Drop { drop } => drop,
            DataEffect::Discard { discard } => discard,
            DataEffect::RevealObject { reveal_object } => reveal_object,
            DataEffect::HideObject { hide_object } => hide_object,
            _ => return Ok(()),
        };
        if data.find_object(id).is_some() {
            Ok(())
        } else {
            Err(WorldDataError::Validation(quote("effect references unknown object key `", id.get(), "`")))
        }
    }
}

/// The first bad condition of `conditions`.
fn check_conditions(data: &WorldData, conditions: &Vec<DataCondition>) -> (r: Result<(), WorldDataError>)
    ensures
        reports(r, conditions_error(*data, conditions@)),
{
    let mut i: usize = 0;
    while i < conditions.len()
        invariant
            i <= conditions@.len(),
            first_error(conditions@.take(i as int), condition_check(*data)) is None,
        decreases conditions@.len() - i,
    {
        assert(conditions@.take(i + 1).drop_last() =~= conditions@.take(i as int));
        assert(conditions@.take(i + 1).last() == conditions@[i as int]);
        match conditions[i].validate_references(data) {
            Err(e) => {
                proof {
                    lemma_first_error_prefix(conditions@, condition_check(*data), i as int + 1);
                }
                return Err(e);
            },
            Ok(()) => {},
        }
        i = i + 1;
    }
    assert(conditions@.take(conditions@.len() as int) =~= conditions@);
    Ok(())
}

/// The first bad effect of `effects`.
fn check_effects(data: &WorldData, effects: &Vec<DataEffect>) -> (r: Result<(), WorldDataError>)
    ensures
        reports(r, effects_error(*data, effects@)),
{
    let mut i: usize = 0;
    while i < effects.len()
        invariant
            i <= effects@.len(),
            first_error(effects@.take(i as int), effect_check(*data)) is None,
        decreases effects@.len() - i,
    {
        assert(effects@.take(i + 1).drop_last() =~= effects@.take(i as int));
        assert(effects@.take(i + 1).last() == effects@[i as int]);
        match effects[i].validate_references(data) {
            Err(e) => {
                proof {
                    lemma_first_error_prefix(effects@, effect_check(*data), i as int + 1);
                }
                return Err(e);
            },
            Ok(()) => {},
        }
        i = i + 1;
    }
    assert(effects@.take(effects@.len() as int) =~= effects@);
    Ok(())
}

/// An error found in a prefix is the first error of the whole list.
proof fn lemma_first_error_prefix<T>(items: Seq<T>, check: spec_fn(T) -> Option<Seq<char>>, n: int)
    requires
        0 <= n <= items.len(),
        first_error(items.take(n), check) is Some,
    ensures
        first_error(items, check) == first_error(items.take(n), check),
    decreases items.len() - n,
{
    if n < items.len() {
        assert(items.take(n + 1).drop_last() =~= items.take(n));
        lemma_first_error_prefix(items, check, n + 1);
    } else {
        assert(items.take(n) =~= items);
    }
}

/// How `verb` is named in reports.
fn verb_label(verb: Verb) -> (s: &'static str)
    ensures
        s@ == verb_name(verb),
{
    match verb {
        Verb::Look => "Look",
        Verb::Go => "Go",
        Verb::Examine => "Examine",
        Verb::Take => "Take",
        Verb::Drop => "Drop",
        Verb::Use => "Use",
        Verb::Talk => "Talk",
    }
}

impl InteractionData {
    /// Reports an interaction naming an undeclared object or NPC.
    pub(crate) fn validate_references(&self, data: &WorldData) -> (r: Result<(), WorldDataError>)
        ensures
            reports(r, interaction_error(*data, *self)),
    {
        let verb = verb_label(self.verb);
        match &self.item {
            Some(item) => if data.find_object(item).is_none() {
                return Err(
                    WorldDataError::Validation(
                        quote2("interaction with verb `", verb, "` references unknown object key `", item.get(), "`"),
                    ),
                );
            },
            None => {},
        }
        match &self.target {
            Some(DataTarget::Object { object }) => if data.find_object(object).is_none() {
                return Err(
                    WorldDataError::Validation(
                        quote2("interaction with verb `", verb, "` references unknown object key `", object.get(), "`"),
                    ),
                );
            },
            Some(DataTarget::Npc { npc }) => if !npc_known(data, npc) {
                return Err(
                    WorldDataError::Validation(
                        quote2("interaction with verb `", verb, "` references unknown npc key `", npc.get(), "`"),
                    ),
                );
            },
            _ => {},
        }
        match check_conditions(data, &self.condition) {
            Err(e) => return Err(e),
            Ok(()) => {},
        }
        check_effects(data, &self.effect)
    }
}

/// Whether the dialogue of `npc` has a node with key `id`.
fn npc_has_node(npc: &NpcData, id: &DialogueNodeId) -> (b: bool)
    ensures
        b == has_node(*npc, id@),
{
    let mut i: usize = 0;
    while i < npc.dialogue.nodes.len()
        invariant
            i <= npc.dialogue.nodes@.len(),
            forall|k: int| 0 <= k < i ==> (#[trigger] npc.dialogue.nodes@[k]).0@ != id@,
        decreases npc.dialogue.nodes@.len() - i,
    {
        if npc.dialogue.nodes[i].0 == *id {
            return true;
        }
        i = i + 1;
    }
    false
}

/// A choice of node `node_id` leading nowhere, or running a bad effect.
fn check_choice(data: &WorldData, npc: &NpcData, node_id: &DialogueNodeId, choice: &DialogueChoiceData) -> (r: Result<(), WorldDataError>)
    ensures
        reports(r, choice_error(*data, *npc, node_id@, *choice)),
{
    if !str_eq(choice.next.get(), ".end") && !npc_has_node(npc, &choice.next) {
        let mut m = quote2("npc `", npc.id.get(), "` dialogue node `", node_id.get(), "` choice references unknown node `");
        m.append(choice.next.get());
        m.append("`");
        Err(WorldDataError::Validation(m))
    } else {
        check_effects(data, &choice.effect)
    }
}

/// The first bad choice of a dialogue node.
fn check_node(data: &WorldData, npc: &NpcData, node_id: &DialogueNodeId, node: &DialogueNodeData) -> (r: Result<(), WorldDataError>)
    ensures
        reports(r, first_error(node.choices@, choice_check(*data, *npc, node_id@))),
{
    let mut i: usize = 0;
    while i < node.choices.len()
        invariant
            i <= node.choices@.len(),
            first_error(node.choices@.take(i as int), choice_check(*data, *npc, node_id@)) is None,
        decreases node.choices@.len() - i,
    {
        assert(node.choices@.take(i + 1).drop_last() =~= node.choices@.take(i as int));
        assert(node.choices@.take(i + 1).last() == node.choices@[i as int]);
        match check_choice(data, npc, node_id, &node.choices[i]) {
            Err(e) => {
                proof {
                    lemma_first_error_prefix(node.choices@, choice_check(*data, *npc, node_id@), i as int + 1);
                }
                return Err(e);
            },
            Ok(()) => {},
        }
        i = i + 1;
    }
    assert(node.choices@.take(node.choices@.len() as int) =~= node.choices@);
    Ok(())
}

impl NpcData {
    /// An NPC in an undeclared room, or with a dialogue naming a node it lacks,
    /// or running a bad effect.
    pub(crate) fn validate_references(&self, data: &WorldData) -> (r: Result<(), WorldDataError>)
        ensures
            reports(r, npc_error(*data, *self)),
    {
        if data.find_room(&self.room).is_none() {
            return Err(
                WorldDataError::Validation(
                    quote2("npc `", self.id.get(), "` references unknown room id `", self.room.get(), "`"),
                ),
            );
        }
        if !npc_has_node(self, &self.dialogue.root) {
            return Err(
                WorldDataError::Validation(
                    quote2("npc `", self.id.get(), "` dialogue root references unknown node `", self.dialogue.root.get(), "`"),
                ),
            );
        }
        let nodes = &self.dialogue.nodes;
        let mut i: usize = 0;
        while i < nodes.len()
            invariant
                i <= nodes@.len(),
                *nodes == self.dialogue.nodes,
                known_room(*data, self.room@),
                has_node(*self, self.dialogue.root@),
                first_error(nodes@.take(i as int), node_check(*data, *self)) is None,
            decreases nodes@.len() - i,
        {
            assert(nodes@.take(i + 1).drop_last() =~= nodes@.take(i as int));
            assert(nodes@.take(i + 1).last() == nodes@[i as int]);
            match check_node(data, self, &nodes[i].0, &nodes[i].1) {
                Err(e) => {
                    proof {
                        lemma_first_error_prefix(nodes@, node_check(*data, *self), i as int + 1);
                    }
                    return Err(e);
                },
                Ok(()) => {},
            }
            i = i + 1;
        }
        assert(nodes@.take(nodes@.len() as int) =~= nodes@);
        Ok(())
    }
}

impl TriggerData {
    /// Reports a trigger with a bad condition or effect.
    pub(crate) fn validate_references(&self, data: &WorldData) -> (r: Result<(), WorldDataError>)
        ensures
            reports(r, trigger_error(*data, *self)),
    {
        match check_conditions(data, &self.condition) {
            Err(e) => return Err(e),
            Ok(()) => {},
        }
        check_effects(data, &self.effect)
    }
}

/// The object keys, in declaration order.
fn object_keys(data: &WorldData) -> (keys: Vec<&str>)
    ensures
        keys@.map_values(|k: &str| k@) == declared_object_keys(*data),
{
    let mut keys: Vec<&str> = Vec::new();
    let mut i: usize = 0;
    while i < data.objects.len()
        invariant
            i <= data.objects@.len(),
            keys@.len() == i,
            forall|k: int| 0 <= k < i ==> (#[trigger] keys@[k])@ == data.objects@[k].id@,
        decreases data.objects@.len() - i,
    {
        keys.push(data.objects[i].id.get());
        i = i + 1;
    }
    assert(keys@.map_values(|k: &str| k@) =~= declared_object_keys(*data));
    keys
}

/// The room keys, in declaration order.
fn room_keys(data: &WorldData) -> (keys: Vec<&str>)
    ensures
        keys@.map_values(|k: &str| k@) == declared_room_keys(*data),
{
    let mut keys: Vec<&str> = Vec::new();
    let mut i: usize = 0;
    while i < data.rooms.len()
        invariant
            i <= data.rooms@.len(),
            keys@.len() == i,
            forall|k: int| 0 <= k < i ==> (#[trigger] keys@[k])@ == data.rooms@[k].id@,
        decreases data.rooms@.len() - i,
    {
        keys.push(data.rooms[i].id.get());
        i = i + 1;
    }
    assert(keys@.map_values(|k: &str| k@) =~= declared_room_keys(*data));
    keys
}

/// The trigger keys, in declaration order.
fn trigger_keys(data: &WorldData) -> (keys: Vec<&str>)
    ensures
        keys@.map_values(|k: &str| k@) == declared_trigger_keys(*data),
{
    let mut keys: Vec<&str> = Vec::new();
    let mut i: usize = 0;
    while i < data.triggers.len()
        invariant
            i <= data.triggers@.len(),
            keys@.len() == i,
            forall|k: int| 0 <= k < i ==> (#[trigger] keys@[k])@ == data.triggers@[k].id@,
        decreases data.triggers@.len() - i,
    {
        keys.push(data.triggers[i].id.get());
        i = i + 1;
    }
    assert(keys@.map_values(|k: &str| k@) =~= declared_trigger_keys(*data));
    keys
}

/// Runs the room reference check over every room.
fn check_all_room_refs(data: &WorldData) -> (r: Result<(), WorldDataError>)
    ensures
        reports(r, first_error(data.rooms@, room_ref_check(*data))),
{
    let mut i: usize = 0;
    while i < data.rooms.len()
        invariant
            i <= data.rooms@.len(),
            first_error(data.rooms@.take(i as int), room_ref_check(*data)) is None,
        decreases data.rooms@.len() - i,
    {
        assert(data.rooms@.take(i + 1).drop_last() =~= data.rooms@.take(i as int));
        match data.rooms[i].validate_references(data) {
            Err(e) => {
                proof {
                    lemma_first_error_prefix(data.rooms@, room_ref_check(*data), i as int + 1);
                }
                return Err(e);
            },
            Ok(()) => {},
        }
        i = i + 1;
    }
    assert(data.rooms@.take(data.rooms@.len() as int) =~= data.rooms@);
    Ok(())
}

/// Runs the door direction check over every room.
fn check_all_room_directions(data: &WorldData) -> (r: Result<(), WorldDataError>)
    ensures
        reports(r, first_error(data.rooms@, room_direction_check(*data))),
{
    let mut i: usize = 0;
    while i < data.rooms.len()
        invariant
            i <= data.rooms@.len(),
            first_error(data.rooms@.take(i as int), room_direction_check(*data)) is None,
        decreases data.rooms@.len() - i,
    {
        assert(data.rooms@.take(i + 1).drop_last() =~= data.rooms@.take(i as int));
        match data.rooms[i].validate_unique_directions(data) {
            Err(e) => {
                proof {
                    lemma_first_error_prefix(data.rooms@, room_direction_check(*data), i as int + 1);
                }
                return Err(e);
            },
            Ok(()) => {},
        }
        i = i + 1;
    }
    assert(data.rooms@.take(data.rooms@.len() as int) =~= data.rooms@);
    Ok(())
}

/// Runs the door check over every object.
fn check_all_objects(data: &WorldData) -> (r: Result<(), WorldDataError>)
    ensures
        reports(r, first_error(data.objects@, object_check(*data))),
{
    let mut i: usize = 0;
    while i < data.objects.len()
        invariant
            i <= data.objects@.len(),
            first_error(data.objects@.take(i as int), object_check(*data)) is None,
        decreases data.objects@.len() - i,
    {
        assert(data.objects@.take(i + 1).drop_last() =~= data.objects@.take(i as int));
        match data.objects[i].validate_references(data) {
            Err(e) => {
                proof {
                    lemma_first_error_prefix(data.objects@, object_check(*data), i as int + 1);
                }
                return Err(e);
            },
            Ok(()) => {},
        }
        i = i + 1;
    }
    assert(data.objects@.take(data.objects@.len() as int) =~= data.objects@);
    Ok(())
}

/// Runs the interaction check over every interaction.
fn check_all_interactions(data: &WorldData) -> (r: Result<(), WorldDataError>)
    ensures
        reports(r, first_error(data.interactions@, interaction_check(*data))),
{
    let mut i: usize = 0;
    while i < data.interactions.len()
        invariant
            i <= data.interactions@.len(),
            first_error(data.interactions@.take(i as int), interaction_check(*data)) is None,
        decreases data.interactions@.len() - i,
    {
        assert(data.interactions@.take(i + 1).drop_last() =~= data.interactions@.take(i as int));
        match data.interactions[i].validate_references(data) {
            Err(e) => {
                proof {
                    lemma_first_error_prefix(data.interactions@, interaction_check(*data), i as int + 1);
                }
                return Err(e);
            },
            Ok(()) => {},
        }
        i = i + 1;
    }
    assert(data.interactions@.take(data.interactions@.len() as int) =~= data.interactions@);
    Ok(())
}

/// Runs the NPC check over every NPC.
fn check_all_npcs(data: &WorldData) -> (r: Result<(), WorldDataError>)
    ensures
        reports(r, first_error(data.npcs@, npc_check(*data))),
{
    let mut i: usize = 0;
    while i < data.npcs.len()
        invariant
            i <= data.npcs@.len(),
            first_error(data.npcs@.take(i as int), npc_check(*data)) is None,
        decreases data.npcs@.len() - i,
    {
        assert(data.npcs@.take(i + 1).drop_last() =~= data.npcs@.take(i as int));
        match data.npcs[i].validate_references(data) {
            Err(e) => {
                proof {
                    lemma_first_error_prefix(data.npcs@, npc_check(*data), i as int + 1);
                }
                return Err(e);
            },
            Ok(()) => {},
        }
        i = i + 1;
    }
    assert(data.npcs@.take(data.npcs@.len() as int) =~= data.npcs@);
    Ok(())
}

/// Runs the trigger check over every trigger.
fn check_all_triggers(data: &WorldData) -> (r: Result<(), WorldDataError>)
    ensures
        reports(r, first_error(data.triggers@, trigger_check(*data))),
{
    let mut i: usize = 0;
    while i < data.triggers.len()
        invariant
            i <= data.triggers@.len(),
            first_error(data.triggers@.take(i as int), trigger_check(*data)) is None,
        decreases data.triggers@.len() - i,
    {
        assert(data.triggers@.take(i + 1).drop_last() =~= data.triggers@.take(i as int));
        match data.triggers[i].validate_references(data) {
            Err(e) => {
                proof {
                    lemma_first_error_prefix(data.triggers@, trigger_check(*data), i as int + 1);
                }
                return Err(e);
            },
            Ok(()) => {},
        }
        i = i + 1;
    }
    assert(data.triggers@.take(data.triggers@.len() as int) =~= data.triggers@);
    Ok(())
}

impl WorldData {
    /// Checks the world data for structural integrity: unique object, room
    /// and trigger keys, at least one room, and every key reference (room
    /// memberships, door directions and destinations, interaction fields,
    /// NPC rooms and dialogue, trigger conditions and effects) resolving to a
    /// declared key. Reports the first problem found.
    pub fn validate(&self) -> (r: Result<(), WorldDataError>)
        ensures
            reports(r, validation_error(*self)),
    {
        let objects = object_keys(self);
        match ensure_unique_keys(&objects, "object key `") {
            Err(e) => return Err(e),
            Ok(()) => {},
        }
        let rooms = room_keys(self);
        match ensure_unique_keys(&rooms, "room key `") {
            Err(e) => return Err(e),
            Ok(()) => {},
        }
        let triggers = trigger_keys(self);
        match ensure_unique_keys(&triggers, "trigger key `") {
            Err(e) => return Err(e),
            Ok(()) => {},
        }
        if self.rooms.len() == 0 {
            return Err(WorldDataError::Validation("world data must declare at least one room".to_string()));
        }
        match check_all_room_refs(self) {
            Err(e) => return Err(e),
            Ok(()) => {},
        }
        match check_all_room_directions(self) {
            Err(e) => return Err(e),
            Ok(()) => {},
        }
        match check_all_objects(self) {
            Err(e) => return Err(e),
            Ok(()) => {},
        }
        match check_all_interactions(self) {
            Err(e) => return Err(e),
            Ok(()) => {},
        }
        match check_all_npcs(self) {
            Err(e) => return Err(e),
            Ok(()) => {},
        }
        check_all_triggers(self)
    }
}

/// A key list in which no repeat is found holds no key twice.
proof fn lemma_no_first_dup(keys: Seq<Seq<char>>)
    requires
        first_dup(keys) == -1,
    ensures
        keys.no_duplicates(),
    decreases keys.len(),
{
    if keys.len() > 0 {
        let front = keys.drop_last();
        lemma_no_first_dup(front);
        assert forall|i: int, j: int| 0 <= i < keys.len() && 0 <= j < keys.len() && i != j implies keys[i]
            != keys[j] by {
            if i < front.len() && j < front.len() {
                assert(front[i] == keys[i] && front[j] == keys[j]);
            } else if i < front.len() {
                assert(front[i] == keys[i]);
                assert(keys[j] == keys.last());
            } else {
                assert(front[j] == keys[j]);
                assert(keys[i] == keys.last());
            }
        }
    }
}

/// A list in which no first error is found passes the check item by item.
proof fn lemma_first_error_none<T>(items: Seq<T>, check: spec_fn(T) -> Option<Seq<char>>, i: int)
    requires
        first_error(items, check) is None,
        0 <= i < items.len(),
    ensures
        check(items[i]) is None,
    decreases items.len(),
{
    if i < items.len() - 1 {
        assert(items.drop_last()[i] == items[i]);
        lemma_first_error_none(items.drop_last(), check, i);
    }
}

/// The door of an object, if any, leads to a room `data` declares.
pub open spec fn door_resolves(data: WorldData, object: ObjectData) -> bool {
    object.door matches Some(d) ==> known_room(data, d.to@)
}

/// The item and target an interaction names are declared.
pub open spec fn interaction_resolves(data: WorldData, interaction: InteractionData) -> bool {
    &&& (interaction.item matches Some(id) ==> known_object(data, id@))
    &&& (interaction.target matches Some(DataTarget::Object { object }) ==> known_object(data, object@))
    &&& (interaction.target matches Some(DataTarget::Npc { npc }) ==> known_npc(data, npc@))
}

/// World data that passes validation declares each object, room and
/// trigger key once and at least one room; every object a room lists is
/// declared, every door leads to a declared room, every interaction names
/// declared objects and NPCs, and every NPC lives in a declared room and
/// starts its dialogue at a node it has.
pub proof fn law_valid_data_resolves(data: WorldData)
    requires
        validation_error(data) is None,
    ensures
        declared_object_keys(data).no_duplicates(),
        declared_room_keys(data).no_duplicates(),
        declared_trigger_keys(data).no_duplicates(),
        data.rooms@.len() > 0,
        forall|r: int, i: int|
            0 <= r < data.rooms@.len() && 0 <= i < room_ids(data.rooms@[r]).len() ==> known_object(
                data,
                (#[trigger] room_ids(data.rooms@[r])[i])@,
            ),
        forall|o: int| 0 <= o < data.objects@.len() ==> door_resolves(data, #[trigger] data.objects@[o]),
        forall|k: int| 0 <= k < data.interactions@.len() ==> interaction_resolves(data, #[trigger] data.interactions@[k]),
        forall|n: int|
            0 <= n < data.npcs@.len() ==> known_room(data, (#[trigger] data.npcs@[n]).room@) && has_node(
                data.npcs@[n],
                data.npcs@[n].dialogue.root@,
            ),
{
    lemma_no_first_dup(declared_object_keys(data));
    lemma_no_first_dup(declared_room_keys(data));
    lemma_no_first_dup(declared_trigger_keys(data));
    assert forall|r: int, i: int|
        0 <= r < data.rooms@.len() && 0 <= i < room_ids(data.rooms@[r]).len() implies known_object(
        data,
        (#[trigger] room_ids(data.rooms@[r])[i])@,
    ) by {
        lemma_first_error_none(data.rooms@, room_ref_check(data), r);
        lemma_first_index(room_ids(data.rooms@[r]), unknown_object(data));
        assert(!unknown_object(data)(room_ids(data.rooms@[r])[i]));
    }
    assert forall|o: int| 0 <= o < data.objects@.len() implies door_resolves(data, #[trigger] data.objects@[o]) by {
        lemma_first_error_none(data.objects@, object_check(data), o);
    }
    assert forall|k: int| 0 <= k < data.interactions@.len() implies interaction_resolves(
        data,
        #[trigger] data.interactions@[k],
    ) by {
        lemma_first_error_none(data.interactions@, interaction_check(data), k);
    }
    assert forall|n: int| 0 <= n < data.npcs@.len() implies known_room(data, (#[trigger] data.npcs@[n]).room@)
        && has_node(data.npcs@[n], data.npcs@[n].dialogue.root@) by {
        lemma_first_error_none(data.npcs@, npc_check(data), n);
    }
}

/// Every key a condition names, at any depth of negation, is declared: a
/// room condition names a declared room, a held-object condition a declared
/// object.
pub open spec fn condition_resolves(data: WorldData, condition: DataCondition) -> bool
    decreases condition,
{
    match condition {
        DataCondition::Room { room } => known_room(data, room@),
        DataCondition::PlayerHolds { player_holds } => known_object(data, player_holds@),
        DataCondition::Not { not } => condition_resolves(data, *not),
        _ => true,
    }
}

/// Every object an effect acts on is declared.
pub open spec fn effect_resolves(data: WorldData, effect: DataEffect) -> bool {
    match effect {
        DataEffect::Take { take } => known_object(data, take@),
        DataEffect::Grant { grant } => known_object(data, grant@),
        DataEffect::Drop { drop } => known_object(data, drop@),
        DataEffect::Discard { discard } => known_object(data, discard@),
        DataEffect::RevealObject { reveal_object } => known_object(data, reveal_object@),
        DataEffect::HideObject { hide_object } => known_object(data, hide_object@),
        _ => true,
    }
}

proof fn lemma_condition_resolves(data: WorldData, condition: DataCondition)
    requires
        condition_error(data, condition) is None,
    ensures
        condition_resolves(data, condition),
    decreases condition,
{
    if let DataCondition::Not { not } = condition {
        lemma_condition_resolves(data, *not);
    }
}

proof fn lemma_lists_resolve(data: WorldData, conditions: Seq<DataCondition>, effects: Seq<DataEffect>)
    requires
        conditions_error(data, conditions) is None,
        effects_error(data, effects) is None,
    ensures
        forall|c: int| 0 <= c < conditions.len() ==> condition_resolves(data, #[trigger] conditions[c]),
        forall|e: int| 0 <= e < effects.len() ==> effect_resolves(data, #[trigger] effects[e]),
{
    assert forall|c: int| 0 <= c < conditions.len() implies condition_resolves(data, #[trigger] conditions[c]) by {
        lemma_first_error_none(conditions, condition_check(data), c);
        lemma_condition_resolves(data, conditions[c]);
    }
    assert forall|e: int| 0 <= e < effects.len() implies effect_resolves(data, #[trigger] effects[e]) by {
        lemma_first_error_none(effects, effect_check(data), e);
    }
}

/// World data that passes validation names only declared keys in the
/// conditions and effects of its interactions and triggers: every room and
/// held object a condition names (under any number of negations), and every
/// object an effect acts on, is declared.
pub proof fn law_valid_data_conditions_resolve(data: WorldData)
    requires
        validation_error(data) is None,
    ensures
        forall|k: int, c: int|
            0 <= k < data.interactions@.len() && 0 <= c < data.interactions@[k].condition@.len()
                ==> condition_resolves(data, #[trigger] data.interactions@[k].condition@[c]),
        forall|k: int, e: int|
            0 <= k < data.interactions@.len() && 0 <= e < data.interactions@[k].effect@.len()
                ==> effect_resolves(data, #[trigger] data.interactions@[k].effect@[e]),
        forall|t: int, c: int|
            0 <= t < data.triggers@.len() && 0 <= c < data.triggers@[t].condition@.len() ==> condition_resolves(
                data,
                #[trigger] data.triggers@[t].condition@[c],
            ),
        forall|t: int, e: int|
            0 <= t < data.triggers@.len() && 0 <= e < data.triggers@[t].effect@.len() ==> effect_resolves(
                data,
                #[trigger] data.triggers@[t].effect@[e],
            ),
{
    assert forall|k: int, c: int|
        0 <= k < data.interactions@.len() && 0 <= c < data.interactions@[k].condition@.len() implies condition_resolves(
        data,
        #[trigger] data.interactions@[k].condition@[c],
    ) by {
        lemma_first_error_none(data.interactions@, interaction_check(data), k);
        lemma_lists_resolve(data, data.interactions@[k].condition@, data.interactions@[k].effect@);
    }
    assert forall|k: int, e: int|
        0 <= k < data.interactions@.len() && 0 <= e < data.interactions@[k].effect@.len() implies effect_resolves(
        data,
        #[trigger] data.interactions@[k].effect@[e],
    ) by {
        lemma_first_error_none(data.interactions@, interaction_check(data), k);
        lemma_lists_resolve(data, data.interactions@[k].condition@, data.interactions@[k].effect@);
    }
    assert forall|t: int, c: int|
        0 <= t < data.triggers@.len() && 0 <= c < data.triggers@[t].condition@.len() implies condition_resolves(
        data,
        #[trigger] data.triggers@[t].condition@[c],
    ) by {
        lemma_first_error_none(data.triggers@, trigger_check(data), t);
        lemma_lists_resolve(data, data.triggers@[t].condition@, data.triggers@[t].effect@);
    }
    assert forall|t: int, e: int|
        0 <= t < data.triggers@.len() && 0 <= e < data.triggers@[t].effect@.len() implies effect_resolves(
        data,
        #[trigger] data.triggers@[t].effect@[e],
    ) by {
        lemma_first_error_none(data.triggers@, trigger_check(data), t);
        lemma_lists_resolve(data, data.triggers@[t].condition@, data.triggers@[t].effect@);
    }
}

} // verus!
