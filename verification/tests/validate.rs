use typegin_core::data::door_data::DoorData;
use typegin_core::data::interactions_data::{DataCondition, DataEffect, DataTarget, InteractionData};
use typegin_core::data::npc_data::{DialogueChoiceData, DialogueData, DialogueNodeData, NpcData};
use typegin_core::data::object_data::{ObjectData, ObjectKind};
use typegin_core::data::room_data::RoomData;
use typegin_core::data::trigger_data::TriggerData;
use typegin_core::data::validate::WorldDataError;
use typegin_core::data::WorldData;
use typegin_core::interaction::verb::Verb;
use typegin_core::keys::{DialogueNodeId, NpcId, ObjectId, RoomId, TriggerId};

fn object(id: &str, door: Option<DoorData>) -> ObjectData {
    ObjectData {
        id: ObjectId::new(id),
        primary_name: id.to_string(),
        aliases: vec![],
        kind: if door.is_some() { ObjectKind::Scene } else { ObjectKind::Item },
        door,
    }
}

fn door(direction: &str, to: &str) -> Option<DoorData> {
    Some(DoorData { direction: direction.to_string(), to: to.to_string(), locked: false })
}

fn room(id: &str, visible: &[&str], hidden: &[&str]) -> RoomData {
    RoomData {
        id: RoomId::new(id),
        visible_objects: visible.iter().map(|k| ObjectId::new(k)).collect(),
        hidden_objects: hidden.iter().map(|k| ObjectId::new(k)).collect(),
    }
}

fn npc(room_id: &str, root: &str, next: &str) -> NpcData {
    NpcData {
        id: NpcId::new("guard"),
        primary_name: "guard".to_string(),
        aliases: vec![],
        room: RoomId::new(room_id),
        dialogue: DialogueData {
            root: DialogueNodeId::new(root),
            nodes: vec![(
                DialogueNodeId::new("start"),
                DialogueNodeData {
                    text: "Halt!".to_string(),
                    choices: vec![DialogueChoiceData {
                        option_id: None,
                        label: "Go".to_string(),
                        next: DialogueNodeId::new(next),
                        effect: vec![],
                    }],
                },
            )],
        },
    }
}

/// A valid world: two rooms joined by doors, a key, an interaction, an NPC
/// and a trigger.
fn valid() -> WorldData {
    WorldData {
        flags: vec![],
        objects: vec![object("key", None), object("n-door", door("north", "study")), object("s-door", door("south", "hall"))],
        rooms: vec![room("hall", &["key", "n-door"], &[]), room("study", &["s-door"], &[])],
        interactions: vec![InteractionData {
            verb: Verb::Use,
            item: Some(ObjectId::new("key")),
            target: Some(DataTarget::Object { object: ObjectId::new("n-door") }),
            condition: vec![DataCondition::PlayerHolds { player_holds: ObjectId::new("key") }],
            effect: vec![DataEffect::Discard { discard: ObjectId::new("key") }],
        }],
        npcs: vec![npc("hall", "start", ".end")],
        triggers: vec![TriggerData {
            id: TriggerId::new("t"),
            condition: vec![DataCondition::Room { room: RoomId::new("study") }],
            effect: vec![DataEffect::SetFlag { flag: "seen".to_string() }],
        }],
    }
}

fn error(data: &WorldData) -> String {
    match data.validate() {
        Err(WorldDataError::Validation(message)) => message,
        Ok(()) => panic!("expected a validation error"),
    }
}

#[test]
fn validate_accepts_a_consistent_world() {
    assert_eq!(valid().validate(), Ok(()));
}

#[test]
fn validate_reports_a_repeated_object_key() {
    let mut data = valid();
    data.objects.push(object("key", None));
    assert_eq!(error(&data), "object key `key` declared more than once");
}

#[test]
fn validate_reports_a_repeated_room_key() {
    let mut data = valid();
    data.rooms.push(room("hall", &[], &[]));
    assert_eq!(error(&data), "room key `hall` declared more than once");
}

#[test]
fn validate_reports_a_repeated_trigger_key() {
    let mut data = valid();
    let again = TriggerData { id: TriggerId::new("t"), condition: vec![], effect: vec![] };
    data.triggers.push(again);
    assert_eq!(error(&data), "trigger key `t` declared more than once");
}

#[test]
fn validate_requires_a_room() {
    let data = WorldData { flags: vec![], objects: vec![], rooms: vec![], interactions: vec![], npcs: vec![], triggers: vec![] };
    assert_eq!(error(&data), "world data must declare at least one room");
}

#[test]
fn validate_reports_a_room_listing_an_unknown_object() {
    let mut data = valid();
    data.rooms[1].hidden_objects.push(ObjectId::new("ghost"));
    assert_eq!(error(&data), "room `study` references unknown object key `ghost`");
}

#[test]
fn validate_reports_two_doors_in_one_direction() {
    let mut data = valid();
    data.objects.push(object("n-door-2", door("north", "study")));
    data.rooms[0].hidden_objects.push(ObjectId::new("n-door-2"));
    assert_eq!(error(&data), "room `hall` declares more than one exit in direction `north`");
}

#[test]
fn validate_reports_a_door_to_an_unknown_room() {
    let mut data = valid();
    data.objects[1] = object("n-door", door("north", "attic"));
    assert_eq!(error(&data), "object `n-door` door leads to unknown room key `attic`");
}

#[test]
fn validate_reports_an_interaction_with_an_unknown_item() {
    let mut data = valid();
    data.interactions[0].item = Some(ObjectId::new("crowbar"));
    assert_eq!(error(&data), "interaction with verb `Use` references unknown object key `crowbar`");
}

#[test]
fn validate_reports_an_interaction_with_an_unknown_npc() {
    let mut data = valid();
    data.interactions[0].target = Some(DataTarget::Npc { npc: NpcId::new("ghost") });
    assert_eq!(error(&data), "interaction with verb `Use` references unknown npc key `ghost`");
}

#[test]
fn validate_reports_an_unknown_room_in_a_condition() {
    let mut data = valid();
    data.interactions[0].condition = vec![DataCondition::Not {
        not: Box::new(DataCondition::Room { room: RoomId::new("attic") }),
    }];
    assert_eq!(error(&data), "condition references unknown room key `attic`");
}

#[test]
fn validate_reports_an_unknown_object_in_an_effect() {
    let mut data = valid();
    data.interactions[0].effect = vec![DataEffect::Grant { grant: ObjectId::new("gem") }];
    assert_eq!(error(&data), "effect references unknown object key `gem`");
}

#[test]
fn validate_reports_an_npc_in_an_unknown_room() {
    let mut data = valid();
    data.npcs[0] = npc("attic", "start", ".end");
    assert_eq!(error(&data), "npc `guard` references unknown room id `attic`");
}

#[test]
fn validate_reports_an_unknown_dialogue_root() {
    let mut data = valid();
    data.npcs[0] = npc("hall", "hello", ".end");
    assert_eq!(error(&data), "npc `guard` dialogue root references unknown node `hello`");
}

#[test]
fn validate_reports_a_choice_leading_to_an_unknown_node() {
    let mut data = valid();
    data.npcs[0] = npc("hall", "start", "later");
    assert_eq!(error(&data), "npc `guard` dialogue node `start` choice references unknown node `later`");
}

#[test]
fn validate_reports_an_unknown_object_in_a_trigger() {
    let mut data = valid();
    data.triggers[0].effect = vec![DataEffect::RevealObject { reveal_object: ObjectId::new("gem") }];
    assert_eq!(error(&data), "effect references unknown object key `gem`");
}

#[test]
fn validate_reports_the_first_problem_in_check_order() {
    let mut data = valid();
    data.npcs[0] = npc("attic", "start", ".end");
    data.rooms[0].visible_objects.push(ObjectId::new("ghost"));
    assert_eq!(error(&data), "room `hall` references unknown object key `ghost`");
}

#[test]
fn world_data_error_reads_as_a_sentence() {
    let e = WorldDataError::Validation("room key `hall` declared more than once".to_string());
    assert_eq!(e.to_string(), "invalid world data: room key `hall` declared more than once");
}
