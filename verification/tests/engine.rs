use typegin_core::data::door_data::DoorData;
use typegin_core::data::interactions_data::{DataCondition, DataEffect, DataTarget, InteractionData};
use typegin_core::data::npc_data::{DialogueChoiceData, DialogueData, DialogueNodeData, NpcData};
use typegin_core::data::object_data::{ObjectData, ObjectKind};
use typegin_core::data::room_data::RoomData;
use typegin_core::data::trigger_data::TriggerData;
use typegin_core::data::WorldData;
use typegin_core::engine::GameEngine;
use typegin_core::event::Event;
use typegin_core::input::action::{Action, GoTarget, Locator};
use typegin_core::input::direction::Direction;
use typegin_core::interaction::target::Target;
use typegin_core::interaction::verb::Verb;
use typegin_core::keys::{DialogueNodeId, NpcId, ObjectId, RoomId, TriggerId};
use typegin_core::rules::BasicRules;

fn object(id: &str, kind: ObjectKind, aliases: &[&str], door: Option<DoorData>) -> ObjectData {
    let name = match id {
        "north-door" => "gate",
        "south-door" => "hatch",
        other => other,
    };
    ObjectData {
        id: ObjectId::new(id),
        primary_name: name.to_string(),
        aliases: aliases.iter().map(|a| a.to_string()).collect(),
        kind,
        door,
    }
}

fn door(direction: &str, to: &str, locked: bool) -> Option<DoorData> {
    Some(DoorData { direction: direction.to_string(), to: to.to_string(), locked })
}

fn ids(keys: &[&str]) -> Vec<ObjectId> {
    keys.iter().map(|k| ObjectId::new(k)).collect()
}

/// `hall` (start) holds a `key` and a locked `north-door` (the "gate") to
/// `study`, and a `guard`; `study` holds a `desk`, an open `south-door` (the
/// "hatch") back, and a hidden `coin`. Using the key on the north door unlocks it; entering the study
/// the first time says "welcome".
fn data() -> WorldData {
    WorldData {
        flags: vec!["lamp-lit".to_string()],
        objects: vec![
            object("key", ObjectKind::Item, &["brass key"], None),
            object("desk", ObjectKind::Scene, &[], None),
            object("coin", ObjectKind::Item, &[], None),
            object("north-door", ObjectKind::Scene, &[], door("north", "study", true)),
            object("south-door", ObjectKind::Scene, &[], door("south", "hall", false)),
        ],
        rooms: vec![
            RoomData { id: RoomId::new("hall"), visible_objects: ids(&["key", "north-door"]), hidden_objects: vec![] },
            RoomData {
                id: RoomId::new("study"),
                visible_objects: ids(&["desk", "south-door"]),
                hidden_objects: ids(&["coin"]),
            },
        ],
        interactions: vec![InteractionData {
            verb: Verb::Use,
            item: Some(ObjectId::new("key")),
            target: Some(DataTarget::Object { object: ObjectId::new("north-door") }),
            condition: vec![DataCondition::ExitLocked { exit_locked: Direction::North }],
            effect: vec![
                DataEffect::UnlockExit { unlock_exit: Direction::North },
                DataEffect::Emit { emit: "door-creaks".to_string() },
            ],
        }],
        npcs: vec![NpcData {
            id: NpcId::new("guard"),
            primary_name: "guard".to_string(),
            aliases: vec![],
            room: RoomId::new("hall"),
            dialogue: DialogueData {
                root: DialogueNodeId::new("start"),
                nodes: vec![
                    (
                        DialogueNodeId::new("start"),
                        DialogueNodeData {
                            text: "Halt!".to_string(),
                            choices: vec![
                                DialogueChoiceData {
                                    option_id: None,
                                    label: "Salute".to_string(),
                                    next: DialogueNodeId::new("bye"),
                                    effect: vec![DataEffect::SetFlag { flag: "saluted".to_string() }],
                                },
                                DialogueChoiceData {
                                    option_id: None,
                                    label: "Leave".to_string(),
                                    next: DialogueNodeId::new(".end"),
                                    effect: vec![],
                                },
                            ],
                        },
                    ),
                    (DialogueNodeId::new("bye"), DialogueNodeData { text: "Carry on.".to_string(), choices: vec![] }),
                ],
            },
        }],
        triggers: vec![TriggerData {
            id: TriggerId::new("welcome"),
            condition: vec![DataCondition::Room { room: RoomId::new("study") }],
            effect: vec![DataEffect::Emit { emit: "welcome".to_string() }],
        }],
    }
}

#[test]
fn engine_starts_in_the_first_room_with_the_authored_flags() {
    let engine = GameEngine::get(&data());
    assert_eq!(engine.world().current_room_id(), RoomId::new("hall"));
    assert!(engine.world().has_flag("lamp-lit"));
}

#[test]
fn engine_look_reports_looked() {
    let mut engine = GameEngine::get(&data());
    assert_eq!(engine.handle_input("look"), vec![Event::Looked]);
}

#[test]
fn engine_take_moves_the_item_into_the_inventory() {
    let mut engine = GameEngine::get(&data());
    let events = engine.handle_input("take brass key");
    assert_eq!(events, vec![Event::Took { object_id: ObjectId::new("key"), object: "brass key".to_string() }]);
    assert!(engine.world().player_holds(&ObjectId::new("key")));
}

#[test]
fn engine_take_of_a_scene_object_is_refused() {
    let mut engine = GameEngine::get(&data());
    let events = engine.handle_input("take gate");
    assert_eq!(events, vec![Event::CantTake { object: "gate".to_string() }]);
}

#[test]
fn engine_take_of_an_unknown_object_is_not_found() {
    let mut engine = GameEngine::get(&data());
    let events = engine.handle_input("take spoon");
    assert_eq!(events, vec![Event::TookObjectNotFound { object: "spoon".to_string() }]);
}

#[test]
fn engine_drop_returns_the_item_to_the_room() {
    let mut engine = GameEngine::get(&data());
    engine.handle_input("take key");
    let events = engine.handle_input("drop key");
    assert_eq!(events, vec![Event::Dropped { object_id: ObjectId::new("key"), object: "key".to_string() }]);
    assert!(!engine.world().player_holds(&ObjectId::new("key")));
}

#[test]
fn engine_locked_exit_refuses_the_move() {
    let mut engine = GameEngine::get(&data());
    assert_eq!(engine.handle_input("go north"), vec![Event::WentExitLocked(Direction::North)]);
    assert_eq!(engine.world().current_room_id(), RoomId::new("hall"));
}

#[test]
fn engine_missing_exit_is_an_invalid_direction() {
    let mut engine = GameEngine::get(&data());
    assert_eq!(engine.handle_input("west"), vec![Event::WentInvalidDirection(Direction::West)]);
}

#[test]
fn engine_authored_interaction_unlocks_the_door_and_the_trigger_fires_once() {
    let mut engine = GameEngine::get(&data());
    engine.handle_input("take key");
    let events = engine.handle_input("use key on gate");
    assert_eq!(
        events,
        vec![Event::UnlockedExit { direction: Direction::North }, Event::Custom { name: "door-creaks".to_string() }]
    );
    assert_eq!(
        engine.handle_input("go north"),
        vec![Event::Went(Direction::North), Event::Custom { name: "welcome".to_string() }]
    );
    assert_eq!(engine.handle_input("go south"), vec![Event::Went(Direction::South)]);
    assert_eq!(engine.handle_input("go north"), vec![Event::Went(Direction::North)]);
}

#[test]
fn engine_use_without_a_target_asks_for_one() {
    let mut engine = GameEngine::get(&data());
    engine.handle_input("take key");
    assert_eq!(
        engine.handle_input("use key"),
        vec![Event::UsedTargetNeeded { object_id: ObjectId::new("key"), object: "key".to_string() }]
    );
}

#[test]
fn engine_unknown_command_is_reported_back() {
    let mut engine = GameEngine::get(&data());
    assert_eq!(engine.handle_input("dance wildly"), vec![Event::UnknownEvent { name: "dance wildly".to_string() }]);
}

#[test]
fn engine_examine_names_the_target() {
    let mut engine = GameEngine::get(&data());
    assert_eq!(
        engine.handle_input("examine key"),
        vec![Event::Examined { target: Target::Object(ObjectId::new("key")), target_name: "key".to_string() }]
    );
}

#[test]
fn engine_talk_opens_the_root_node_and_choose_follows_a_choice() {
    let mut engine = GameEngine::get(&data());
    let events = engine.handle_input("talk guard");
    assert_eq!(events.len(), 1);
    match &events[0] {
        Event::Talked { npc_id, node_id, text, choices, .. } => {
            assert_eq!(*npc_id, NpcId::new("guard"));
            assert_eq!(*node_id, DialogueNodeId::new("start"));
            assert_eq!(text, "Halt!");
            assert_eq!(choices.len(), 2);
            assert_eq!(choices[1].next, None);
        }
        other => panic!("unexpected event {other:?}"),
    }
    assert_eq!(engine.world().active_npc(), &Some(NpcId::new("guard")));
    let events = engine.handle_input("choose salute");
    assert_eq!(events[0], Event::FlagSet { flag: "saluted".to_string() });
    assert!(matches!(events.last(), Some(Event::DialogueEnded { .. })));
    assert!(engine.world().has_flag("saluted"));
    assert_eq!(engine.world().active_npc(), &None);
}

#[test]
fn engine_choose_without_a_conversation_is_unknown() {
    let mut engine = GameEngine::get(&data());
    assert_eq!(engine.handle_input("choose 1"), vec![Event::UnknownEvent { name: "1".to_string() }]);
}

#[test]
fn engine_execute_action_accepts_known_ids() {
    let mut engine = GameEngine::get(&data());
    let events = engine.execute_action(Action::Take(Locator::Id(ObjectId::new("key"))));
    assert_eq!(events, vec![Event::Took { object_id: ObjectId::new("key"), object: "key".to_string() }]);
    let events = engine.execute_action(Action::Go(GoTarget::Id(ObjectId::new("north-door"))));
    assert_eq!(
        events,
        vec![Event::EnteredExitLocked { object_id: ObjectId::new("north-door"), object: "gate".to_string() }]
    );
}

#[test]
fn engine_interactions_for_lists_the_live_authored_interaction() {
    let engine = GameEngine::get(&data());
    let live = engine.interactions_for(
        Some(ObjectId::new("key")),
        Some(Target::Object(ObjectId::new("north-door"))),
    );
    assert_eq!(live.len(), 1);
    assert_eq!(live[0].verb(), Verb::Use);
    let none = engine.interactions_for(Some(ObjectId::new("desk")), None);
    assert!(none.is_empty());
}

#[test]
fn engine_interactions_for_the_guard_include_the_talk_hotspot() {
    let engine = GameEngine::get(&data());
    let live = engine.interactions_for(None, Some(Target::Npc(NpcId::new("guard"))));
    assert_eq!(live.len(), 1);
    assert_eq!(live[0].verb(), Verb::Talk);
}

#[test]
fn engine_verbs_for_an_item_in_the_room() {
    let engine = GameEngine::get(&data());
    let verbs = engine.verbs_for(Target::Object(ObjectId::new("key")));
    assert_eq!(verbs.len(), 2);
    assert!(verbs.contains(&Verb::Examine));
    assert!(verbs.contains(&Verb::Take));
}

#[test]
fn engine_verbs_for_an_open_exit_is_go_alone() {
    let mut engine = GameEngine::get(&data());
    engine.handle_input("take key");
    engine.handle_input("use key on gate");
    assert_eq!(engine.verbs_for(Target::Object(ObjectId::new("north-door"))), vec![Verb::Go]);
}

#[test]
fn engine_verbs_for_the_guard_include_talk_and_examine() {
    let engine = GameEngine::get(&data());
    let verbs = engine.verbs_for(Target::Npc(NpcId::new("guard")));
    assert_eq!(verbs.len(), 2);
    assert!(verbs.contains(&Verb::Talk));
    assert!(verbs.contains(&Verb::Examine));
}

#[test]
fn engine_save_then_load_restores_progress() {
    let mut engine = GameEngine::get(&data());
    engine.handle_input("take key");
    engine.handle_input("use key on gate");
    engine.handle_input("go north");
    engine.world_mut().set_flag("found-study");
    let snapshot = engine.save();

    let restored = GameEngine::load(&data(), BasicRules, snapshot);
    let world = restored.world();
    assert_eq!(world.current_room_id(), RoomId::new("study"));
    assert!(world.player_holds(&ObjectId::new("key")));
    assert!(world.has_flag("found-study"));
    assert!(world.trigger_fired(&TriggerId::new("welcome")));
    assert!(!world.is_exit_locked(Direction::South));
}

#[test]
fn engine_load_keeps_a_door_unlocked_in_the_save() {
    let mut engine = GameEngine::get(&data());
    engine.handle_input("take key");
    engine.handle_input("use key on gate");
    let snapshot = engine.save();
    let restored = GameEngine::load(&data(), BasicRules, snapshot);
    assert!(!restored.world().is_exit_locked(Direction::North));
    let fresh = GameEngine::get(&data());
    assert!(fresh.world().is_exit_locked(Direction::North));
}

#[test]
fn engine_two_saves_of_one_state_are_equal() {
    let mut engine = GameEngine::get(&data());
    engine.handle_input("take key");
    assert_eq!(engine.save(), engine.save());
}

#[test]
fn engine_load_puts_objects_back_in_the_saved_rooms() {
    let mut engine = GameEngine::get(&data());
    engine.handle_input("take key");
    engine.handle_input("use key on gate");
    engine.handle_input("go north");
    engine.handle_input("drop key");
    let snapshot = engine.save();
    let mut restored = GameEngine::load(&data(), BasicRules, snapshot);
    assert_eq!(restored.world().room_object_names(), vec!["desk", "hatch", "key"]);
    assert!(restored.world().player_object_names().is_empty());
    restored.handle_input("go south");
    assert_eq!(restored.world().room_object_names(), vec!["gate"]);
}

#[test]
fn engine_load_keeps_an_unsaved_object_where_the_data_puts_it() {
    let mut engine = GameEngine::get(&data());
    engine.handle_input("take key");
    engine.world_mut().player_discard_object(&ObjectId::new("key"));
    let snapshot = engine.save();
    let restored = GameEngine::load(&data(), BasicRules, snapshot);
    assert_eq!(restored.world().room_object_names(), vec!["key", "gate"]);
}

#[test]
fn engine_item_gated_interaction_stays_off_the_item_less_query() {
    let mut engine = GameEngine::get(&data());
    engine.handle_input("take key");
    let live = engine.interactions_for(None, Some(Target::Object(ObjectId::new("north-door"))));
    assert!(live.is_empty());
    assert!(!engine.verbs_for(Target::Object(ObjectId::new("north-door"))).contains(&Verb::Use));
}

#[test]
fn engine_grant_of_a_repeated_object_key_uses_its_last_definition() {
    let coin = |name: &str| ObjectData {
        id: ObjectId::new("coin"),
        primary_name: name.to_string(),
        aliases: Vec::new(),
        kind: ObjectKind::Item,
        door: None,
    };
    let data = WorldData {
        flags: vec![],
        objects: vec![coin("old coin"), coin("new coin")],
        rooms: vec![RoomData { id: RoomId::new("hall"), visible_objects: vec![], hidden_objects: vec![] }],
        interactions: vec![],
        npcs: vec![],
        triggers: vec![],
    };
    let mut engine = GameEngine::get(&data);
    engine.world_mut().player_grant_object(&ObjectId::new("coin"));
    assert_eq!(engine.world().player_object_names(), vec!["new coin".to_string()]);
}
