use typegin_core::data::door_data::DoorData;
use typegin_core::data::npc_data::{DialogueChoiceData, DialogueNodeData};
use typegin_core::data::object_data::{ObjectData, ObjectKind};
use typegin_core::event::Event;
use typegin_core::input::direction::{Direction, DirectionResolution};
use typegin_core::keys::{DialogueNodeId, DialogueOptionId, NpcId, ObjectId, Resolution, RoomId};
use typegin_core::world::npc::{DialogueChoice, DialogueGraph, DialogueNode, Npc};
use typegin_core::world::object::{DoorState, Object, ObjectInfo};
use typegin_core::world::player::Player;
use typegin_core::world::room::Room;

fn object(id: &str, primary_name: &str, aliases: Vec<&str>) -> Object {
    Object {
        id: ObjectId::new(id),
        primary_name: primary_name.to_string(),
        aliases: aliases.into_iter().map(String::from).collect(),
        kind: ObjectKind::Item,
        door: None,
    }
}

fn item(id: &str) -> Object {
    Object {
        id: ObjectId::new(id),
        primary_name: id.to_string(),
        aliases: vec![format!("{id}-alias")],
        kind: ObjectKind::Item,
        door: None,
    }
}

fn door_object(id: &str, direction: Direction, to: &str, locked: bool) -> Object {
    Object {
        id: ObjectId::new(id),
        primary_name: id.to_string(),
        aliases: Vec::new(),
        kind: ObjectKind::Scene,
        door: Some(DoorState { direction, to: RoomId::new(to), locked }),
    }
}

// -- Object --

#[test]
fn has_name_matches_primary_name() {
    let sword = object("sword", "glowing sword", vec!["sword"]);
    assert!(sword.has_name("glowing sword"));
}

#[test]
fn has_name_matches_any_alias() {
    let sword = object("sword", "glowing sword", vec!["sword", "blade"]);
    assert!(sword.has_name("sword"));
    assert!(sword.has_name("blade"));
}

#[test]
fn has_name_rejects_unrelated_names() {
    let sword = object("sword", "glowing sword", vec!["sword"]);
    assert!(!sword.has_name("shield"));
}

#[test]
fn resolve_by_name_not_found_when_nothing_matches() {
    let objects = vec![object("sword", "sword", vec![])];
    assert_eq!(Object::resolve_by_name(&objects, "shield"), Resolution::NotFound);
}

#[test]
fn resolve_by_name_finds_a_unique_match() {
    let objects = vec![object("sword", "sword", vec![]), object("shield", "shield", vec![])];
    assert_eq!(Object::resolve_by_name(&objects, "shield"), Resolution::Found(ObjectId::new("shield")));
}

#[test]
fn resolve_by_name_reports_ambiguity_across_objects() {
    let objects = vec![
        object("iron-key", "iron key", vec!["key"]),
        object("brass-key", "brass key", vec!["key"]),
    ];
    assert_eq!(
        Object::resolve_by_name(&objects, "key"),
        Resolution::Ambiguous {
            ids: vec![ObjectId::new("iron-key"), ObjectId::new("brass-key")],
            alias: "key".to_string(),
        }
    );
}

#[test]
fn from_data_parses_a_valid_door_direction() {
    let data = ObjectData {
        id: ObjectId::new("door"),
        primary_name: "door".to_string(),
        aliases: Vec::new(),
        kind: ObjectKind::Scene,
        door: Some(DoorData { direction: "north".to_string(), to: "corridor".to_string(), locked: true }),
    };
    let object = Object::from_data(&data);
    let door = object.door.expect("door state");
    assert_eq!(door.direction, Direction::North);
    assert_eq!(door.to, RoomId::new("corridor"));
    assert!(door.locked);
}

#[test]
fn from_data_drops_door_state_for_an_unparsable_direction() {
    let data = ObjectData {
        id: ObjectId::new("door"),
        primary_name: "door".to_string(),
        aliases: Vec::new(),
        kind: ObjectKind::Scene,
        door: Some(DoorData { direction: "sideways".to_string(), to: "corridor".to_string(), locked: false }),
    };
    let object = Object::from_data(&data);
    assert!(object.door.is_none());
}

#[test]
fn object_info_from_object_mirrors_a_doorless_object() {
    let sword = object("sword", "sword", vec!["blade"]);
    let info = ObjectInfo::from_object(&sword);
    assert_eq!(info.id, ObjectId::new("sword"));
    assert_eq!(info.name, "sword");
    assert_eq!(info.aliases, vec!["blade".to_string()]);
    assert_eq!(info.kind, ObjectKind::Item);
    assert_eq!(info.door, None);
}

#[test]
fn object_info_from_object_carries_door_state() {
    let mut door = object("door", "door", vec![]);
    door.kind = ObjectKind::Scene;
    door.door = Some(DoorState { direction: Direction::West, to: RoomId::new("cellar"), locked: true });
    let info = ObjectInfo::from_object(&door);
    let door_info = info.door.expect("door info");
    assert_eq!(door_info.direction, Direction::West);
    assert_eq!(door_info.to, RoomId::new("cellar"));
    assert!(door_info.locked);
}

// -- Player --

#[test]
fn new_and_default_start_empty() {
    assert!(Player::new().objects().is_empty());
    assert!(Player::default().objects().is_empty());
}

#[test]
fn add_object_makes_it_held() {
    let mut player = Player::new();
    player.add_object(item("sword"));
    assert!(player.holds(&ObjectId::new("sword")));
    assert_eq!(player.objects().len(), 1);
}

#[test]
fn get_object_reports_found_or_not_found() {
    let mut player = Player::new();
    player.add_object(item("sword"));
    assert_eq!(player.get_object(&ObjectId::new("sword")), Resolution::Found(ObjectId::new("sword")));
    assert_eq!(player.get_object(&ObjectId::new("shield")), Resolution::NotFound);
}

#[test]
fn find_by_id_returns_the_object_reference() {
    let mut player = Player::new();
    player.add_object(item("sword"));
    assert_eq!(player.find_by_id(&ObjectId::new("sword")).map(|o| &o.id), Some(&ObjectId::new("sword")));
    assert!(player.find_by_id(&ObjectId::new("shield")).is_none());
}

#[test]
fn find_object_resolves_by_name_or_alias() {
    let mut player = Player::new();
    player.add_object(item("sword"));
    assert_eq!(player.find_object("sword"), Resolution::Found(ObjectId::new("sword")));
    assert_eq!(player.find_object("sword-alias"), Resolution::Found(ObjectId::new("sword")));
    assert_eq!(player.find_object("shield"), Resolution::NotFound);
}

#[test]
fn holds_is_false_before_adding_and_true_after() {
    let mut player = Player::new();
    assert!(!player.holds(&ObjectId::new("sword")));
    player.add_object(item("sword"));
    assert!(player.holds(&ObjectId::new("sword")));
}

#[test]
fn remove_object_takes_it_out_of_the_inventory() {
    let mut player = Player::new();
    player.add_object(item("sword"));
    let removed = player.remove_object(&ObjectId::new("sword"));
    assert_eq!(removed.map(|o| o.id), Some(ObjectId::new("sword")));
    assert!(!player.holds(&ObjectId::new("sword")));
}

#[test]
fn remove_object_not_held_returns_none() {
    let mut player = Player::new();
    assert!(player.remove_object(&ObjectId::new("sword")).is_none());
}

// -- Room --

#[test]
fn new_indexes_doors_from_visible_and_hidden_objects() {
    let visible = door_object("north-door", Direction::North, "b", false);
    let hidden = door_object("south-door", Direction::South, "c", false);
    let room = Room::new(vec![visible], vec![hidden]);
    assert_eq!(room.door_id(Direction::North), Some(ObjectId::new("north-door")));
    assert_eq!(room.door_id(Direction::South), Some(ObjectId::new("south-door")));
    assert_eq!(room.door_id(Direction::East), None);
}

#[test]
fn get_object_only_finds_visible_objects() {
    let room = Room::new(vec![item("sword")], vec![item("chest")]);
    assert_eq!(room.get_object(&ObjectId::new("sword")), Resolution::Found(ObjectId::new("sword")));
    assert_eq!(room.get_object(&ObjectId::new("chest")), Resolution::NotFound);
}

#[test]
fn find_object_resolves_by_name_or_alias_among_visible_objects() {
    let room = Room::new(vec![item("sword")], vec![item("chest")]);
    assert_eq!(room.find_object("sword"), Resolution::Found(ObjectId::new("sword")));
    assert_eq!(room.find_object("sword-alias"), Resolution::Found(ObjectId::new("sword")));
    assert_eq!(room.find_object("chest"), Resolution::NotFound);
}

#[test]
fn holds_checks_only_the_visible_list() {
    let room = Room::new(vec![item("sword")], vec![item("chest")]);
    assert!(room.holds(&ObjectId::new("sword")));
    assert!(!room.holds(&ObjectId::new("chest")));
}

#[test]
fn find_any_searches_visible_and_hidden_objects() {
    let room = Room::new(vec![item("sword")], vec![item("chest")]);
    assert!(room.find_any(&ObjectId::new("sword")).is_some());
    assert!(room.find_any(&ObjectId::new("chest")).is_some());
    assert!(room.find_any(&ObjectId::new("nope")).is_none());
}

#[test]
fn add_object_and_add_hidden_object_insert_into_the_right_list() {
    let mut room = Room::default();
    room.add_object(item("sword"));
    room.add_hidden_object(item("chest"));
    assert!(room.holds(&ObjectId::new("sword")));
    assert!(!room.holds(&ObjectId::new("chest")));
    assert!(room.find_any(&ObjectId::new("chest")).is_some());
}

#[test]
fn remove_object_takes_it_out_of_the_visible_list_only() {
    let mut room = Room::new(vec![item("sword")], vec![item("chest")]);
    assert!(room.remove_object(&ObjectId::new("chest")).is_none());
    let removed = room.remove_object(&ObjectId::new("sword"));
    assert_eq!(removed.map(|o| o.id), Some(ObjectId::new("sword")));
    assert!(!room.holds(&ObjectId::new("sword")));
}

#[test]
fn remove_hidden_object_takes_it_out_of_the_hidden_list_only() {
    let mut room = Room::new(vec![item("sword")], vec![item("chest")]);
    assert!(room.remove_hidden_object(&ObjectId::new("sword")).is_none());
    let removed = room.remove_hidden_object(&ObjectId::new("chest"));
    assert_eq!(removed.map(|o| o.id), Some(ObjectId::new("chest")));
    assert!(room.find_any(&ObjectId::new("chest")).is_none());
}

#[test]
fn reveal_object_moves_a_hidden_object_to_visible() {
    let mut room = Room::new(vec![], vec![item("chest")]);
    assert_eq!(room.reveal_object(&ObjectId::new("chest")), Resolution::Found(ObjectId::new("chest")));
    assert!(room.holds(&ObjectId::new("chest")));
}

#[test]
fn reveal_object_not_hidden_returns_not_found() {
    let mut room = Room::default();
    assert_eq!(room.reveal_object(&ObjectId::new("nope")), Resolution::NotFound);
}

#[test]
fn hide_object_moves_a_visible_object_to_hidden() {
    let mut room = Room::new(vec![item("sword")], vec![]);
    assert_eq!(room.hide_object(&ObjectId::new("sword")), Resolution::Found(ObjectId::new("sword")));
    assert!(!room.holds(&ObjectId::new("sword")));
    assert!(room.find_any(&ObjectId::new("sword")).is_some());
}

#[test]
fn hide_object_not_visible_returns_not_found() {
    let mut room = Room::default();
    assert_eq!(room.hide_object(&ObjectId::new("nope")), Resolution::NotFound);
}

#[test]
fn get_room_id_by_exit_direction_none_when_no_door() {
    let room = Room::default();
    assert_eq!(room.get_room_id_by_exit_direction(Direction::North), None);
}

#[test]
fn get_room_id_by_exit_direction_none_when_locked_or_hidden() {
    let locked = door_object("locked-door", Direction::North, "b", true);
    let room = Room::new(vec![locked], vec![]);
    assert_eq!(room.get_room_id_by_exit_direction(Direction::North), None);

    let hidden = door_object("hidden-door", Direction::South, "c", false);
    let room = Room::new(vec![], vec![hidden]);
    assert_eq!(room.get_room_id_by_exit_direction(Direction::South), None);
}

#[test]
fn get_room_id_by_exit_direction_returns_destination_for_open_door() {
    let open = door_object("open-door", Direction::East, "study", false);
    let room = Room::new(vec![open], vec![]);
    assert_eq!(room.get_room_id_by_exit_direction(Direction::East), Some(RoomId::new("study")));
}

#[test]
fn is_exit_locked_reports_the_door_lock_flag() {
    let locked = door_object("locked-door", Direction::North, "b", true);
    let unlocked = door_object("open-door", Direction::East, "b", false);
    let room = Room::new(vec![locked, unlocked], vec![]);
    assert!(room.is_exit_locked(Direction::North));
    assert!(!room.is_exit_locked(Direction::East));
    assert!(!room.is_exit_locked(Direction::South));
}

#[test]
fn is_exit_hidden_reports_list_membership() {
    let visible = door_object("open-door", Direction::East, "b", false);
    let hidden = door_object("hidden-door", Direction::North, "b", false);
    let room = Room::new(vec![visible], vec![hidden]);
    assert!(room.is_exit_hidden(Direction::North));
    assert!(!room.is_exit_hidden(Direction::East));
}

#[test]
fn exit_directions_lists_only_open_passable_doors() {
    let open = door_object("open-door", Direction::East, "b", false);
    let locked = door_object("locked-door", Direction::North, "b", true);
    let hidden = door_object("hidden-door", Direction::South, "b", false);
    let room = Room::new(vec![open, locked], vec![hidden]);
    assert_eq!(room.exit_directions(), vec![Direction::East]);
}

#[test]
fn door_in_direction_info_returns_none_for_a_missing_direction() {
    let room = Room::default();
    assert_eq!(room.door_in_direction_info(Direction::North), None);
}

#[test]
fn lock_exit_locks_an_unlocked_door_and_is_a_no_op_otherwise() {
    let open = door_object("open-door", Direction::East, "b", false);
    let mut room = Room::new(vec![open], vec![]);
    assert_eq!(room.lock_exit(Direction::East), DirectionResolution::Found(Direction::East));
    assert!(room.is_exit_locked(Direction::East));
    assert_eq!(room.lock_exit(Direction::East), DirectionResolution::NotFound);
}

#[test]
fn lock_exit_missing_direction_is_not_found() {
    let mut room = Room::default();
    assert_eq!(room.lock_exit(Direction::East), DirectionResolution::NotFound);
}

#[test]
fn unlock_exit_unlocks_a_locked_door_and_is_a_no_op_otherwise() {
    let locked = door_object("locked-door", Direction::East, "b", true);
    let mut room = Room::new(vec![locked], vec![]);
    assert_eq!(room.unlock_exit(Direction::East), DirectionResolution::Found(Direction::East));
    assert!(!room.is_exit_locked(Direction::East));
    assert_eq!(room.unlock_exit(Direction::East), DirectionResolution::NotFound);
}

#[test]
fn hide_exit_hides_a_visible_door_and_is_a_no_op_once_hidden() {
    let open = door_object("open-door", Direction::East, "b", false);
    let mut room = Room::new(vec![open], vec![]);
    assert_eq!(room.hide_exit(Direction::East), DirectionResolution::Found(Direction::East));
    assert!(room.is_exit_hidden(Direction::East));
    assert_eq!(room.hide_exit(Direction::East), DirectionResolution::NotFound);
}

#[test]
fn hide_exit_missing_direction_is_not_found() {
    let mut room = Room::default();
    assert_eq!(room.hide_exit(Direction::East), DirectionResolution::NotFound);
}

#[test]
fn reveal_exit_reveals_a_hidden_door_and_is_a_no_op_once_visible() {
    let hidden = door_object("hidden-door", Direction::East, "b", false);
    let mut room = Room::new(vec![], vec![hidden]);
    assert_eq!(room.reveal_exit(Direction::East), DirectionResolution::Found(Direction::East));
    assert!(!room.is_exit_hidden(Direction::East));
    assert_eq!(room.reveal_exit(Direction::East), DirectionResolution::NotFound);
}

#[test]
fn reveal_exit_missing_direction_is_not_found() {
    let mut room = Room::default();
    assert_eq!(room.reveal_exit(Direction::East), DirectionResolution::NotFound);
}

#[test]
fn door_in_direction_info_describes_a_hidden_door_too() {
    let hidden = door_object("hidden-door", Direction::South, "cellar", true);
    let room = Room::new(vec![], vec![hidden]);
    let info = room.door_in_direction_info(Direction::South).expect("door info");
    assert_eq!(info.id, ObjectId::new("hidden-door"));
    assert_eq!(info.door.map(|d| d.locked), Some(true));
}

// -- Npc and dialogue --

fn npc(aliases: Vec<&str>) -> Npc {
    Npc {
        id: NpcId::new("guard"),
        primary_name: "guard".to_string(),
        aliases: aliases.into_iter().map(String::from).collect(),
        room: RoomId::new("corridor"),
        root: DialogueNodeId::new("start"),
        dialogue: DialogueGraph::new(),
    }
}

#[test]
fn has_name_matches_primary_name_and_aliases() {
    let npc = npc(vec!["captain", "the guard"]);
    assert!(npc.has_name("guard"));
    assert!(npc.has_name("captain"));
    assert!(npc.has_name("the guard"));
    assert!(!npc.has_name("stranger"));
}

#[test]
fn dialogue_node_looks_up_by_id_in_the_graph() {
    let mut npc = npc(vec![]);
    npc.dialogue.insert(
        DialogueNodeId::new("start"),
        DialogueNode { text: "Halt!".to_string(), choices: Vec::new() },
    );
    assert_eq!(npc.dialogue_node(&DialogueNodeId::new("start")).map(DialogueNode::text), Some("Halt!"));
    assert!(npc.dialogue_node(&DialogueNodeId::new("missing")).is_none());
}

fn choice(label: &str) -> DialogueChoice {
    DialogueChoice { option_id: None, label: label.to_string(), next: None, effect: Vec::new() }
}

#[test]
fn find_choice_matches_a_one_based_index() {
    let node = DialogueNode { text: "Choose".to_string(), choices: vec![choice("Yes"), choice("No")] };
    assert_eq!(node.find_choice("1").map(DialogueChoice::label), Some("Yes"));
    assert_eq!(node.find_choice("2").map(DialogueChoice::label), Some("No"));
    assert!(node.find_choice("0").is_none());
    assert!(node.find_choice("3").is_none());
}

#[test]
fn find_choice_matches_a_case_insensitive_label() {
    let node = DialogueNode { text: "Choose".to_string(), choices: vec![choice("Ask about the exit")] };
    assert!(node.find_choice("ASK ABOUT THE EXIT").is_some());
    assert!(node.find_choice("nonsense").is_none());
}

#[test]
fn find_choice_prefers_index_over_label_when_both_could_match() {
    let node = DialogueNode { text: "Choose".to_string(), choices: vec![choice("First"), choice("1")] };
    assert_eq!(node.find_choice("1").map(DialogueChoice::label), Some("First"));
}

#[test]
fn dialogue_choice_from_data_treats_dot_end_as_conversation_end() {
    let data = DialogueChoiceData {
        option_id: Some(DialogueOptionId::new("opt-1")),
        label: "Bye".to_string(),
        next: DialogueNodeId::new(".end"),
        effect: Vec::new(),
    };
    let choice = DialogueChoice::from_data(&data);
    assert_eq!(choice.next(), None);
    assert_eq!(choice.option_id(), Some(&DialogueOptionId::new("opt-1")));
    assert_eq!(choice.label(), "Bye");
}

#[test]
fn dialogue_choice_from_data_keeps_a_real_next_node() {
    let data = DialogueChoiceData {
        option_id: None,
        label: "Continue".to_string(),
        next: DialogueNodeId::new("node-2"),
        effect: Vec::new(),
    };
    let choice = DialogueChoice::from_data(&data);
    assert_eq!(choice.next(), Some(&DialogueNodeId::new("node-2")));
}

#[test]
fn dialogue_node_from_data_converts_all_choices() {
    let data = DialogueNodeData {
        text: "Hello".to_string(),
        choices: vec![
            DialogueChoiceData {
                option_id: None,
                label: "Hi".to_string(),
                next: DialogueNodeId::new(".end"),
                effect: Vec::new(),
            },
            DialogueChoiceData {
                option_id: None,
                label: "Bye".to_string(),
                next: DialogueNodeId::new(".end"),
                effect: Vec::new(),
            },
        ],
    };
    let node = DialogueNode::from_data(&data);
    assert_eq!(node.text(), "Hello");
    assert_eq!(node.choices().len(), 2);
}

#[test]
fn find_choice_out_of_range_number_falls_back_to_the_label() {
    let node = DialogueNode { text: "Choose".to_string(), choices: vec![choice("First"), choice("7")] };
    assert_eq!(node.find_choice("7").map(DialogueChoice::label), Some("7"));
}

// -- Events --

fn npc_with_node(node_id: &str, text: &str, choices: Vec<DialogueChoice>) -> Npc {
    let mut dialogue = DialogueGraph::new();
    dialogue.insert(DialogueNodeId::new(node_id), DialogueNode { text: text.to_string(), choices });
    Npc {
        id: NpcId::new("guard"),
        primary_name: "Guard".to_string(),
        aliases: Vec::new(),
        room: RoomId::new("corridor"),
        root: DialogueNodeId::new(node_id),
        dialogue,
    }
}

#[test]
fn talked_builds_an_event_for_a_known_node() {
    let npc = npc_with_node("start", "Halt!", Vec::new());
    let event = Event::talked(&npc, &DialogueNodeId::new("start")).expect("node exists");
    assert_eq!(
        event,
        Event::Talked {
            npc_id: NpcId::new("guard"),
            npc: "Guard".to_string(),
            node_id: DialogueNodeId::new("start"),
            text: "Halt!".to_string(),
            choices: Vec::new(),
        }
    );
}

#[test]
fn talked_returns_none_for_an_unknown_node() {
    let npc = npc_with_node("start", "Halt!", Vec::new());
    assert_eq!(Event::talked(&npc, &DialogueNodeId::new("missing")), None);
}

#[test]
fn dialogue_ended_carries_the_npcs_identity() {
    let npc = npc_with_node("start", "Halt!", Vec::new());
    assert_eq!(
        Event::dialogue_ended(&npc),
        Event::DialogueEnded { npc_id: NpcId::new("guard"), npc: "Guard".to_string() }
    );
}

#[test]
fn talked_lists_the_node_choices_in_order() {
    let npc = npc_with_node("start", "Halt!", vec![choice("Yes"), choice("No")]);
    match Event::talked(&npc, &DialogueNodeId::new("start")) {
        Some(Event::Talked { choices, .. }) => {
            let labels: Vec<&str> = choices.iter().map(|c| c.label.as_str()).collect();
            assert_eq!(labels, vec!["Yes", "No"]);
        }
        other => panic!("unexpected {other:?}"),
    }
}

#[test]
fn direction_parses_names_and_abbreviations() {
    assert_eq!(Direction::parse("north"), Some(Direction::North));
    assert_eq!(Direction::parse("w"), Some(Direction::West));
    assert_eq!(Direction::parse("up"), None);
}

#[test]
fn find_any_mut_allows_mutating_a_hidden_object() {
    let mut room = Room::new(vec![], vec![item("chest")]);
    let object = room
        .find_any_mut(&ObjectId::new("chest"))
        .expect("chest present");
    object.primary_name = "renamed chest".to_string();
    assert_eq!(
        room.find_any(&ObjectId::new("chest"))
            .unwrap()
            .primary_name,
        "renamed chest"
    );
}
