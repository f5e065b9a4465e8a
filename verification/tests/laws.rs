use typegin_core::data::door_data::DoorData;
use typegin_core::data::object_data::{ObjectData, ObjectKind};
use typegin_core::data::room_data::RoomData;
use typegin_core::data::WorldData;
use typegin_core::input::direction::{Direction, DirectionResolution};
use typegin_core::keys::{ObjectId, RoomId, Resolution};
use typegin_core::world::WorldState;

fn object(id: &str, door: Option<DoorData>) -> ObjectData {
    ObjectData {
        id: ObjectId::new(id),
        primary_name: id.to_string(),
        aliases: vec![],
        kind: if door.is_some() { ObjectKind::Scene } else { ObjectKind::Item },
        door,
    }
}

/// One room with a `lamp`, a `rope`, a `chair` and an unlocked `gate` north.
fn world() -> WorldState {
    WorldState::from_data(&WorldData {
        flags: vec!["day".to_string()],
        objects: vec![
            object("lamp", None),
            object("rope", None),
            object("chair", None),
            object(
                "gate",
                Some(DoorData { direction: "north".to_string(), to: "yard".to_string(), locked: false }),
            ),
        ],
        rooms: vec![
            RoomData {
                id: RoomId::new("hall"),
                visible_objects: ["lamp", "rope", "chair", "gate"].iter().map(|k| ObjectId::new(k)).collect(),
                hidden_objects: vec![],
            },
            RoomData { id: RoomId::new("yard"), visible_objects: vec![], hidden_objects: vec![] },
        ],
        interactions: vec![],
        npcs: vec![],
        triggers: vec![],
    })
}

#[test]
fn locking_then_unlocking_an_exit_leaves_it_open() {
    let mut w = world();
    assert_eq!(w.lock_exit(Direction::North), DirectionResolution::Found(Direction::North));
    assert!(w.is_exit_locked(Direction::North));
    assert_eq!(w.unlock_exit(Direction::North), DirectionResolution::Found(Direction::North));
    assert!(!w.is_exit_locked(Direction::North));
    assert_eq!(w.room_object_names(), vec!["lamp", "rope", "chair", "gate"]);
}

#[test]
fn hiding_then_revealing_an_object_moves_it_to_the_end() {
    let mut w = world();
    let rope = ObjectId::new("rope");
    assert_eq!(w.hide_object(&rope), Resolution::Found(ObjectId::new("rope")));
    assert_eq!(w.room_object_names(), vec!["lamp", "chair", "gate"]);
    assert_eq!(w.reveal_object(&rope), Resolution::Found(ObjectId::new("rope")));
    assert_eq!(w.room_object_names(), vec!["lamp", "chair", "gate", "rope"]);
}

#[test]
fn taking_then_dropping_restores_the_inventory() {
    let mut w = world();
    let lamp = ObjectId::new("lamp");
    w.player_take_object(&lamp);
    assert_eq!(w.player_object_names(), vec!["lamp"]);
    w.player_drop_object(&lamp);
    assert!(w.player_object_names().is_empty());
    assert!(w.room_object_names().contains(&"lamp".to_string()));
    assert_eq!(w.current_room_id(), RoomId::new("hall"));
}

#[test]
fn setting_then_clearing_a_flag_leaves_other_flags() {
    let mut w = world();
    w.set_flag("rain");
    assert!(w.has_flag("rain"));
    w.clear_flag("rain");
    assert!(!w.has_flag("rain"));
    assert!(w.has_flag("day"));
}

#[test]
fn moving_to_a_declared_room_arrives_there() {
    let mut w = world();
    w.move_to_room(RoomId::new("yard"));
    assert_eq!(w.current_room_id(), RoomId::new("yard"));
}
