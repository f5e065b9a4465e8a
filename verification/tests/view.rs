use typegin_core::data::room_data::RoomData;
use typegin_core::data::WorldData;
use typegin_core::event::{DialogueChoice, Event};
use typegin_core::input::direction::Direction;
use typegin_core::keys::{ObjectId, RoomId};
use typegin_core::view::{RenderCommand, View};
use typegin_core::world::WorldState;

struct Plain;

impl View for Plain {
    fn render_went(&mut self, direction: &Direction) -> Vec<RenderCommand> {
        vec![RenderCommand::Line(format!("You go {}.", direction.name()))]
    }

    fn render_took(&mut self, object: &str) -> Vec<RenderCommand> {
        vec![RenderCommand::Line(format!("Taken: {object}."))]
    }

    fn render_custom(&mut self, name: &str) -> Vec<RenderCommand> {
        vec![RenderCommand::ClearScreen, RenderCommand::Line(name.to_string())]
    }

    fn render_generic(&mut self, _event: &Event) -> Vec<RenderCommand> {
        vec![RenderCommand::Line("?".to_string())]
    }
    fn render_looked(&mut self, _world: &WorldState) -> Vec<RenderCommand> {
        Vec::new()
    }

    fn render_went_exit_hidden(&mut self, _direction: &Direction) -> Vec<RenderCommand> {
        Vec::new()
    }

    fn render_went_exit_locked(&mut self, _direction: &Direction) -> Vec<RenderCommand> {
        Vec::new()
    }

    fn render_went_invalid_direction(&mut self, _direction: &Direction) -> Vec<RenderCommand> {
        Vec::new()
    }

    fn render_unlocked_exit(&mut self, _direction: &Direction) -> Vec<RenderCommand> {
        Vec::new()
    }

    fn render_cannot_use(&mut self, _item: &str, _target: &str) -> Vec<RenderCommand> {
        Vec::new()
    }

    fn render_took_object_not_found(&mut self, _object: &str) -> Vec<RenderCommand> {
        Vec::new()
    }

    fn render_took_object_ambiguous(&mut self, _object: &str) -> Vec<RenderCommand> {
        Vec::new()
    }

    fn render_cant_take(&mut self, _object: &str) -> Vec<RenderCommand> {
        Vec::new()
    }

    fn render_granted(&mut self, _object: &str) -> Vec<RenderCommand> {
        Vec::new()
    }

    fn render_dropped(&mut self, _object: &str) -> Vec<RenderCommand> {
        Vec::new()
    }

    fn render_dropped_object_not_found(&mut self, _object: &str) -> Vec<RenderCommand> {
        Vec::new()
    }

    fn render_dropped_object_ambiguous(&mut self, _object: &str) -> Vec<RenderCommand> {
        Vec::new()
    }

    fn render_discarded(&mut self, _object: &str) -> Vec<RenderCommand> {
        Vec::new()
    }

    fn render_used(&mut self, _object: &str, _target: Option<&str>) -> Vec<RenderCommand> {
        Vec::new()
    }

    fn render_used_object_not_found(&mut self, _object: &str) -> Vec<RenderCommand> {
        Vec::new()
    }

    fn render_used_object_ambiguous(&mut self, _object: &str) -> Vec<RenderCommand> {
        Vec::new()
    }

    fn render_used_target_needed(&mut self, _object: &str) -> Vec<RenderCommand> {
        Vec::new()
    }

    fn render_used_target_not_found(&mut self, _object: &str, _target: &str) -> Vec<RenderCommand> {
        Vec::new()
    }

    fn render_used_target_ambiguous(&mut self, _object: &str) -> Vec<RenderCommand> {
        Vec::new()
    }

    fn render_examined(&mut self, _object: &str) -> Vec<RenderCommand> {
        Vec::new()
    }

    fn render_examined_object_not_found(&mut self, _object: &str) -> Vec<RenderCommand> {
        Vec::new()
    }

    fn render_examined_object_ambiguous(&mut self, _object: &str) -> Vec<RenderCommand> {
        Vec::new()
    }

    fn render_unknown_event(&mut self, _name: &str) -> Vec<RenderCommand> {
        Vec::new()
    }

    fn render_flag_set(&mut self, _flag: &str) -> Vec<RenderCommand> {
        Vec::new()
    }

    fn render_flag_cleared(&mut self, _flag: &str) -> Vec<RenderCommand> {
        Vec::new()
    }

    fn render_talked(&mut self, _npc: &str, _text: &str, _choices: &[DialogueChoice]) -> Vec<RenderCommand> {
        Vec::new()
    }

    fn render_dialogue_ended(&mut self, _npc: &str) -> Vec<RenderCommand> {
        Vec::new()
    }

    fn render_talk_npc_not_found(&mut self, _npc: &str) -> Vec<RenderCommand> {
        Vec::new()
    }

    fn render_dialogue_invalid_choice(&mut self, _npc: &str, _choice: &str) -> Vec<RenderCommand> {
        Vec::new()
    }

}

fn world() -> WorldState {
    WorldState::from_data(&WorldData {
        flags: vec![],
        objects: vec![],
        rooms: vec![RoomData { id: RoomId::new("hall"), visible_objects: vec![], hidden_objects: vec![] }],
        interactions: vec![],
        npcs: vec![],
        triggers: vec![],
    })
}

#[test]
fn view_renders_each_event_through_its_hook_in_order() {
    let events = vec![
        Event::Went(Direction::North),
        Event::Took { object_id: ObjectId::new("key"), object: "key".to_string() },
        Event::Custom { name: "boom".to_string() },
    ];
    assert_eq!(
        Plain.render(&events, &world()),
        vec![
            RenderCommand::Line("You go north.".to_string()),
            RenderCommand::Line("Taken: key.".to_string()),
            RenderCommand::ClearScreen,
            RenderCommand::Line("boom".to_string()),
        ]
    );
}

#[test]
fn view_hooks_left_alone_render_nothing() {
    let events = vec![Event::Looked, Event::WentExitLocked(Direction::East)];
    assert_eq!(Plain.render(&events, &world()), vec![]);
}

#[test]
fn view_of_no_events_is_empty() {
    assert_eq!(Plain.render(&[], &world()), vec![]);
}

#[test]
fn view_sends_unmapped_events_to_the_generic_hook() {
    let events = vec![Event::CantEnter { target: "wall".to_string() }];
    assert_eq!(Plain.render(&events, &world()), vec![RenderCommand::Line("?".to_string())]);
}

/// A view that numbers the lines it writes, so its state carries from one
/// hook call to the next.
struct Numbered {
    count: usize,
}

impl View for Numbered {
    fn render_generic(&mut self, _event: &Event) -> Vec<RenderCommand> {
        Vec::new()
    }

    fn render_looked(&mut self, _world: &WorldState) -> Vec<RenderCommand> {
        Vec::new()
    }

    fn render_went(&mut self, _direction: &Direction) -> Vec<RenderCommand> {
        Vec::new()
    }

    fn render_went_exit_hidden(&mut self, _direction: &Direction) -> Vec<RenderCommand> {
        Vec::new()
    }

    fn render_went_exit_locked(&mut self, _direction: &Direction) -> Vec<RenderCommand> {
        Vec::new()
    }

    fn render_went_invalid_direction(&mut self, _direction: &Direction) -> Vec<RenderCommand> {
        Vec::new()
    }

    fn render_unlocked_exit(&mut self, _direction: &Direction) -> Vec<RenderCommand> {
        Vec::new()
    }

    fn render_cannot_use(&mut self, _item: &str, _target: &str) -> Vec<RenderCommand> {
        Vec::new()
    }

    fn render_custom(&mut self, _name: &str) -> Vec<RenderCommand> {
        Vec::new()
    }

    fn render_took(&mut self, object: &str) -> Vec<RenderCommand> {
        self.count += 1;
        vec![RenderCommand::Line(format!("{}. took {}", self.count, object))]
    }

    fn render_took_object_not_found(&mut self, _object: &str) -> Vec<RenderCommand> {
        Vec::new()
    }

    fn render_took_object_ambiguous(&mut self, _object: &str) -> Vec<RenderCommand> {
        Vec::new()
    }

    fn render_cant_take(&mut self, _object: &str) -> Vec<RenderCommand> {
        Vec::new()
    }

    fn render_granted(&mut self, _object: &str) -> Vec<RenderCommand> {
        Vec::new()
    }

    fn render_dropped(&mut self, object: &str) -> Vec<RenderCommand> {
        self.count += 1;
        vec![RenderCommand::Line(format!("{}. dropped {}", self.count, object))]
    }

    fn render_dropped_object_not_found(&mut self, _object: &str) -> Vec<RenderCommand> {
        Vec::new()
    }

    fn render_dropped_object_ambiguous(&mut self, _object: &str) -> Vec<RenderCommand> {
        Vec::new()
    }

    fn render_discarded(&mut self, _object: &str) -> Vec<RenderCommand> {
        Vec::new()
    }

    fn render_used(&mut self, _object: &str, _target: Option<&str>) -> Vec<RenderCommand> {
        Vec::new()
    }

    fn render_used_object_not_found(&mut self, _object: &str) -> Vec<RenderCommand> {
        Vec::new()
    }

    fn render_used_object_ambiguous(&mut self, _object: &str) -> Vec<RenderCommand> {
        Vec::new()
    }

    fn render_used_target_needed(&mut self, _object: &str) -> Vec<RenderCommand> {
        Vec::new()
    }

    fn render_used_target_not_found(&mut self, _object: &str, _target: &str) -> Vec<RenderCommand> {
        Vec::new()
    }

    fn render_used_target_ambiguous(&mut self, _object: &str) -> Vec<RenderCommand> {
        Vec::new()
    }

    fn render_examined(&mut self, _object: &str) -> Vec<RenderCommand> {
        Vec::new()
    }

    fn render_examined_object_not_found(&mut self, _object: &str) -> Vec<RenderCommand> {
        Vec::new()
    }

    fn render_examined_object_ambiguous(&mut self, _object: &str) -> Vec<RenderCommand> {
        Vec::new()
    }

    fn render_unknown_event(&mut self, _name: &str) -> Vec<RenderCommand> {
        Vec::new()
    }

    fn render_flag_set(&mut self, _flag: &str) -> Vec<RenderCommand> {
        Vec::new()
    }

    fn render_flag_cleared(&mut self, _flag: &str) -> Vec<RenderCommand> {
        Vec::new()
    }

    fn render_talked(&mut self, _npc: &str, _text: &str, _choices: &[DialogueChoice]) -> Vec<RenderCommand> {
        Vec::new()
    }

    fn render_dialogue_ended(&mut self, _npc: &str) -> Vec<RenderCommand> {
        Vec::new()
    }

    fn render_talk_npc_not_found(&mut self, _npc: &str) -> Vec<RenderCommand> {
        Vec::new()
    }

    fn render_dialogue_invalid_choice(&mut self, _npc: &str, _choice: &str) -> Vec<RenderCommand> {
        Vec::new()
    }
}

#[test]
fn view_state_carries_from_one_hook_to_the_next_in_event_order() {
    let events = vec![
        Event::Took { object_id: ObjectId::new("key"), object: "key".to_string() },
        Event::Looked,
        Event::Dropped { object_id: ObjectId::new("key"), object: "key".to_string() },
        Event::Took { object_id: ObjectId::new("lamp"), object: "lamp".to_string() },
    ];
    let mut view = Numbered { count: 0 };
    assert_eq!(
        view.render(&events, &world()),
        vec![
            RenderCommand::Line("1. took key".to_string()),
            RenderCommand::Line("2. dropped key".to_string()),
            RenderCommand::Line("3. took lamp".to_string()),
        ]
    );
    assert_eq!(view.count, 3);
}
