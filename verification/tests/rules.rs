use typegin_core::data::object_data::{ObjectData, ObjectKind};
use typegin_core::data::room_data::RoomData;
use typegin_core::data::WorldData;
use typegin_core::engine::GameEngine;
use typegin_core::event::Event;
use typegin_core::input::action::GoTarget;
use typegin_core::interaction::action_context::ActionContext;
use typegin_core::interaction::interaction::{Interaction, InteractionEffect};
use typegin_core::interaction::target::{Target, TargetFilter, TargetResolution};
use typegin_core::interaction::verb::Verb;
use typegin_core::keys::{NpcId, ObjectId, RoomId};
use typegin_core::rules::{
    default_choose, default_drop, default_examine, default_go, default_look, default_talk, default_take,
    default_unknown, default_use, default_verbs, Rules,
};
use typegin_core::world::object::ObjectResolution;
use typegin_core::world::WorldState;

struct Shout;

impl InteractionEffect for Shout {
    fn apply(&self, _world: &mut WorldState, _context: &ActionContext) -> Vec<Event> {
        vec![Event::Custom { name: "shout".to_string() }]
    }
}

/// Refuses every take, and makes using the horn shout; everything else is
/// the stock behaviour.
struct Strict {
    interactions: Vec<Interaction>,
}

impl Strict {
    fn new() -> Self {
        Strict {
            interactions: vec![Interaction::build(
                Verb::Use,
                Some(ObjectId::new("horn")),
                TargetFilter::Any,
                None,
                Box::new(Shout),
            )],
        }
    }
}

impl Rules for Strict {
    fn interactions(&self) -> &[Interaction] {
        &self.interactions
    }

    fn on_look(&mut self, world: &mut WorldState) -> Vec<Event> {
        default_look(world)
    }

    fn on_go(&mut self, world: &mut WorldState, target: GoTarget) -> Vec<Event> {
        default_go(world, target)
    }

    fn on_take(&mut self, _world: &mut WorldState, name: &str, _resolution: ObjectResolution) -> Vec<Event> {
        vec![Event::CantTake { object: name.to_string() }]
    }

    fn on_drop(&mut self, world: &mut WorldState, name: &str, resolution: ObjectResolution) -> Vec<Event> {
        default_drop(&self.interactions, world, name, resolution)
    }

    fn on_examine(&mut self, world: &mut WorldState, name: &str, resolution: TargetResolution) -> Vec<Event> {
        default_examine(&self.interactions, world, name, resolution)
    }

    fn on_use(
        &mut self,
        world: &mut WorldState,
        item: &str,
        target: Option<&str>,
        item_resolution: ObjectResolution,
        target_resolution: TargetResolution,
    ) -> Vec<Event> {
        default_use(&self.interactions, world, item, target, item_resolution, target_resolution)
    }

    fn on_talk(&mut self, world: &mut WorldState, name: &str, npc_id: Option<NpcId>) -> Vec<Event> {
        default_talk(world, name, npc_id)
    }

    fn on_choose(&mut self, world: &mut WorldState, choice: &str) -> Vec<Event> {
        default_choose(world, choice)
    }

    fn on_unknown(&mut self, world: &mut WorldState, phrase: String) -> Vec<Event> {
        default_unknown(world, phrase)
    }

    fn verbs_for(&self, target: Target, interaction_verbs: &Vec<Verb>, world: &WorldState) -> Vec<Verb> {
        default_verbs(target, interaction_verbs, world)
    }
}

fn data() -> WorldData {
    let item = |id: &str| ObjectData {
        id: ObjectId::new(id),
        primary_name: id.to_string(),
        aliases: vec![],
        kind: ObjectKind::Item,
        door: None,
    };
    WorldData {
        flags: vec![],
        objects: vec![item("horn"), item("cup")],
        rooms: vec![RoomData {
            id: RoomId::new("hall"),
            visible_objects: vec![ObjectId::new("horn"), ObjectId::new("cup")],
            hidden_objects: vec![],
        }],
        interactions: vec![],
        npcs: vec![],
        triggers: vec![],
    }
}

#[test]
fn overridden_hook_wins_over_the_default() {
    let mut engine = GameEngine::get_with_rules(&data(), Strict::new());
    assert_eq!(engine.handle_input("take cup"), vec![Event::CantTake { object: "cup".to_string() }]);
    assert!(!engine.world().player_holds(&ObjectId::new("cup")));
}

#[test]
fn hooks_left_to_the_defaults_behave_as_stock() {
    let mut engine = GameEngine::get_with_rules(&data(), Strict::new());
    assert_eq!(engine.handle_input("look"), vec![Event::Looked]);
    let mut stock = GameEngine::get(&data());
    assert_eq!(
        stock.handle_input("take cup"),
        vec![Event::Took { object_id: ObjectId::new("cup"), object: "cup".to_string() }]
    );
}

#[test]
fn rule_interactions_run_before_the_use_fallback() {
    let mut data = data();
    data.rooms[0].visible_objects.clear();
    let mut world = WorldState::from_data(&data);
    world.player_grant_object(&ObjectId::new("horn"));
    let mut rules = Strict::new();
    let events = rules.on_use(
        &mut world,
        "horn",
        None,
        ObjectResolution::Found(ObjectId::new("horn")),
        TargetResolution::NotFound,
    );
    assert_eq!(events, vec![Event::Custom { name: "shout".to_string() }]);
}

#[test]
fn default_take_without_a_match_takes_the_item() {
    let mut world = WorldState::from_data(&data());
    let events = default_take(&mut world, "cup", ObjectResolution::Found(ObjectId::new("cup")));
    assert_eq!(events, vec![Event::Took { object_id: ObjectId::new("cup"), object: "cup".to_string() }]);
    assert!(world.player_holds(&ObjectId::new("cup")));
}

#[test]
fn engine_lists_rule_interactions_for_point_and_click() {
    let engine = GameEngine::get_with_rules(&data(), Strict::new());
    let live = engine.interactions_for(Some(ObjectId::new("horn")), None);
    assert_eq!(live.len(), 1);
    assert_eq!(live[0].verb(), Verb::Use);
}
