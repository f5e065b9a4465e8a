use typegin_core::data::npc_data::{DialogueData, NpcData};
use typegin_core::data::object_data::{ObjectData, ObjectKind};
use typegin_core::data::room_data::RoomData;
use typegin_core::data::WorldData;
use typegin_core::event::Event;
use typegin_core::input::action::{Action, GoTarget, Locator};
use typegin_core::input::direction::Direction;
use typegin_core::interaction::action_context::ActionContext;
use typegin_core::interaction::interaction::{Interaction, InteractionCondition, InteractionEffect};
use typegin_core::interaction::target::{Target, TargetFilter, TargetKind};
use typegin_core::interaction::verb::Verb;
use typegin_core::keys::{DialogueNodeId, NpcId, ObjectId, RoomId};
use typegin_core::world::WorldState;

/// A one-room world with an item `sword` and a scene object `cabinet`, and
/// optionally an NPC `guard` living in that room.
fn world_with(npc_in_room: bool) -> WorldState {
    let npcs = if npc_in_room {
        vec![NpcData {
            id: NpcId::new("guard"),
            primary_name: "guard".to_string(),
            aliases: Vec::new(),
            room: RoomId::new("room"),
            dialogue: DialogueData { root: DialogueNodeId::new("start"), nodes: Vec::new() },
        }]
    } else {
        Vec::new()
    };
    let data = WorldData {
        flags: Vec::new(),
        objects: vec![
            ObjectData {
                id: ObjectId::new("sword"),
                primary_name: "sword".to_string(),
                aliases: Vec::new(),
                kind: ObjectKind::Item,
                door: None,
            },
            ObjectData {
                id: ObjectId::new("cabinet"),
                primary_name: "cabinet".to_string(),
                aliases: Vec::new(),
                kind: ObjectKind::Scene,
                door: None,
            },
        ],
        rooms: vec![RoomData {
            id: RoomId::new("room"),
            visible_objects: vec![ObjectId::new("sword"), ObjectId::new("cabinet")],
            hidden_objects: Vec::new(),
        }],
        interactions: Vec::new(),
        npcs,
        triggers: Vec::new(),
    };
    WorldState::from_data(&data)
}

struct NoOp;

impl InteractionEffect for NoOp {
    fn apply(&self, _world: &mut WorldState, _context: &ActionContext) -> Vec<Event> {
        Vec::new()
    }
}

struct Ran;

impl InteractionEffect for Ran {
    fn apply(&self, _world: &mut WorldState, _context: &ActionContext) -> Vec<Event> {
        vec![Event::Custom { name: "ran".to_string() }]
    }
}

struct Never;

impl InteractionCondition for Never {
    fn holds(&self, _world: &WorldState, _context: &ActionContext) -> bool {
        false
    }
}

fn no_op_effect() -> Box<dyn InteractionEffect> {
    Box::new(NoOp)
}

#[test]
fn matches_requires_the_verb_when_context_specifies_one() {
    let interaction = Interaction::build(Verb::Take, None, TargetFilter::Any, None, no_op_effect());
    let world = world_with(false);
    let take_context = ActionContext::new(Some(Verb::Take), None, None);
    let drop_context = ActionContext::new(Some(Verb::Drop), None, None);
    assert!(interaction.matches(&world, &take_context));
    assert!(!interaction.matches(&world, &drop_context));
}

#[test]
fn matches_ignores_verb_when_context_has_none() {
    let interaction = Interaction::build(Verb::Take, None, TargetFilter::Any, None, no_op_effect());
    let world = world_with(false);
    let context = ActionContext::new(None, None, None);
    assert!(interaction.matches(&world, &context));
}

#[test]
fn matches_requires_the_exact_item_when_one_is_set() {
    let interaction = Interaction::build(
        Verb::Take,
        Some(ObjectId::new("sword")),
        TargetFilter::Any,
        None,
        no_op_effect(),
    );
    let world = world_with(false);
    let matching = ActionContext::new(Some(Verb::Take), Some(ObjectId::new("sword")), None);
    let other_item = ActionContext::new(Some(Verb::Take), Some(ObjectId::new("shield")), None);
    let no_item = ActionContext::new(Some(Verb::Take), None, None);
    assert!(interaction.matches(&world, &matching));
    assert!(!interaction.matches(&world, &other_item));
    assert!(!interaction.matches(&world, &no_item));
}

#[test]
fn matches_none_item_matches_any_carried_item() {
    let interaction = Interaction::build(Verb::Take, None, TargetFilter::Any, None, no_op_effect());
    let world = world_with(false);
    let with_item = ActionContext::new(Some(Verb::Take), Some(ObjectId::new("sword")), None);
    let no_item = ActionContext::new(Some(Verb::Take), None, None);
    assert!(interaction.matches(&world, &with_item));
    assert!(interaction.matches(&world, &no_item));
}

#[test]
fn matches_defers_to_the_target_filter() {
    let interaction =
        Interaction::build(Verb::Use, None, TargetFilter::Targeted, None, no_op_effect());
    let world = world_with(false);
    let no_target = ActionContext::new(Some(Verb::Use), None, None);
    let with_target =
        ActionContext::new(Some(Verb::Use), None, Some(Target::Object(ObjectId::new("sword"))));
    assert!(!interaction.matches(&world, &no_target));
    assert!(interaction.matches(&world, &with_target));
}

#[test]
fn matches_runs_the_condition_when_present() {
    let interaction = Interaction::build(
        Verb::Take,
        None,
        TargetFilter::Any,
        Some(Box::new(Never) as Box<dyn InteractionCondition>),
        no_op_effect(),
    );
    let world = world_with(false);
    let context = ActionContext::new(Some(Verb::Take), None, None);
    assert!(!interaction.matches(&world, &context));
}

#[test]
fn condition_applies_defaults_to_true_when_absent() {
    let interaction = Interaction::build(Verb::Take, None, TargetFilter::Any, None, no_op_effect());
    let world = world_with(false);
    let context = ActionContext::new(Some(Verb::Take), None, None);
    assert!(interaction.condition_applies(&world, &context));
}

#[test]
fn run_invokes_the_effect_and_returns_its_events() {
    let interaction = Interaction::build(Verb::Take, None, TargetFilter::Any, None, Box::new(Ran));
    let mut world = world_with(false);
    let context = ActionContext::new(Some(Verb::Take), None, None);
    assert_eq!(interaction.run(&mut world, &context), vec![Event::Custom { name: "ran".to_string() }]);
}

#[test]
fn accessors_expose_the_built_parts() {
    let interaction = Interaction::build(
        Verb::Use,
        Some(ObjectId::new("sword")),
        TargetFilter::Kind(TargetKind::Scene),
        None,
        no_op_effect(),
    );
    assert_eq!(interaction.verb(), Verb::Use);
    assert_eq!(interaction.item(), Some(ObjectId::new("sword")));
    assert_eq!(interaction.target(), TargetFilter::Kind(TargetKind::Scene));
    assert_eq!(interaction.npc(), None);
}

#[test]
fn talk_npc_matches_only_while_the_npc_is_in_the_current_room() {
    let interaction = Interaction::talk_npc(NpcId::new("guard"));
    assert_eq!(interaction.verb(), Verb::Talk);
    assert_eq!(interaction.npc(), Some(&NpcId::new("guard")));

    let present = world_with(true);
    let context = ActionContext::new(Some(Verb::Talk), None, None);
    assert!(interaction.matches(&present, &context));

    let absent = world_with(false);
    assert!(!interaction.matches(&absent, &context));
}

#[test]
fn talk_npc_effect_is_inert() {
    let interaction = Interaction::talk_npc(NpcId::new("guard"));
    let mut world = world_with(true);
    let context = ActionContext::new(Some(Verb::Talk), None, None);
    assert_eq!(interaction.run(&mut world, &context), Vec::new());
}

#[test]
fn talk_npc_answers_a_query_naming_the_npc_but_not_an_object() {
    let interaction = Interaction::talk_npc(NpcId::new("guard"));
    let world = world_with(true);
    let named = ActionContext::new(None, Some(ObjectId::new("sword")), Some(Target::Npc(NpcId::new("guard"))));
    let other_npc = ActionContext::new(None, None, Some(Target::Npc(NpcId::new("clerk"))));
    let object = ActionContext::new(None, None, Some(Target::Object(ObjectId::new("sword"))));
    let item_only = ActionContext::new(None, Some(ObjectId::new("sword")), None);
    assert!(interaction.matches(&world, &named));
    assert!(!interaction.matches(&world, &other_npc));
    assert!(!interaction.matches(&world, &object));
    assert!(!interaction.matches(&world, &item_only));
}

#[test]
fn any_matches_regardless_of_target() {
    let world = world_with(false);
    assert!(TargetFilter::Any.matches(&world, None));
    assert!(TargetFilter::Any.matches(&world, Some(&Target::Object(ObjectId::new("sword")))));
}

#[test]
fn targeted_requires_some_target() {
    let world = world_with(false);
    assert!(!TargetFilter::Targeted.matches(&world, None));
    assert!(TargetFilter::Targeted.matches(&world, Some(&Target::Object(ObjectId::new("sword")))));
    assert!(TargetFilter::Targeted.matches(&world, Some(&Target::Npc(NpcId::new("guard")))));
}

#[test]
fn scene_requires_a_scene_object_target() {
    let world = world_with(false);
    let scene = TargetFilter::Kind(TargetKind::Scene);
    assert!(!scene.matches(&world, None));
    assert!(scene.matches(&world, Some(&Target::Object(ObjectId::new("cabinet")))));
    assert!(!scene.matches(&world, Some(&Target::Object(ObjectId::new("sword")))));
}

#[test]
fn scene_rejects_an_npc_target() {
    let world = world_with(false);
    assert!(
        !TargetFilter::Kind(TargetKind::Scene).matches(&world, Some(&Target::Npc(NpcId::new("guard"))))
    );
}

#[test]
fn carried_requires_a_carried_object_target() {
    let mut world = world_with(false);
    let carried = TargetFilter::Kind(TargetKind::Carried);
    assert!(!carried.matches(&world, Some(&Target::Object(ObjectId::new("sword")))));
    world.player_take_object(&ObjectId::new("sword"));
    assert!(carried.matches(&world, Some(&Target::Object(ObjectId::new("sword")))));
}

#[test]
fn maps_each_actionable_variant_to_its_verb() {
    assert_eq!(Verb::from_action(&Action::Look), Some(Verb::Look));
    assert_eq!(
        Verb::from_action(&Action::Go(GoTarget::Direction(Direction::North))),
        Some(Verb::Go)
    );
    assert_eq!(
        Verb::from_action(&Action::Examine(Locator::Name("sword".to_string()))),
        Some(Verb::Examine)
    );
    assert_eq!(Verb::from_action(&Action::Take(Locator::Name("sword".to_string()))), Some(Verb::Take));
    assert_eq!(Verb::from_action(&Action::Drop(Locator::Name("sword".to_string()))), Some(Verb::Drop));
    assert_eq!(Verb::from_action(&Action::Talk(Locator::Name("guard".to_string()))), Some(Verb::Talk));
}

#[test]
fn use_maps_to_the_same_verb_with_or_without_a_target() {
    assert_eq!(
        Verb::from_action(&Action::Use { item: Locator::Name("key".to_string()), target: None }),
        Some(Verb::Use)
    );
    assert_eq!(
        Verb::from_action(&Action::Use {
            item: Locator::Name("key".to_string()),
            target: Some(Locator::Name("door".to_string())),
        }),
        Some(Verb::Use)
    );
}

#[test]
fn choose_and_unknown_have_no_verb() {
    assert_eq!(Verb::from_action(&Action::Choose("1".to_string())), None);
    assert_eq!(Verb::from_action(&Action::Unknown("dance".to_string())), None);
}

#[test]
fn action_context_exposes_an_object_or_npc_target() {
    let object = ActionContext::new(None, None, Some(Target::Object(ObjectId::new("sword"))));
    let npc = ActionContext::new(None, None, Some(Target::Npc(NpcId::new("guard"))));
    assert_eq!(object.target_object(), Some(&ObjectId::new("sword")));
    assert_eq!(object.target_npc(), None);
    assert_eq!(npc.target_npc(), Some(&NpcId::new("guard")));
    assert_eq!(npc.target_object(), None);
}
