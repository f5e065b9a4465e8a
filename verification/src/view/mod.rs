//! Turning gameplay events into screen output.
use vstd::prelude::*;

pub mod hook;

use crate::event::{DialogueChoice, Event};
use hook::{commands_of, concat_all, events_of, hook_for, render_hook, rendered_in_turn, RenderHook};
use crate::input::direction::Direction;
use crate::world::WorldState;

verus! {

/// A screen-level instruction produced by a [`View`]. A text front-end
/// turns these into lines on the terminal; a GUI front-end interprets them
/// in whatever widget tree it owns. New commands may be added later, so
/// interpreters must carry a fallback arm.
#[non_exhaustive]
#[derive(Debug, PartialEq, Eq)]
pub enum RenderCommand {
    /// One line of prose for a terminal or transcript.
    Line(String),
    /// Wipe the current view.
    ClearScreen,
}

/// Turns gameplay events into screen output.
///
/// It observes events and the world read-only, after the rules have decided
/// what happened. Implement it once per output style, with one `render_*`
/// hook per event; the default [`View::render`] hands each event to its
/// hook with the payload already taken apart, and falls back to
/// [`View::render_generic`] for an event no hook handles, so a new event
/// never breaks an existing view. A hook that has nothing to say returns an
/// empty list.
///
/// What each hook does is stated by the view's own spec functions
/// [`View::renders`], [`View::renders_looked`] and [`View::renders_generic`]:
/// a hook's output, and the state it leaves the view in, meet the relation
/// that the implementation states for that hook and its payload. An
/// implementation that states none promises nothing more.
pub trait View: Sized {
    /// What this view promises of a typed hook: called with `hook` (the
    /// hook and its payload; never `Looked` or `Generic`, which have their
    /// own relations below), it leaves the view as `after` and returns
    /// `commands`.
    open spec fn renders(&self, after: Self, hook: RenderHook, commands: Seq<RenderCommand>) -> bool {
        true
    }

    /// What this view promises of [`View::render_looked`] on `world`.
    open spec fn renders_looked(&self, after: Self, world: WorldState, commands: Seq<RenderCommand>) -> bool {
        true
    }

    /// What this view promises of [`View::render_generic`] on `event`.
    open spec fn renders_generic(&self, after: Self, event: Event, commands: Seq<RenderCommand>) -> bool {
        true
    }

    /// Render a batch of events into screen commands, in order: for each
    /// event, the commands of the hook [`hook::render_hook`] selects for it,
    /// one after another, each hook called on the view as the one before
    /// left it.
    ///
    /// The default states this over the hooks' relations: there is a chain
    /// of view states from the old view to the new one, and one list of
    /// commands per event, such that each event moved the view one step by
    /// the relation of its hook ([`View::renders_looked`] for
    /// [`Event::Looked`], [`View::renders_generic`] for an event no typed
    /// hook handles, [`View::renders`] with the event's payload otherwise),
    /// and the output is those lists joined in event order. Override only to
    /// combine events.
    fn render(&mut self, events: &[Event], world: &WorldState) -> (out: Vec<RenderCommand>)
        default_ensures
            rendered_in_turn(
                (|a: Self, b: Self, e: Event, c: Seq<RenderCommand>|
                exists|h: RenderHook|
                    #[trigger] hook_for(e, h) && match h {
                        RenderHook::Looked => a.renders_looked(b, *world, c),
                        RenderHook::Generic => a.renders_generic(b, e, c),
                        _ => a.renders(b, h, c),
                    }),
                *old(self),
                *final(self),
                events_of(events),
                commands_of(&out),
            ),
    {
        let mut out: Vec<RenderCommand> = Vec::new();
        let ghost start: Self = *self;
        let ghost mut views: Seq<Self> = seq![*self];
        let ghost mut parts: Seq<Seq<RenderCommand>> = Seq::empty();
        let ghost step = |a: Self, b: Self, e: Event, c: Seq<RenderCommand>|
            exists|h: RenderHook|
                #[trigger] hook_for(e, h) && match h {
                    RenderHook::Looked => a.renders_looked(b, *world, c),
                    RenderHook::Generic => a.renders_generic(b, e, c),
                    _ => a.renders(b, h, c),
                };
        let mut i: usize = 0;
        #[verifier::loop_isolation(false)]
        while i < events.len()
            invariant
                i <= events.len(),
                views.len() == i + 1,
                parts.len() == i,
                views[0] == start,
                views.last() == *self,
                hook::renders_each(step, views, parts, events_of(events).take(i as int)),
                commands_of(&out) == concat_all(parts),
            decreases events.len() - i,
        {
            let ghost before: Self = *self;
            let event = &events[i];
            let hook = render_hook(event);
            let ghost h: RenderHook = hook;
            let mut commands = match hook {
                RenderHook::Looked => self.render_looked(world),
                RenderHook::Went(d) => self.render_went(&d),
                RenderHook::WentExitHidden(d) => self.render_went_exit_hidden(&d),
                RenderHook::WentExitLocked(d) => self.render_went_exit_locked(&d),
                RenderHook::WentInvalidDirection(d) => self.render_went_invalid_direction(&d),
                RenderHook::UnlockedExit(d) => self.render_unlocked_exit(&d),
                RenderHook::CannotUse { item, target } => self.render_cannot_use(item, target),
                RenderHook::Custom(name) => self.render_custom(name),
                RenderHook::Took(o) => self.render_took(o),
                RenderHook::TookObjectNotFound(o) => self.render_took_object_not_found(o),
                RenderHook::TookObjectAmbiguous(o) => self.render_took_object_ambiguous(o),
                RenderHook::CantTake(o) => self.render_cant_take(o),
                RenderHook::Granted(o) => self.render_granted(o),
                RenderHook::Dropped(o) => self.render_dropped(o),
                RenderHook::DroppedObjectNotFound(o) => self.render_dropped_object_not_found(o),
                RenderHook::DroppedObjectAmbiguous(o) => self.render_dropped_object_ambiguous(o),
                RenderHook::Discarded(o) => self.render_discarded(o),
                RenderHook::Used { object, target } => self.render_used(object, target),
                RenderHook::UsedObjectNotFound(o) => self.render_used_object_not_found(o),
                RenderHook::UsedObjectAmbiguous(o) => self.render_used_object_ambiguous(o),
                RenderHook::UsedTargetNeeded(o) => self.render_used_target_needed(o),
                RenderHook::UsedTargetNotFound { object, target } => self.render_used_target_not_found(
                    object,
                    target,
                ),
                RenderHook::UsedTargetAmbiguous(o) => self.render_used_target_ambiguous(o),
                RenderHook::Examined(o) => self.render_examined(o),
                RenderHook::ExaminedObjectNotFound(o) => self.render_examined_object_not_found(o),
                RenderHook::ExaminedObjectAmbiguous(o) => self.render_examined_object_ambiguous(o),
                RenderHook::UnknownEvent(name) => self.render_unknown_event(name),
                RenderHook::FlagSet(flag) => self.render_flag_set(flag),
                RenderHook::FlagCleared(flag) => self.render_flag_cleared(flag),
                RenderHook::Talked { npc, text, choices } => self.render_talked(npc, text, choices),
                RenderHook::DialogueEnded(npc) => self.render_dialogue_ended(npc),
                RenderHook::TalkNpcNotFound(npc) => self.render_talk_npc_not_found(npc),
                RenderHook::DialogueInvalidChoice { npc, choice } => self.render_dialogue_invalid_choice(
                    npc,
                    choice,
                ),
                RenderHook::Generic => self.render_generic(event),
            };
            proof {
                assert(hook_for(*event, h));
                assert(match h {
                    RenderHook::Looked => before.renders_looked(*self, *world, commands_of(&commands)),
                    RenderHook::Generic => before.renders_generic(*self, *event, commands_of(&commands)),
                    _ => before.renders(*self, h, commands_of(&commands)),
                });
                hook::lemma_renders_each_push(
                    step,
                    views,
                    parts,
                    events_of(events),
                    i as int,
                    *self,
                    commands_of(&commands),
                );
                hook::lemma_concat_push(parts, commands_of(&commands));
                views = views.push(*self);
                parts = parts.push(commands_of(&commands));
            }
            out.append(&mut commands);
            i = i + 1;
        }
        proof {
            assert(events_of(events).take(events.len() as int) =~= events_of(events));
            hook::lemma_rendered_in_turn(
                step,
                views,
                parts,
                start,
                *self,
                events_of(events),
                commands_of(&out),
            );
            assert(step =~= (|a: Self, b: Self, e: Event, c: Seq<RenderCommand>|
                exists|h: RenderHook|
                    #[trigger] hook_for(e, h) && match h {
                        RenderHook::Looked => a.renders_looked(b, *world, c),
                        RenderHook::Generic => a.renders_generic(b, e, c),
                        _ => a.renders(b, h, c),
                    }));
        }
        out
    }

    /// Fallback for an event no typed hook handles; silent by default.
    fn render_generic(&mut self, event: &Event) -> (commands: Vec<RenderCommand>)
        ensures
            old(self).renders_generic(*final(self), *event, commands_of(&commands)),
    ;

    /// The player looked around; `world` shows the current room.
    fn render_looked(&mut self, world: &WorldState) -> (commands: Vec<RenderCommand>)
        ensures
            old(self).renders_looked(*final(self), *world, commands_of(&commands)),
    ;

    /// The player moved through a passable exit.
    fn render_went(&mut self, direction: &Direction) -> (commands: Vec<RenderCommand>)
        ensures
            old(self).renders(*final(self), RenderHook::Went(*direction), commands_of(&commands)),
    ;

    /// The player tried to go through a hidden exit.
    fn render_went_exit_hidden(&mut self, direction: &Direction) -> (commands: Vec<RenderCommand>)
        ensures
            old(self).renders(*final(self), RenderHook::WentExitHidden(*direction), commands_of(&commands)),
    ;

    /// The player tried to go through a locked exit.
    fn render_went_exit_locked(&mut self, direction: &Direction) -> (commands: Vec<RenderCommand>)
        ensures
            old(self).renders(*final(self), RenderHook::WentExitLocked(*direction), commands_of(&commands)),
    ;

    /// The player tried to go through an exit that does not exist.
    fn render_went_invalid_direction(&mut self, direction: &Direction) -> (commands: Vec<RenderCommand>)
        ensures
            old(self).renders(*final(self), RenderHook::WentInvalidDirection(*direction), commands_of(&commands)),
    ;

    /// A locked exit was unlocked.
    fn render_unlocked_exit(&mut self, direction: &Direction) -> (commands: Vec<RenderCommand>)
        ensures
            old(self).renders(*final(self), RenderHook::UnlockedExit(*direction), commands_of(&commands)),
    ;

    /// An interaction resolved but makes no sense.
    fn render_cannot_use(&mut self, item: &str, target: &str) -> (commands: Vec<RenderCommand>)
        ensures
            old(self).renders(*final(self), RenderHook::CannotUse { item, target }, commands_of(&commands)),
    ;

    /// A game-authored beat.
    fn render_custom(&mut self, name: &str) -> (commands: Vec<RenderCommand>)
        ensures
            old(self).renders(*final(self), RenderHook::Custom(name), commands_of(&commands)),
    ;

    /// The player took an item into the inventory.
    fn render_took(&mut self, object: &str) -> (commands: Vec<RenderCommand>)
        ensures
            old(self).renders(*final(self), RenderHook::Took(object), commands_of(&commands)),
    ;

    /// The player tried to take an item they cannot see.
    fn render_took_object_not_found(&mut self, object: &str) -> (commands: Vec<RenderCommand>)
        ensures
            old(self).renders(*final(self), RenderHook::TookObjectNotFound(object), commands_of(&commands)),
    ;

    /// The player named several visible objects at once.
    fn render_took_object_ambiguous(&mut self, object: &str) -> (commands: Vec<RenderCommand>)
        ensures
            old(self).renders(*final(self), RenderHook::TookObjectAmbiguous(object), commands_of(&commands)),
    ;

    /// The player tried to take a scene object, which is not portable.
    fn render_cant_take(&mut self, object: &str) -> (commands: Vec<RenderCommand>)
        ensures
            old(self).renders(*final(self), RenderHook::CantTake(object), commands_of(&commands)),
    ;

    /// An object was granted into the inventory.
    fn render_granted(&mut self, object: &str) -> (commands: Vec<RenderCommand>)
        ensures
            old(self).renders(*final(self), RenderHook::Granted(object), commands_of(&commands)),
    ;

    /// The player dropped an item.
    fn render_dropped(&mut self, object: &str) -> (commands: Vec<RenderCommand>)
        ensures
            old(self).renders(*final(self), RenderHook::Dropped(object), commands_of(&commands)),
    ;

    /// The player tried to drop an item they are not carrying.
    fn render_dropped_object_not_found(&mut self, object: &str) -> (commands: Vec<RenderCommand>)
        ensures
            old(self).renders(*final(self), RenderHook::DroppedObjectNotFound(object), commands_of(&commands)),
    ;

    /// The player named several carried items at once.
    fn render_dropped_object_ambiguous(&mut self, object: &str) -> (commands: Vec<RenderCommand>)
        ensures
            old(self).renders(*final(self), RenderHook::DroppedObjectAmbiguous(object), commands_of(&commands)),
    ;

    /// An object left the inventory without being placed anywhere.
    fn render_discarded(&mut self, object: &str) -> (commands: Vec<RenderCommand>)
        ensures
            old(self).renders(*final(self), RenderHook::Discarded(object), commands_of(&commands)),
    ;

    /// The player used an object, optionally on a target.
    fn render_used(&mut self, object: &str, target: Option<&str>) -> (commands: Vec<RenderCommand>)
        ensures
            old(self).renders(*final(self), RenderHook::Used { object, target }, commands_of(&commands)),
    ;

    /// The player tried to use an item they do not have.
    fn render_used_object_not_found(&mut self, object: &str) -> (commands: Vec<RenderCommand>)
        ensures
            old(self).renders(*final(self), RenderHook::UsedObjectNotFound(object), commands_of(&commands)),
    ;

    /// The player named several carried items to use.
    fn render_used_object_ambiguous(&mut self, object: &str) -> (commands: Vec<RenderCommand>)
        ensures
            old(self).renders(*final(self), RenderHook::UsedObjectAmbiguous(object), commands_of(&commands)),
    ;

    /// The player used an item but gave no target.
    fn render_used_target_needed(&mut self, object: &str) -> (commands: Vec<RenderCommand>)
        ensures
            old(self).renders(*final(self), RenderHook::UsedTargetNeeded(object), commands_of(&commands)),
    ;

    /// The player used an item on a target that does not exist.
    fn render_used_target_not_found(&mut self, object: &str, target: &str) -> (commands: Vec<RenderCommand>)
        ensures
            old(self).renders(*final(self), RenderHook::UsedTargetNotFound { object, target }, commands_of(&commands)),
    ;

    /// The player's target named several things at once.
    fn render_used_target_ambiguous(&mut self, object: &str) -> (commands: Vec<RenderCommand>)
        ensures
            old(self).renders(*final(self), RenderHook::UsedTargetAmbiguous(object), commands_of(&commands)),
    ;

    /// The player examined something.
    fn render_examined(&mut self, object: &str) -> (commands: Vec<RenderCommand>)
        ensures
            old(self).renders(*final(self), RenderHook::Examined(object), commands_of(&commands)),
    ;

    /// The player tried to examine something that is not there.
    fn render_examined_object_not_found(&mut self, object: &str) -> (commands: Vec<RenderCommand>)
        ensures
            old(self).renders(*final(self), RenderHook::ExaminedObjectNotFound(object), commands_of(&commands)),
    ;

    /// The player named several things to examine.
    fn render_examined_object_ambiguous(&mut self, object: &str) -> (commands: Vec<RenderCommand>)
        ensures
            old(self).renders(*final(self), RenderHook::ExaminedObjectAmbiguous(object), commands_of(&commands)),
    ;

    /// The player typed an unknown command.
    fn render_unknown_event(&mut self, name: &str) -> (commands: Vec<RenderCommand>)
        ensures
            old(self).renders(*final(self), RenderHook::UnknownEvent(name), commands_of(&commands)),
    ;

    /// A global flag was set.
    fn render_flag_set(&mut self, flag: &str) -> (commands: Vec<RenderCommand>)
        ensures
            old(self).renders(*final(self), RenderHook::FlagSet(flag), commands_of(&commands)),
    ;

    /// A global flag was cleared.
    fn render_flag_cleared(&mut self, flag: &str) -> (commands: Vec<RenderCommand>)
        ensures
            old(self).renders(*final(self), RenderHook::FlagCleared(flag), commands_of(&commands)),
    ;

    /// An NPC spoke; `choices` are the player's possible answers.
    fn render_talked(&mut self, npc: &str, text: &str, choices: &[DialogueChoice]) -> (commands: Vec<RenderCommand>)
        ensures
            old(self).renders(*final(self), RenderHook::Talked { npc, text, choices }, commands_of(&commands)),
    ;

    /// A conversation ended.
    fn render_dialogue_ended(&mut self, npc: &str) -> (commands: Vec<RenderCommand>)
        ensures
            old(self).renders(*final(self), RenderHook::DialogueEnded(npc), commands_of(&commands)),
    ;

    /// The player tried to talk to an NPC that is not here.
    fn render_talk_npc_not_found(&mut self, npc: &str) -> (commands: Vec<RenderCommand>)
        ensures
            old(self).renders(*final(self), RenderHook::TalkNpcNotFound(npc), commands_of(&commands)),
    ;

    /// The player picked a dialogue option that does not exist.
    fn render_dialogue_invalid_choice(&mut self, npc: &str, choice: &str) -> (commands: Vec<RenderCommand>)
        ensures
            old(self).renders(*final(self), RenderHook::DialogueInvalidChoice { npc, choice }, commands_of(&commands)),
    ;
}

} // verus!
