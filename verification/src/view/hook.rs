//! Which render hook each event goes to.
use vstd::prelude::*;

use crate::event::{DialogueChoice, Event};
use crate::input::direction::Direction;
use crate::view::RenderCommand;
use crate::world::WorldState;

verus! {

/// The render hook an event goes to, with the payload it hands the hook.
#[derive(Debug)]
#[allow(inconsistent_fields)]
pub enum RenderHook<'a> {
    Looked,
    Went(Direction),
    WentExitHidden(Direction),
    WentExitLocked(Direction),
    WentInvalidDirection(Direction),
    UnlockedExit(Direction),
    CannotUse { item: &'a str, target: &'a str },
    Custom(&'a str),
    Took(&'a str),
    TookObjectNotFound(&'a str),
    TookObjectAmbiguous(&'a str),
    CantTake(&'a str),
    Granted(&'a str),
    Dropped(&'a str),
    DroppedObjectNotFound(&'a str),
    DroppedObjectAmbiguous(&'a str),
    Discarded(&'a str),
    Used { object: &'a str, target: Option<&'a str> },
    UsedObjectNotFound(&'a str),
    UsedObjectAmbiguous(&'a str),
    UsedTargetNeeded(&'a str),
    UsedTargetNotFound { object: &'a str, target: &'a str },
    UsedTargetAmbiguous(&'a str),
    Examined(&'a str),
    ExaminedObjectNotFound(&'a str),
    ExaminedObjectAmbiguous(&'a str),
    UnknownEvent(&'a str),
    FlagSet(&'a str),
    FlagCleared(&'a str),
    Talked { npc: &'a str, text: &'a str, choices: &'a [DialogueChoice] },
    DialogueEnded(&'a str),
    TalkNpcNotFound(&'a str),
    DialogueInvalidChoice { npc: &'a str, choice: &'a str },
    /// An event no typed hook handles.
    Generic,
}

/// `h` is the hook for the event `e`, handed the event's own payload.
pub open spec fn hook_for(e: Event, h: RenderHook) -> bool {
    match e {
        Event::Looked => h is Looked,
        Event::Went(d) => h == RenderHook::Went(d),
        Event::WentExitHidden(d) => h == RenderHook::WentExitHidden(d),
        Event::WentExitLocked(d) => h == RenderHook::WentExitLocked(d),
        Event::WentInvalidDirection(d) => h == RenderHook::WentInvalidDirection(d),
        Event::UnlockedExit { direction } => h == RenderHook::UnlockedExit(direction),
        Event::CannotUse { item, target } => h matches RenderHook::CannotUse { item: i, target: t }
            && i@ == item@ && t@ == target@,
        Event::Custom { name } => h matches RenderHook::Custom(s) && s@ == name@,
        Event::Took { object, .. } => h matches RenderHook::Took(s) && s@ == object@,
        Event::TookObjectNotFound { object } => h matches RenderHook::TookObjectNotFound(s) && s@
            == object@,
        Event::TookObjectAmbiguous { object, .. } => h matches RenderHook::TookObjectAmbiguous(s)
            && s@ == object@,
        Event::CantTake { object } => h matches RenderHook::CantTake(s) && s@ == object@,
        Event::Granted { object, .. } => h matches RenderHook::Granted(s) && s@ == object@,
        Event::Dropped { object, .. } => h matches RenderHook::Dropped(s) && s@ == object@,
        Event::DroppedObjectNotFound { object } => h matches RenderHook::DroppedObjectNotFound(s)
            && s@ == object@,
        Event::DroppedObjectAmbiguous { object, .. } => h matches RenderHook::DroppedObjectAmbiguous(
            s,
        ) && s@ == object@,
        Event::Discarded { object, .. } => h matches RenderHook::Discarded(s) && s@ == object@,
        Event::Used { object, target, .. } => h matches RenderHook::Used { object: o, target: t }
            && o@ == object@ && match target {
            Some(x) => t matches Some(y) && y@ == x@,
            None => t is None,
        },
        Event::UsedObjectNotFound { object } => h matches RenderHook::UsedObjectNotFound(s) && s@
            == object@,
        Event::UsedObjectAmbiguous { object, .. } => h matches RenderHook::UsedObjectAmbiguous(s)
            && s@ == object@,
        Event::UsedTargetNeeded { object, .. } => h matches RenderHook::UsedTargetNeeded(s) && s@
            == object@,
        Event::UsedTargetNotFound { object, target, .. } => h matches RenderHook::UsedTargetNotFound {
            object: o,
            target: t,
        } && o@ == object@ && t@ == target@,
        Event::UsedTargetAmbiguous { object, .. } => h matches RenderHook::UsedTargetAmbiguous(s)
            && s@ == object@,
        Event::Examined { target_name, .. } => h matches RenderHook::Examined(s) && s@
            == target_name@,
        Event::ExaminedTargetNotFound { target } => h matches RenderHook::ExaminedObjectNotFound(s)
            && s@ == target@,
        Event::ExaminedTargetAmbiguous { target, .. } => h matches RenderHook::ExaminedObjectAmbiguous(
            s,
        ) && s@ == target@,
        Event::UnknownEvent { name } => h matches RenderHook::UnknownEvent(s) && s@ == name@,
        Event::FlagSet { flag } => h matches RenderHook::FlagSet(s) && s@ == flag@,
        Event::FlagCleared { flag } => h matches RenderHook::FlagCleared(s) && s@ == flag@,
        Event::Talked { npc, text, choices, .. } => h matches RenderHook::Talked {
            npc: n,
            text: t,
            choices: c,
        } && n@ == npc@ && t@ == text@ && c@ == choices@,
        Event::DialogueEnded { npc, .. } => h matches RenderHook::DialogueEnded(s) && s@ == npc@,
        Event::TalkNpcNotFound { npc } => h matches RenderHook::TalkNpcNotFound(s) && s@ == npc@,
        Event::DialogueInvalidChoice { npc, choice } => h matches RenderHook::DialogueInvalidChoice {
            npc: n,
            choice: c,
        } && n@ == npc@ && c@ == choice@,
        _ => h is Generic,
    }
}

/// The hook for `event`, with its payload.
pub fn render_hook(event: &Event) -> (hook: RenderHook<'_>)
    ensures
        hook_for(*event, hook),
{
    match event {
        Event::Looked => RenderHook::Looked,
        Event::Went(d) => RenderHook::Went(*d),
        Event::WentExitHidden(d) => RenderHook::WentExitHidden(*d),
        Event::WentExitLocked(d) => RenderHook::WentExitLocked(*d),
        Event::WentInvalidDirection(d) => RenderHook::WentInvalidDirection(*d),
        Event::UnlockedExit { direction } => RenderHook::UnlockedExit(*direction),
        Event::CannotUse { item, target } => RenderHook::CannotUse {
            item: item.as_str(),
            target: target.as_str(),
        },
        Event::Custom { name } => RenderHook::Custom(name.as_str()),
        Event::Took { object, .. } => RenderHook::Took(object.as_str()),
        Event::TookObjectNotFound { object } => RenderHook::TookObjectNotFound(object.as_str()),
        Event::TookObjectAmbiguous { object, .. } => RenderHook::TookObjectAmbiguous(object.as_str()),
        Event::CantTake { object } => RenderHook::CantTake(object.as_str()),
        Event::Granted { object, .. } => RenderHook::Granted(object.as_str()),
        Event::Dropped { object, .. } => RenderHook::Dropped(object.as_str()),
        Event::DroppedObjectNotFound { object } => RenderHook::DroppedObjectNotFound(
            object.as_str(),
        ),
        Event::DroppedObjectAmbiguous { object, .. } => RenderHook::DroppedObjectAmbiguous(
            object.as_str(),
        ),
        Event::Discarded { object, .. } => RenderHook::Discarded(object.as_str()),
        Event::Used { object, target, .. } => RenderHook::Used {
            object: object.as_str(),
            target: match target {
                Some(t) => Some(t.as_str()),
                None => None,
            },
        },
        Event::UsedObjectNotFound { object } => RenderHook::UsedObjectNotFound(object.as_str()),
        Event::UsedObjectAmbiguous { object, .. } => RenderHook::UsedObjectAmbiguous(object.as_str()),
        Event::UsedTargetNeeded { object, .. } => RenderHook::UsedTargetNeeded(object.as_str()),
        Event::UsedTargetNotFound { object, target, .. } => RenderHook::UsedTargetNotFound {
            object: object.as_str(),
            target: target.as_str(),
        },
        Event::UsedTargetAmbiguous { object, .. } => RenderHook::UsedTargetAmbiguous(object.as_str()),
        Event::Examined { target_name, .. } => RenderHook::Examined(target_name.as_str()),
        Event::ExaminedTargetNotFound { target } => RenderHook::ExaminedObjectNotFound(
            target.as_str(),
        ),
        Event::ExaminedTargetAmbiguous { target, .. } => RenderHook::ExaminedObjectAmbiguous(
            target.as_str(),
        ),
        Event::UnknownEvent { name } => RenderHook::UnknownEvent(name.as_str()),
        Event::FlagSet { flag } => RenderHook::FlagSet(flag.as_str()),
        Event::FlagCleared { flag } => RenderHook::FlagCleared(flag.as_str()),
        Event::Talked { npc, text, choices, .. } => RenderHook::Talked {
            npc: npc.as_str(),
            text: text.as_str(),
            choices: choices.as_slice(),
        },
        Event::DialogueEnded { npc, .. } => RenderHook::DialogueEnded(npc.as_str()),
        Event::TalkNpcNotFound { npc } => RenderHook::TalkNpcNotFound(npc.as_str()),
        Event::DialogueInvalidChoice { npc, choice } => RenderHook::DialogueInvalidChoice {
            npc: npc.as_str(),
            choice: choice.as_str(),
        },
        _ => RenderHook::Generic,
    }
}

/// The commands a list holds, in order.
pub open spec fn commands_of(commands: &Vec<RenderCommand>) -> Seq<RenderCommand> {
    commands@
}

/// The events a slice holds, in order.
pub open spec fn events_of(events: &[Event]) -> Seq<Event> {
    events@
}

/// The commands of `parts`, one part after another.
pub open spec fn concat_all(parts: Seq<Seq<RenderCommand>>) -> Seq<RenderCommand>
    decreases parts.len(),
{
    if parts.len() == 0 {
        Seq::empty()
    } else {
        concat_all(parts.drop_last()) + parts.last()
    }
}

/// Event `k` of `events` was rendered by `views[k]` as `parts[k]`, leaving
/// the view as `views[k + 1]`, where `step` says what rendering one event
/// means.
pub open spec fn renders_each<V>(
    step: spec_fn(V, V, Event, Seq<RenderCommand>) -> bool,
    views: Seq<V>,
    parts: Seq<Seq<RenderCommand>>,
    events: Seq<Event>,
) -> bool {
    &&& views.len() == events.len() + 1
    &&& parts.len() == events.len()
    &&& forall|k: int| 0 <= k < events.len() ==> step(views[k], views[k + 1], events[k], #[trigger] parts[k])
}

/// Starting as `before`, the view rendered `events` one after another, each
/// by `step`, ending as `after`; `out` is what it produced, in event order.
pub open spec fn rendered_in_turn<V>(
    step: spec_fn(V, V, Event, Seq<RenderCommand>) -> bool,
    before: V,
    after: V,
    events: Seq<Event>,
    out: Seq<RenderCommand>,
) -> bool {
    exists|views: Seq<V>, parts: Seq<Seq<RenderCommand>>|
        #[trigger] renders_each(step, views, parts, events) && views[0] == before && views.last()
            == after && out == concat_all(parts)
}

pub(crate) proof fn lemma_renders_each_push<V>(
    step: spec_fn(V, V, Event, Seq<RenderCommand>) -> bool,
    views: Seq<V>,
    parts: Seq<Seq<RenderCommand>>,
    events: Seq<Event>,
    i: int,
    next: V,
    commands: Seq<RenderCommand>,
)
    requires
        0 <= i < events.len(),
        renders_each(step, views, parts, events.take(i)),
        step(views.last(), next, events[i], commands),
    ensures
        renders_each(step, views.push(next), parts.push(commands), events.take(i + 1)),
{
    let vs = views.push(next);
    let ps = parts.push(commands);
    let es = events.take(i + 1);
    assert forall|k: int| 0 <= k < es.len() implies step(vs[k], vs[k + 1], es[k], #[trigger] ps[k]) by {
        if k < i {
            assert(parts[k] == ps[k]);
            assert(events.take(i)[k] == es[k]);
        }
    }
}

pub(crate) proof fn lemma_concat_push(parts: Seq<Seq<RenderCommand>>, part: Seq<RenderCommand>)
    ensures
        concat_all(parts.push(part)) == concat_all(parts) + part,
{
    assert(parts.push(part).drop_last() =~= parts);
}

pub(crate) proof fn lemma_rendered_in_turn<V>(
    step: spec_fn(V, V, Event, Seq<RenderCommand>) -> bool,
    views: Seq<V>,
    parts: Seq<Seq<RenderCommand>>,
    before: V,
    after: V,
    events: Seq<Event>,
    out: Seq<RenderCommand>,
)
    requires
        renders_each(step, views, parts, events),
        views[0] == before,
        views.last() == after,
        out == concat_all(parts),
    ensures
        rendered_in_turn(step, before, after, events, out),
{
}

} // verus!
