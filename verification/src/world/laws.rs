//! What the world's operations promise of one another.
use vstd::prelude::*;

use crate::input::direction::{Direction, DirectionResolution};
use crate::input::action::Outcome;
use crate::keys::ObjectId;
use crate::text::keep;
use crate::world::object::{
    contains_id, find_by_id_spec, index_of_id, lemma_index_of_id, without_id, Object,
    ObjectResolution,
};
use crate::world::room::{
    hide_exit_post, hide_object_post, relock_post, reveal_exit_post, reveal_object_post, with_lock, Room,
};
use crate::world::{
    clear_flag_post, drop_post, flag_not, room_index, room_key_is, set_flag_post, take_post,
    WorldView,
};
use crate::text::lemma_first_index;

verus! {

/// Pushing an object with a new id makes it the first with that id, and
/// taking it out again gives back the list.
pub proof fn lemma_push_new_id(s: Seq<Object>, x: Object, id: Seq<char>)
    requires
        !contains_id(s, id),
        x.id@ == id,
    ensures
        index_of_id(s.push(x), id) == s.len(),
        find_by_id_spec(s.push(x), id) == Some(x),
        without_id(s.push(x), id) == s,
        contains_id(s.push(x), id),
{
    lemma_index_of_id(s, id);
    assert(s.push(x).drop_last() =~= s);
    assert(s.push(x).remove(s.len() as int) =~= s);
    assert(s.push(x)[s.len() as int] == x);
}

/// Changing an object in place but keeping its id keeps where an id is
/// first found.
pub proof fn lemma_update_same_id(s: Seq<Object>, k: int, x: Object, id: Seq<char>)
    requires
        0 <= k < s.len(),
        x.id == s[k].id,
    ensures
        index_of_id(s.update(k, x), id) == index_of_id(s, id),
        contains_id(s.update(k, x), id) == contains_id(s, id),
    decreases s.len(),
{
    let t = s.update(k, x);
    lemma_index_of_id(s, id);
    lemma_index_of_id(t, id);
    assert forall|j: int| 0 <= j < s.len() implies (#[trigger] t[j]).id == s[j].id by {}
    if contains_id(s, id) {
        let j = choose|j: int| 0 <= j < s.len() && (#[trigger] s[j]).id@ == id;
        assert(t[j].id@ == id);
    }
    if contains_id(t, id) {
        let j = choose|j: int| 0 <= j < t.len() && (#[trigger] t[j]).id@ == id;
        assert(s[j].id@ == id);
    }
    let a = index_of_id(s, id);
    let b = index_of_id(t, id);
    if a >= 0 && b >= 0 {
        assert(t[a].id == s[a].id);
        assert(s[b].id == t[b].id);
        if a < b {
            assert(t[a].id@ != id);
        }
        if b < a {
            assert(s[b].id@ != id);
        }
    }
}

/// Locking an unlocked exit and unlocking it again gives back the room as
/// it was.
pub proof fn law_lock_then_unlock(pre: Room, mid: Room, post: Room, direction: Direction, r1: DirectionResolution, r2: DirectionResolution)
    requires
        relock_post(pre, mid, direction, true, r1),
        r1 == DirectionResolution::Found(direction),
        relock_post(mid, post, direction, false, r2),
    ensures
        r2 == DirectionResolution::Found(direction),
        post.visible() == pre.visible(),
        post.hidden() == pre.hidden(),
        !post.exit_locked_spec(direction),
{
    let id = pre.door_slot(direction)->0@;
    assert(mid.door_slot(direction) == pre.door_slot(direction));
    assert(post.door_slot(direction) == pre.door_slot(direction));
    lemma_index_of_id(pre.visible(), id);
    lemma_index_of_id(pre.hidden(), id);
    if contains_id(pre.visible(), id) {
        let k = index_of_id(pre.visible(), id);
        let o = pre.visible()[k];
        lemma_update_same_id(pre.visible(), k, with_lock(o, true), id);
        assert(mid.visible()[k] == with_lock(o, true));
        lemma_index_of_id(mid.visible(), id);
        lemma_update_same_id(mid.visible(), k, with_lock(with_lock(o, true), false), id);
        assert(with_lock(with_lock(o, true), false) == o);
        assert(post.visible() =~= pre.visible());
    } else {
        let k = index_of_id(pre.hidden(), id);
        let o = pre.hidden()[k];
        lemma_update_same_id(pre.hidden(), k, with_lock(o, true), id);
        assert(mid.hidden()[k] == with_lock(o, true));
        lemma_index_of_id(mid.hidden(), id);
        assert(!contains_id(mid.visible(), id));
        lemma_update_same_id(mid.hidden(), k, with_lock(with_lock(o, true), false), id);
        assert(with_lock(with_lock(o, true), false) == o);
        assert(post.hidden() =~= pre.hidden());
    }
}

/// Hiding a visible object and revealing it again finds it both times and
/// leaves an object with that id visible again. When no hidden object
/// already had that id, the hidden list is as before, the very object that
/// was hidden is visible again, now last, and revealing once more finds
/// nothing.
pub proof fn law_hide_then_reveal(
    pre: Room,
    mid: Room,
    post: Room,
    again: Room,
    id: ObjectId,
    r1: ObjectResolution,
    r2: ObjectResolution,
    r3: ObjectResolution,
)
    requires
        hide_object_post(pre, mid, id, r1),
        reveal_object_post(mid, post, id, r2),
        reveal_object_post(post, again, id, r3),
        contains_id(pre.visible(), id@),
    ensures
        r1 == ObjectResolution::Found(id),
        r2 == ObjectResolution::Found(id),
        contains_id(post.visible(), id@),
        !contains_id(pre.hidden(), id@) ==> {
            &&& post.hidden() == pre.hidden()
            &&& post.visible() == without_id(pre.visible(), id@).push(find_by_id_spec(pre.visible(), id@)->0)
            &&& r3 is NotFound
            &&& again == post
        },
{
    lemma_index_of_id(pre.visible(), id@);
    let o = find_by_id_spec(pre.visible(), id@)->0;
    assert(mid.hidden()[mid.hidden().len() - 1] == o);
    lemma_index_of_id(mid.hidden(), id@);
    let found = find_by_id_spec(mid.hidden(), id@)->0;
    assert(post.visible()[post.visible().len() - 1] == found);
    if !contains_id(pre.hidden(), id@) {
        lemma_push_new_id(pre.hidden(), o, id@);
        lemma_index_of_id(post.hidden(), id@);
    }
}

/// Taking a visible object the player does not carry and dropping it again
/// gives back the inventory, and the object lies in the room again.
pub proof fn law_take_then_drop(pre: WorldView, mid: WorldView, post: WorldView, id: ObjectId, outcome: Outcome)
    requires
        pre.wf(),
        take_post(pre, mid, id@, Outcome::Success),
        drop_post(mid, post, id@, outcome),
        !pre.holds(id@),
    ensures
        outcome == Outcome::Success,
        post.inventory == pre.inventory,
        contains_id(post.cur_room().visible(), id@),
        post.current == pre.current,
{
    let o = find_by_id_spec(pre.cur_room().visible(), id@)->0;
    lemma_index_of_id(pre.cur_room().visible(), id@);
    lemma_push_new_id(pre.inventory, o, id@);
    assert(post.cur_room().visible() == mid.cur_room().visible().push(o));
    assert(post.cur_room().visible()[mid.cur_room().visible().len() as int] == o);
    assert(o.id@ == id@);
}

/// The elements `keep` keeps are exactly those satisfying the predicate.
pub proof fn lemma_keep_members<T>(s: Seq<T>, p: spec_fn(T) -> bool)
    ensures
        forall|x: T|
            #![trigger keep(s, p).contains(x)]
            #![trigger s.contains(x)]
            keep(s, p).contains(x) <==> (s.contains(x) && p(x)),
    decreases s.len(),
{
    if s.len() > 0 {
        let d = s.drop_last();
        let k = keep(d, p);
        lemma_keep_members(d, p);
        assert forall|x: T| keep(s, p).contains(x) <==> (s.contains(x) && p(x)) by {
            if s.contains(x) && p(x) {
                let i = choose|i: int| 0 <= i < s.len() && s[i] == x;
                if i < s.len() - 1 {
                    assert(d[i] == x);
                    assert(d.contains(x));
                    assert(k.contains(x));
                    let m = choose|m: int| 0 <= m < k.len() && k[m] == x;
                    if p(s.last()) {
                        assert(keep(s, p)[m] == x);
                    } else {
                        assert(keep(s, p)[m] == x);
                    }
                } else {
                    assert(keep(s, p)[keep(s, p).len() - 1] == x);
                }
            }
            if keep(s, p).contains(x) {
                let i = choose|i: int| 0 <= i < keep(s, p).len() && keep(s, p)[i] == x;
                if p(s.last()) && i == keep(s, p).len() - 1 {
                    assert(s[s.len() - 1] == x);
                } else {
                    assert(k[i] == x);
                    assert(k.contains(x));
                    let j = choose|j: int| 0 <= j < d.len() && d[j] == x;
                    assert(s[j] == x);
                }
            }
        }
    }
}

/// A flag that was set and then cleared is no longer set; every other flag
/// is as it was before.
pub proof fn law_set_then_clear_flag(pre: WorldView, mid: WorldView, post: WorldView, flag: Seq<char>, other: Seq<char>)
    requires
        set_flag_post(pre, mid, flag),
        clear_flag_post(mid, post, flag),
        other != flag,
    ensures
        mid.has_flag(flag),
        !post.has_flag(flag),
        post.has_flag(other) == pre.has_flag(other),
{
    let kept = keep(mid.flags, flag_not(flag));
    lemma_keep_members(mid.flags, flag_not(flag));
    assert(post.flags == kept);
    if !pre.has_flag(flag) {
        assert(mid.flags[mid.flags.len() - 1]@ == flag);
    }
    if post.has_flag(flag) {
        let i = choose|i: int| 0 <= i < post.flags.len() && #[trigger] post.flags[i]@ == flag;
        assert(kept.contains(kept[i]));
        assert(flag_not(flag)(kept[i]));
    }
    if post.has_flag(other) {
        let i = choose|i: int| 0 <= i < post.flags.len() && #[trigger] post.flags[i]@ == other;
        let x = kept[i];
        assert(kept.contains(x));
        assert(mid.flags.contains(x));
        let j = choose|j: int| 0 <= j < mid.flags.len() && mid.flags[j] == x;
        if !pre.has_flag(flag) {
            assert(j != mid.flags.len() - 1);
            assert(mid.flags.drop_last()[j] == mid.flags[j]);
            assert(pre.flags[j] == x);
        } else {
            assert(pre.flags[j] == x);
        }
        assert(pre.flags[j]@ == other);
    }
    if pre.has_flag(other) {
        let i = choose|i: int| 0 <= i < pre.flags.len() && #[trigger] pre.flags[i]@ == other;
        let x = pre.flags[i];
        if !pre.has_flag(flag) {
            assert(mid.flags.drop_last()[i] == mid.flags[i]);
            assert(mid.flags[i] == x);
        } else {
            assert(mid.flags[i] == x);
        }
        assert(mid.flags.contains(x));
        assert(flag_not(flag)(x));
        assert(kept.contains(x));
        let k = choose|k: int| 0 <= k < kept.len() && kept[k] == x;
        assert(post.flags[k]@ == other);
    }
}

/// Moving to a known room puts the player in that room, ends any
/// conversation, and leaves the inventory and flags as they were.
pub proof fn law_move_arrives(pre: WorldView, post: WorldView, room: Seq<char>)
    requires
        room_index(pre.rooms, room) >= 0,
        post == (WorldView { current: room_index(pre.rooms, room), dialogue: Seq::empty(), active_npc: None, ..pre }),
    ensures
        post.cur_room_id()@ == room,
        post.inventory == pre.inventory,
        post.flags == pre.flags,
        post.active_npc is None,
{
    lemma_first_index(pre.rooms, room_key_is(room));
}

/// Hiding a visible exit and revealing it again finds it both times, gives
/// back the hidden list and puts the door last among the visible objects;
/// revealing it once more does nothing. When the door's id occurs only once
/// among the visible objects, the exit leads where it led before.
pub proof fn law_hide_then_reveal_exit(
    pre: Room,
    mid: Room,
    post: Room,
    again: Room,
    direction: Direction,
    r1: DirectionResolution,
    r2: DirectionResolution,
    r3: DirectionResolution,
)
    requires
        hide_exit_post(pre, mid, direction, r1),
        reveal_exit_post(mid, post, direction, r2),
        reveal_exit_post(post, again, direction, r3),
        pre.door_slot(direction) matches Some(id) && contains_id(pre.visible(), id@),
        !pre.exit_hidden_spec(direction),
    ensures
        r1 == DirectionResolution::Found(direction),
        r2 == DirectionResolution::Found(direction),
        !post.exit_hidden_spec(direction),
        post.hidden() == pre.hidden(),
        post.visible() == without_id(pre.visible(), pre.door_slot(direction)->0@).push(
            find_by_id_spec(pre.visible(), pre.door_slot(direction)->0@)->0,
        ),
        r3 == DirectionResolution::NotFound,
        again == post,
        !contains_id(without_id(pre.visible(), pre.door_slot(direction)->0@), pre.door_slot(direction)->0@)
            ==> post.open_exit_spec(direction) == pre.open_exit_spec(direction),
{
    let id = pre.door_slot(direction)->0@;
    lemma_index_of_id(pre.visible(), id);
    let o = find_by_id_spec(pre.visible(), id)->0;
    assert(!contains_id(pre.hidden(), id));
    lemma_push_new_id(pre.hidden(), o, id);
    assert(mid.door_slot(direction) == pre.door_slot(direction));
    assert(mid.exit_hidden_spec(direction));
    assert(post.door_slot(direction) == pre.door_slot(direction));
    assert(!post.exit_hidden_spec(direction));
    if !contains_id(without_id(pre.visible(), id), id) {
        lemma_push_new_id(without_id(pre.visible(), id), o, id);
    }
}

} // verus!
