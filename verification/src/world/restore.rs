//! What a restore gives back of a save: the objects of every room and of
//! the inventory, by key and in order.
use vstd::prelude::*;

use crate::keys::{ObjectId, RoomId};
use crate::text::keep;
use crate::world::laws::lemma_keep_members;
use crate::world::object::{contains_id, find_by_id_spec, index_of_id, lemma_index_of_id, without_id, Object};
use crate::world::room::Room;
use crate::world::save::{
    is_place_trace, is_snapshot_of, lemma_keep_concat, lemma_room_index_by_keys, place_post, placed, plan_of,
    relocked_world, restore_post, room_holds_any, room_replaced, rooms_plan, take_anywhere_post, Destination,
    WorldSnapshot,
};
use crate::world::{room_index, room_key_is, WorldView};
use crate::text::{first_index, lemma_first_index};

verus! {

/// The keys of `objs`, in order.
pub open spec fn keys_of(objs: Seq<Object>) -> Seq<Seq<char>> {
    objs.map_values(|o: Object| o.id@)
}

/// Object list `l` of `w`: first the visible list of each room, then the
/// hidden list of each room, and last the inventory.
pub open spec fn slot(w: WorldView, l: int) -> Seq<Object> {
    let n = w.rooms.len();
    if l < n {
        w.rooms[l].1.visible()
    } else if l < 2 * n {
        w.rooms[l - n].1.hidden()
    } else {
        w.inventory
    }
}

/// Whether `l` names an object list of `w`.
pub open spec fn is_slot(w: WorldView, l: int) -> bool {
    0 <= l <= 2 * w.rooms.len()
}

/// The list a destination names among `rooms` (as [`slot`] numbers them),
/// or -1 for a room `rooms` lacks.
pub open spec fn dest_slot(rooms: Seq<(RoomId, Room)>, d: Destination) -> int {
    match d {
        Destination::Visible(r) => room_index(rooms, r@),
        Destination::Hidden(r) => if room_index(rooms, r@) >= 0 {
            rooms.len() + room_index(rooms, r@)
        } else {
            -1
        },
        Destination::Carried => 2 * (rooms.len() as int),
    }
}

/// `x` appears at most once in `s`.
pub open spec fn once_in(s: Seq<Seq<char>>, x: Seq<char>) -> bool {
    forall|i: int, j: int| 0 <= i < j < s.len() && #[trigger] s[i] == x ==> #[trigger] s[j] != x
}

/// The key `x` appears at most once among all the object lists of `w`.
pub open spec fn at_most_once(w: WorldView, x: Seq<char>) -> bool {
    &&& forall|l: int| is_slot(w, l) ==> once_in(#[trigger] keys_of(slot(w, l)), x)
    &&& forall|l1: int, l2: int|
        is_slot(w, l1) && is_slot(w, l2) && #[trigger] keys_of(slot(w, l1)).contains(x) && #[trigger] keys_of(
            slot(w, l2),
        ).contains(x) ==> l1 == l2
}

/// Keys other than `x`.
pub open spec fn other_than(x: Seq<char>) -> spec_fn(Seq<char>) -> bool {
    |y: Seq<char>| y != x
}

/// Keys passing both `p` and `q`.
pub open spec fn both(p: spec_fn(Seq<char>) -> bool, q: spec_fn(Seq<char>) -> bool) -> spec_fn(Seq<char>) -> bool {
    |y: Seq<char>| p(y) && q(y)
}

/// `s` without the key `x`.
pub open spec fn remove_key(s: Seq<Seq<char>>, x: Seq<char>) -> Seq<Seq<char>> {
    keep(s, other_than(x))
}

/// Keys not among `done`.
pub open spec fn not_in(done: Seq<Seq<char>>) -> spec_fn(Seq<char>) -> bool {
    |y: Seq<char>| !done.contains(y)
}

/// The keys the moves `q` place.
pub open spec fn plan_keys(q: Seq<(ObjectId, Destination)>) -> Seq<Seq<char>> {
    q.map_values(|e: (ObjectId, Destination)| e.0@)
}

/// The keys the moves `q` send to list `l` among `rooms`, in order.
pub open spec fn dest_keys(rooms: Seq<(RoomId, Room)>, q: Seq<(ObjectId, Destination)>, l: int) -> Seq<Seq<char>>
    decreases q.len(),
{
    if q.len() == 0 {
        Seq::empty()
    } else if dest_slot(rooms, q.last().1) == l {
        dest_keys(rooms, q.drop_last(), l).push(q.last().0@)
    } else {
        dest_keys(rooms, q.drop_last(), l)
    }
}

/// Whether `w` holds an object with key `x` in any list.
pub open spec fn present(w: WorldView, x: Seq<char>) -> bool {
    exists|l: int| is_slot(w, l) && #[trigger] keys_of(slot(w, l)).contains(x)
}

/// Removing a key a list lacks changes nothing.
proof fn lemma_remove_absent(s: Seq<Seq<char>>, x: Seq<char>)
    requires
        !s.contains(x),
    ensures
        remove_key(s, x) == s,
    decreases s.len(),
{
    if s.len() > 0 {
        assert(!s.drop_last().contains(x)) by {
            if s.drop_last().contains(x) {
                let i = choose|i: int| 0 <= i < s.drop_last().len() && s.drop_last()[i] == x;
                assert(s[i] == x);
            }
        }
        lemma_remove_absent(s.drop_last(), x);
        assert(s.last() != x) by {
            assert(s[s.len() - 1] == s.last());
        }
        assert(s.drop_last().push(s.last()) =~= s);
    }
}

/// The keys of `objs` without its first object of key `x` are the keys of
/// `objs` with `x` removed, when `x` appears at most once.
proof fn lemma_keys_without(objs: Seq<Object>, x: Seq<char>)
    requires
        once_in(keys_of(objs), x),
    ensures
        keys_of(without_id(objs, x)) == remove_key(keys_of(objs), x),
    decreases objs.len(),
{
    lemma_index_of_id(objs, x);
    let k = index_of_id(objs, x);
    if objs.len() == 0 {
        assert(keys_of(objs) =~= Seq::<Seq<char>>::empty());
    } else if k == objs.len() - 1 {
        let front = objs.drop_last();
        assert(keys_of(front) =~= keys_of(objs).drop_last());
        assert(!keys_of(front).contains(x)) by {
            if keys_of(front).contains(x) {
                let i = choose|i: int| 0 <= i < keys_of(front).len() && keys_of(front)[i] == x;
                assert(keys_of(objs)[i] == x);
                assert(keys_of(objs)[k] == x);
            }
        }
        lemma_remove_absent(keys_of(front), x);
        assert(objs.remove(k) =~= front);
    } else {
        let front = objs.drop_last();
        assert(keys_of(front) =~= keys_of(objs).drop_last());
        assert(once_in(keys_of(front), x));
        lemma_index_of_id(front, x);
        if k >= 0 {
            assert(index_of_id(front, x) == k) by {
                assert(index_of_id(objs, x) == index_of_id(front, x) || index_of_id(front, x) < 0);
            }
        } else {
            assert(index_of_id(front, x) == -1);
        }
        lemma_keys_without(front, x);
        assert(objs.last().id@ != x) by {
            if k >= 0 {
                assert(keys_of(objs)[k] == x);
                assert(keys_of(objs)[objs.len() - 1] == objs.last().id@);
            } else {
                assert(objs[objs.len() - 1] == objs.last());
            }
        }
        assert(keys_of(objs).drop_last() =~= keys_of(front));
        assert(keys_of(objs).last() == objs.last().id@);
        assert(without_id(objs, x) =~= without_id(front, x).push(objs.last()));
        assert(keys_of(without_id(front, x).push(objs.last())) =~= keys_of(without_id(front, x)).push(
            objs.last().id@,
        ));
    }
}

/// A list holds key `x` exactly when one of its objects has that id.
proof fn lemma_keys_contains(objs: Seq<Object>, x: Seq<char>)
    ensures
        keys_of(objs).contains(x) == contains_id(objs, x),
{
    if contains_id(objs, x) {
        let i = choose|i: int| 0 <= i < objs.len() && (#[trigger] objs[i]).id@ == x;
        assert(keys_of(objs)[i] == x);
    }
    if keys_of(objs).contains(x) {
        let i = choose|i: int| 0 <= i < keys_of(objs).len() && keys_of(objs)[i] == x;
        assert(objs[i].id@ == x);
    }
}

/// Replacing the room at `k` changes only its two lists.
proof fn lemma_room_replaced_slots(pre: WorldView, post: WorldView, k: int, visible: Seq<Object>, hidden: Seq<Object>)
    requires
        0 <= k < pre.rooms.len(),
        room_replaced(pre, post, k, visible, hidden),
    ensures
        post.rooms.len() == pre.rooms.len(),
        post.inventory == pre.inventory,
        post.templates == pre.templates,
        forall|j: int| 0 <= j < pre.rooms.len() ==> (#[trigger] post.rooms[j]).0 == pre.rooms[j].0,
        slot(post, k) == visible,
        slot(post, pre.rooms.len() + k) == hidden,
        forall|l: int|
            is_slot(pre, l) && l != k && l != pre.rooms.len() + k ==> #[trigger] slot(post, l) == slot(pre, l),
{
    assert forall|l: int| is_slot(pre, l) && l != k && l != pre.rooms.len() + k implies #[trigger] slot(post, l)
        == slot(pre, l) by {
        let n = pre.rooms.len();
        if l < n {
            assert(post.rooms[l] == pre.rooms[l]);
        } else if l < 2 * n {
            assert(post.rooms[l - n] == pre.rooms[l - n]);
        }
    }
    assert forall|j: int| 0 <= j < pre.rooms.len() implies (#[trigger] post.rooms[j]).0 == pre.rooms[j].0 by {
        if j != k {
            assert(post.rooms[j] == pre.rooms[j]);
        }
    }
}

/// The lists other than `l0` lack a key that list `l0` holds.
proof fn lemma_only_slot(w: WorldView, x: Seq<char>, l0: int)
    requires
        at_most_once(w, x),
        is_slot(w, l0),
        keys_of(slot(w, l0)).contains(x),
    ensures
        forall|l: int| is_slot(w, l) && l != l0 ==> !(#[trigger] keys_of(slot(w, l))).contains(x),
{
}

/// Taking key `x` out of `pre`: it leaves the one list holding it, and
/// the object taken has key `x`.
proof fn lemma_take_keys(pre: WorldView, mid: WorldView, x: Seq<char>, r: Option<Object>)
    requires
        take_anywhere_post(pre, mid, x, r),
        at_most_once(pre, x),
        present(pre, x) || find_by_id_spec(pre.templates, x) is Some,
    ensures
        mid.rooms.len() == pre.rooms.len(),
        mid.templates == pre.templates,
        forall|k: int| 0 <= k < pre.rooms.len() ==> (#[trigger] mid.rooms[k]).0 == pre.rooms[k].0,
        forall|l: int| is_slot(pre, l) ==> #[trigger] keys_of(slot(mid, l)) == remove_key(keys_of(slot(pre, l)), x),
        r matches Some(o) && o.id@ == x,
{
    let n = pre.rooms.len() as int;
    lemma_index_of_id(pre.inventory, x);
    lemma_keys_contains(pre.inventory, x);
    match find_by_id_spec(pre.inventory, x) {
        Some(o) => {
            assert(slot(pre, 2 * n) == pre.inventory);
            lemma_only_slot(pre, x, 2 * n);
            assert(once_in(keys_of(slot(pre, 2 * n)), x));
            lemma_keys_without(pre.inventory, x);
            assert forall|l: int| is_slot(pre, l) implies #[trigger] keys_of(slot(mid, l)) == remove_key(
                keys_of(slot(pre, l)),
                x,
            ) by {
                if l < 2 * n {
                    assert(slot(mid, l) == slot(pre, l));
                    lemma_remove_absent(keys_of(slot(pre, l)), x);
                }
            }
        },
        None => {
            let p = room_holds_any(x);
            lemma_first_index(pre.rooms, p);
            let k = first_index(pre.rooms, p);
            if k >= 0 {
                let room = pre.rooms[k].1;
                lemma_index_of_id(room.visible(), x);
                lemma_index_of_id(room.hidden(), x);
                lemma_keys_contains(room.visible(), x);
                lemma_keys_contains(room.hidden(), x);
                if contains_id(room.visible(), x) {
                    lemma_room_replaced_slots(pre, mid, k, without_id(room.visible(), x), room.hidden());
                    assert(slot(pre, k) == room.visible());
                    lemma_only_slot(pre, x, k);
                    assert(once_in(keys_of(slot(pre, k)), x));
                    lemma_keys_without(room.visible(), x);
                    assert forall|l: int| is_slot(pre, l) implies #[trigger] keys_of(slot(mid, l)) == remove_key(
                        keys_of(slot(pre, l)),
                        x,
                    ) by {
                        if l == n + k {
                            assert(slot(pre, n + k) == room.hidden());
                            lemma_remove_absent(keys_of(slot(pre, l)), x);
                        } else if l != k {
                            lemma_remove_absent(keys_of(slot(pre, l)), x);
                        }
                    }
                } else {
                    lemma_room_replaced_slots(pre, mid, k, room.visible(), without_id(room.hidden(), x));
                    assert(slot(pre, n + k) == room.hidden());
                    lemma_only_slot(pre, x, n + k);
                    assert(once_in(keys_of(slot(pre, n + k)), x));
                    lemma_keys_without(room.hidden(), x);
                    assert forall|l: int| is_slot(pre, l) implies #[trigger] keys_of(slot(mid, l)) == remove_key(
                        keys_of(slot(pre, l)),
                        x,
                    ) by {
                        if l == k {
                            assert(slot(pre, k) == room.visible());
                            lemma_remove_absent(keys_of(slot(pre, l)), x);
                        } else if l != n + k {
                            lemma_remove_absent(keys_of(slot(pre, l)), x);
                        }
                    }
                }
            } else {
                assert forall|l: int| is_slot(pre, l) implies !(#[trigger] keys_of(slot(pre, l))).contains(x) by {
                    if l < n {
                        assert(!p(pre.rooms[l]));
                        lemma_keys_contains(pre.rooms[l].1.visible(), x);
                    } else if l < 2 * n {
                        assert(!p(pre.rooms[l - n]));
                        lemma_keys_contains(pre.rooms[l - n].1.hidden(), x);
                    }
                }
                assert(!present(pre, x));
                lemma_index_of_id(pre.templates, x);
                assert forall|l: int| is_slot(pre, l) implies #[trigger] keys_of(slot(mid, l)) == remove_key(
                    keys_of(slot(pre, l)),
                    x,
                ) by {
                    lemma_remove_absent(keys_of(slot(pre, l)), x);
                }
            }
        },
    }
}

/// Where a destination points depends on the room keys alone.
proof fn lemma_dest_slot_by_keys(a: Seq<(RoomId, Room)>, b: Seq<(RoomId, Room)>, d: Destination)
    requires
        a.len() == b.len(),
        forall|k: int| 0 <= k < a.len() ==> (#[trigger] b[k]).0 == a[k].0,
    ensures
        dest_slot(a, d) == dest_slot(b, d),
{
    match d {
        Destination::Visible(r) => lemma_room_index_by_keys(a, b, r@),
        Destination::Hidden(r) => lemma_room_index_by_keys(a, b, r@),
        Destination::Carried => {},
    }
}

/// Putting `o` at `d` appends its key to the destination list and leaves
/// the other lists alone.
proof fn lemma_put_keys(mid: WorldView, post: WorldView, o: Object, d: Destination)
    requires
        placed(mid, post, Some(o), d),
        dest_slot(mid.rooms, d) >= 0,
    ensures
        post.rooms.len() == mid.rooms.len(),
        post.templates == mid.templates,
        forall|k: int| 0 <= k < mid.rooms.len() ==> (#[trigger] post.rooms[k]).0 == mid.rooms[k].0,
        forall|l: int|
            is_slot(mid, l) ==> #[trigger] keys_of(slot(post, l)) == keys_of(slot(mid, l)) + (if l == dest_slot(
                mid.rooms,
                d,
            ) {
                seq![o.id@]
            } else {
                Seq::empty()
            }),
{
    let n = mid.rooms.len() as int;
    match d {
        Destination::Carried => {
            assert forall|l: int| is_slot(mid, l) implies #[trigger] keys_of(slot(post, l)) == keys_of(slot(mid, l))
                + (if l == dest_slot(mid.rooms, d) {
                seq![o.id@]
            } else {
                Seq::empty()
            }) by {
                if l == 2 * n {
                    assert(keys_of(mid.inventory.push(o)) =~= keys_of(mid.inventory) + seq![o.id@]);
                } else {
                    assert(keys_of(slot(mid, l)) + Seq::<Seq<char>>::empty() =~= keys_of(slot(mid, l)));
                }
            }
        },
        Destination::Visible(room) => {
            let k = room_index(mid.rooms, room@);
            lemma_first_index(mid.rooms, room_key_is(room@));
            let v = mid.rooms[k].1.visible();
            lemma_room_replaced_slots(mid, post, k, v.push(o), mid.rooms[k].1.hidden());
            assert forall|l: int| is_slot(mid, l) implies #[trigger] keys_of(slot(post, l)) == keys_of(slot(mid, l))
                + (if l == dest_slot(mid.rooms, d) {
                seq![o.id@]
            } else {
                Seq::empty()
            }) by {
                if l == k {
                    assert(keys_of(v.push(o)) =~= keys_of(v) + seq![o.id@]);
                } else {
                    assert(keys_of(slot(mid, l)) + Seq::<Seq<char>>::empty() =~= keys_of(slot(mid, l)));
                }
            }
        },
        Destination::Hidden(room) => {
            let k = room_index(mid.rooms, room@);
            lemma_first_index(mid.rooms, room_key_is(room@));
            let h = mid.rooms[k].1.hidden();
            lemma_room_replaced_slots(mid, post, k, mid.rooms[k].1.visible(), h.push(o));
            assert forall|l: int| is_slot(mid, l) implies #[trigger] keys_of(slot(post, l)) == keys_of(slot(mid, l))
                + (if l == dest_slot(mid.rooms, d) {
                seq![o.id@]
            } else {
                Seq::empty()
            }) by {
                if l == n + k {
                    assert(keys_of(h.push(o)) =~= keys_of(h) + seq![o.id@]);
                } else {
                    assert(keys_of(slot(mid, l)) + Seq::<Seq<char>>::empty() =~= keys_of(slot(mid, l)));
                }
            }
        },
    }
}

/// One move, seen on keys: the moved key leaves the list that held it and
/// joins the end of its destination list.
proof fn lemma_place_keys(pre: WorldView, post: WorldView, id: ObjectId, d: Destination)
    requires
        place_post(pre, post, id, d),
        at_most_once(pre, id@),
        present(pre, id@) || find_by_id_spec(pre.templates, id@) is Some,
        dest_slot(pre.rooms, d) >= 0,
    ensures
        post.rooms.len() == pre.rooms.len(),
        post.templates == pre.templates,
        forall|k: int| 0 <= k < pre.rooms.len() ==> (#[trigger] post.rooms[k]).0 == pre.rooms[k].0,
        forall|l: int|
            is_slot(pre, l) ==> #[trigger] keys_of(slot(post, l)) == remove_key(keys_of(slot(pre, l)), id@) + (
            if l == dest_slot(pre.rooms, d) {
                seq![id@]
            } else {
                Seq::empty()
            }),
{
    let (mid, r) = choose|mid: WorldView, r: Option<Object>|
        #[trigger] take_anywhere_post(pre, mid, id@, r) && placed(mid, post, r, d);
    lemma_take_keys(pre, mid, id@, r);
    let o = r->0;
    lemma_dest_slot_by_keys(pre.rooms, mid.rooms, d);
    lemma_put_keys(mid, post, o, d);
    assert forall|l: int| is_slot(pre, l) implies #[trigger] keys_of(slot(post, l)) == remove_key(
        keys_of(slot(pre, l)),
        id@,
    ) + (if l == dest_slot(pre.rooms, d) {
        seq![id@]
    } else {
        Seq::empty()
    }) by {
        assert(keys_of(slot(mid, l)) == remove_key(keys_of(slot(pre, l)), id@));
    }
}

/// Keeping some elements of a list with `x` at most once keeps `x` at most
/// once.
proof fn lemma_once_keep(s: Seq<Seq<char>>, p: spec_fn(Seq<char>) -> bool, x: Seq<char>)
    requires
        once_in(s, x),
    ensures
        once_in(keep(s, p), x),
    decreases s.len(),
{
    if s.len() > 0 {
        let front = s.drop_last();
        assert forall|i: int, j: int| 0 <= i < j < front.len() && #[trigger] front[i] == x implies #[trigger] front[j]
            != x by {
            assert(s[i] == front[i] && s[j] == front[j]);
        }
        lemma_once_keep(front, p, x);
        lemma_keep_members(front, p);
        let k = keep(front, p);
        if p(s.last()) {
            if s.last() == x {
                assert(!front.contains(x)) by {
                    if front.contains(x) {
                        let i = choose|i: int| 0 <= i < front.len() && front[i] == x;
                        assert(s[i] == x);
                        assert(s[s.len() - 1] == x);
                    }
                }
                assert(!k.contains(x));
            }
            assert forall|i: int, j: int| 0 <= i < j < k.push(s.last()).len() && #[trigger] k.push(s.last())[i]
                == x implies #[trigger] k.push(s.last())[j] != x by {
                if j == k.len() && s.last() == x {
                    assert(k[i] == x);
                }
            }
        }
    }
}

/// A list with `x` at most once, followed by one without it.
proof fn lemma_once_concat(a: Seq<Seq<char>>, b: Seq<Seq<char>>, x: Seq<char>)
    requires
        once_in(a, x),
        !b.contains(x),
    ensures
        once_in(a + b, x),
{
    assert forall|i: int, j: int| 0 <= i < j < (a + b).len() && #[trigger] (a + b)[i] == x implies #[trigger] (a
        + b)[j] != x by {
        if j >= a.len() {
            assert((a + b)[j] == b[j - a.len()]);
        } else {
            assert((a + b)[i] == a[i] && (a + b)[j] == a[j]);
        }
    }
}

/// Keeping by `p` and then by `q` keeps by both.
proof fn lemma_keep_keep(s: Seq<Seq<char>>, p: spec_fn(Seq<char>) -> bool, q: spec_fn(Seq<char>) -> bool)
    ensures
        keep(keep(s, p), q) == keep(s, both(p, q)),
    decreases s.len(),
{
    if s.len() > 0 {
        lemma_keep_keep(s.drop_last(), p, q);
        if p(s.last()) {
            assert(keep(s, p).drop_last() =~= keep(s.drop_last(), p));
            assert(keep(s, p).last() == s.last());
        }
    }
}

/// The keys sent to one list are among the keys of the moves.
proof fn lemma_dest_keys_in_plan(rooms: Seq<(RoomId, Room)>, q: Seq<(ObjectId, Destination)>, l: int)
    ensures
        forall|y: Seq<char>| #[trigger] dest_keys(rooms, q, l).contains(y) ==> plan_keys(q).contains(y),
    decreases q.len(),
{
    if q.len() > 0 {
        let front = q.drop_last();
        lemma_dest_keys_in_plan(rooms, front, l);
        assert forall|y: Seq<char>| #[trigger] dest_keys(rooms, q, l).contains(y) implies plan_keys(q).contains(y) by {
            let d = dest_keys(rooms, front, l);
            if d.contains(y) {
                let i = choose|i: int| 0 <= i < plan_keys(front).len() && plan_keys(front)[i] == y;
                assert(plan_keys(q)[i] == y);
            } else {
                assert(dest_slot(rooms, q.last().1) == l);
                assert(y == q.last().0@) by {
                    let i = choose|i: int| 0 <= i < d.push(q.last().0@).len() && d.push(q.last().0@)[i] == y;
                    assert(i == d.len());
                }
                assert(plan_keys(q)[q.len() - 1] == y);
            }
        }
    }
}

/// After the first moves `q` of a restore onto `f`, the world `w` has the
/// room keys of `f` and its templates, and each list holds the keys `f` had
/// there that no move touched, then the keys the moves sent there.
pub open spec fn placed_so_far(f: WorldView, w: WorldView, q: Seq<(ObjectId, Destination)>) -> bool {
    &&& w.rooms.len() == f.rooms.len()
    &&& forall|k: int| 0 <= k < f.rooms.len() ==> (#[trigger] w.rooms[k]).0 == f.rooms[k].0
    &&& w.templates == f.templates
    &&& forall|l: int|
        is_slot(f, l) ==> #[trigger] keys_of(slot(w, l)) == keep(keys_of(slot(f, l)), not_in(plan_keys(q)))
            + dest_keys(f.rooms, q, l)
}

/// The restore's moves, seen on keys: after the first `m` moves, each list
/// holds the keys the fresh world had there that no move touched, then the
/// keys the moves sent there, in order.
proof fn lemma_trace_keys(plan: Seq<(ObjectId, Destination)>, worlds: Seq<WorldView>, m: int)
    requires
        is_place_trace(plan, worlds),
        0 <= m <= plan.len(),
        plan_keys(plan).no_duplicates(),
        forall|x: Seq<char>| #[trigger] at_most_once(worlds[0], x),
        forall|i: int|
            0 <= i < plan.len() ==> present(worlds[0], (#[trigger] plan[i]).0@) || find_by_id_spec(
                worlds[0].templates,
                plan[i].0@,
            ) is Some,
        forall|i: int| 0 <= i < plan.len() ==> dest_slot(worlds[0].rooms, (#[trigger] plan[i]).1) >= 0,
    ensures
        placed_so_far(worlds[0], worlds[m], plan.take(m)),
    decreases m,
{
    let f = worlds[0];
    if m == 0 {
        assert(plan.take(0) =~= Seq::<(ObjectId, Destination)>::empty());
        assert forall|l: int| is_slot(f, l) implies #[trigger] keys_of(slot(f, l)) == keep(
            keys_of(slot(f, l)),
            not_in(plan_keys(plan.take(0))),
        ) + dest_keys(f.rooms, plan.take(0), l) by {
            lemma_keep_all(keys_of(slot(f, l)), not_in(plan_keys(plan.take(0))));
            assert(keys_of(slot(f, l)) + Seq::<Seq<char>>::empty() =~= keys_of(slot(f, l)));
        }
    } else {
        let j = m - 1;
        lemma_trace_keys(plan, worlds, j);
        let w = worlds[j];
        let w2 = worlds[m];
        let q = plan.take(j);
        let done = plan_keys(q);
        let (id, d) = plan[j];
        let x = id@;
        assert(place_post(worlds[j], worlds[j + 1], plan[j].0, plan[j].1));
        // x has not been moved yet
        assert(!done.contains(x)) by {
            if done.contains(x) {
                let i = choose|i: int| 0 <= i < done.len() && done[i] == x;
                assert(plan_keys(plan)[i] == x && plan_keys(plan)[j] == x);
            }
        }
        // x sits in w where it sat in f
        assert forall|l: int| is_slot(w, l) implies #[trigger] keys_of(slot(w, l)).contains(x) == keys_of(
            slot(f, l),
        ).contains(x) by {
            lemma_dest_keys_in_plan(f.rooms, q, l);
            lemma_keep_members(keys_of(slot(f, l)), not_in(done));
            let a = keep(keys_of(slot(f, l)), not_in(done));
            let b = dest_keys(f.rooms, q, l);
            assert(!b.contains(x));
            if (a + b).contains(x) {
                let i = choose|i: int| 0 <= i < (a + b).len() && (a + b)[i] == x;
                if i >= a.len() {
                    assert(b[i - a.len()] == x);
                }
                assert(a[i] == x);
            }
            if a.contains(x) {
                let i = choose|i: int| 0 <= i < a.len() && a[i] == x;
                assert((a + b)[i] == x);
            }
        }
        assert(at_most_once(f, x));
        assert(at_most_once(w, x)) by {
            assert forall|l: int| is_slot(w, l) implies once_in(#[trigger] keys_of(slot(w, l)), x) by {
                lemma_dest_keys_in_plan(f.rooms, q, l);
                assert(once_in(keys_of(slot(f, l)), x));
                lemma_once_keep(keys_of(slot(f, l)), not_in(done), x);
                lemma_once_concat(keep(keys_of(slot(f, l)), not_in(done)), dest_keys(f.rooms, q, l), x);
            }
        }
        assert(present(w, x) || find_by_id_spec(w.templates, x) is Some) by {
            if present(f, x) {
                let l = choose|l: int| is_slot(f, l) && #[trigger] keys_of(slot(f, l)).contains(x);
                assert(keys_of(slot(w, l)).contains(x));
            }
        }
        lemma_dest_slot_by_keys(f.rooms, w.rooms, d);
        lemma_place_keys(w, w2, id, d);
        let q2 = plan.take(m);
        assert(q2.drop_last() =~= q);
        assert(q2.last() == plan[j]);
        assert(plan_keys(q2) =~= done.push(x));
        assert forall|y: Seq<char>| #[trigger] done.push(x).contains(y) == (done.contains(y) || y == x) by {
            if done.contains(y) {
                let i = choose|i: int| 0 <= i < done.len() && done[i] == y;
                assert(done.push(x)[i] == y);
            }
            if y == x {
                assert(done.push(x)[done.len() as int] == x);
            }
            if done.push(x).contains(y) {
                let i = choose|i: int| 0 <= i < done.push(x).len() && done.push(x)[i] == y;
                if i < done.len() {
                    assert(done[i] == y);
                }
            }
        }
        assert forall|k: int| 0 <= k < f.rooms.len() implies (#[trigger] w2.rooms[k]).0 == f.rooms[k].0 by {
            assert(w2.rooms[k].0 == w.rooms[k].0);
        }
        assert forall|l: int| is_slot(f, l) implies #[trigger] keys_of(slot(w2, l)) == keep(
            keys_of(slot(f, l)),
            not_in(plan_keys(q2)),
        ) + dest_keys(f.rooms, q2, l) by {
            let a = keep(keys_of(slot(f, l)), not_in(done));
            let b = dest_keys(f.rooms, q, l);
            lemma_dest_keys_in_plan(f.rooms, q, l);
            assert(!b.contains(x));
            lemma_keep_concat(a, b, other_than(x));
            lemma_remove_absent(b, x);
            lemma_keep_keep(keys_of(slot(f, l)), not_in(done), other_than(x));
            assert(both(not_in(done), other_than(x)) =~= not_in(plan_keys(q2)));
            assert(remove_key(a, x) == keep(keys_of(slot(f, l)), not_in(plan_keys(q2))));
            assert(keys_of(slot(w2, l)) == remove_key(a + b, x) + (if l == dest_slot(w.rooms, d) {
                seq![x]
            } else {
                Seq::empty()
            }));
            if l == dest_slot(f.rooms, d) {
                assert(dest_keys(f.rooms, q2, l) == b.push(x));
                assert(remove_key(a, x) + b + seq![x] =~= remove_key(a, x) + b.push(x));
            } else {
                assert(dest_keys(f.rooms, q2, l) == b);
                assert(remove_key(a, x) + b + Seq::<Seq<char>>::empty() =~= remove_key(a, x) + b);
            }
        }
    }
}

/// Keeping by a test every element passes keeps the whole list.
proof fn lemma_keep_all(s: Seq<Seq<char>>, p: spec_fn(Seq<char>) -> bool)
    requires
        forall|i: int| 0 <= i < s.len() ==> p(#[trigger] s[i]),
    ensures
        keep(s, p) == s,
    decreases s.len(),
{
    if s.len() > 0 {
        assert forall|i: int| 0 <= i < s.drop_last().len() implies p(#[trigger] s.drop_last()[i]) by {
            assert(s.drop_last()[i] == s[i]);
        }
        lemma_keep_all(s.drop_last(), p);
        assert(p(s[s.len() - 1]));
        assert(s.drop_last().push(s.last()) =~= s);
    }
}

/// The keys of a list of ids.
pub open spec fn id_views(ids: Seq<ObjectId>) -> Seq<Seq<char>> {
    ids.map_values(|id: ObjectId| id@)
}

/// Every object key the snapshot `s` places: room by room, visible then
/// hidden, then the inventory.
pub open spec fn saved_keys(s: WorldSnapshot) -> Seq<Seq<char>> {
    plan_keys(plan_of(s))
}

/// The keys sent to a list by two runs of moves, one after the other.
proof fn lemma_dest_keys_concat(
    rooms: Seq<(RoomId, Room)>,
    a: Seq<(ObjectId, Destination)>,
    b: Seq<(ObjectId, Destination)>,
    l: int,
)
    ensures
        dest_keys(rooms, a + b, l) == dest_keys(rooms, a, l) + dest_keys(rooms, b, l),
    decreases b.len(),
{
    if b.len() == 0 {
        assert(a + b =~= a);
        assert(dest_keys(rooms, a, l) + Seq::<Seq<char>>::empty() =~= dest_keys(rooms, a, l));
    } else {
        lemma_dest_keys_concat(rooms, a, b.drop_last(), l);
        assert((a + b).drop_last() =~= a + b.drop_last());
        assert((a + b).last() == b.last());
        if dest_slot(rooms, b.last().1) == l {
            assert(dest_keys(rooms, a, l) + dest_keys(rooms, b.drop_last(), l).push(b.last().0@) =~= (dest_keys(
                rooms,
                a,
                l,
            ) + dest_keys(rooms, b.drop_last(), l)).push(b.last().0@));
        }
    }
}

/// Moves that all go to one place send all their keys to its list and none
/// to any other.
proof fn lemma_dest_keys_uniform(rooms: Seq<(RoomId, Room)>, q: Seq<(ObjectId, Destination)>, d: Destination, l: int)
    requires
        forall|i: int| 0 <= i < q.len() ==> (#[trigger] q[i]).1 == d,
    ensures
        dest_keys(rooms, q, l) == (if dest_slot(rooms, d) == l {
            plan_keys(q)
        } else {
            Seq::empty()
        }),
    decreases q.len(),
{
    if q.len() > 0 {
        let front = q.drop_last();
        assert forall|i: int| 0 <= i < front.len() implies (#[trigger] front[i]).1 == d by {
            assert(front[i] == q[i]);
        }
        lemma_dest_keys_uniform(rooms, front, d, l);
        assert(q.last() == q[q.len() - 1]);
        assert(plan_keys(q) =~= plan_keys(front).push(q.last().0@));
    }
}

/// The keys the room part of a snapshot's moves sends to each list: a
/// room's visible keys to its visible list, its hidden keys to its hidden
/// list, when every saved room sits at its own position among `rooms`.
proof fn lemma_rooms_plan_dest(
    rooms: Seq<(RoomId, Room)>,
    saved: Seq<(RoomId, crate::world::save::RoomSnapshot)>,
    t: int,
    l: int,
)
    requires
        0 <= t <= saved.len(),
        saved.len() == rooms.len(),
        forall|j: int| 0 <= j < saved.len() ==> room_index(rooms, (#[trigger] saved[j]).0@) == j,
    ensures
        dest_keys(rooms, rooms_plan(saved.take(t)), l) == (if 0 <= l < t {
            id_views(saved[l].1.visible@)
        } else if rooms.len() <= l < rooms.len() + t {
            id_views(saved[l - rooms.len()].1.hidden@)
        } else {
            Seq::empty()
        }),
    decreases t,
{
    let n = rooms.len() as int;
    if t == 0 {
        assert(saved.take(0) =~= Seq::<(RoomId, crate::world::save::RoomSnapshot)>::empty());
    } else {
        let j = t - 1;
        lemma_rooms_plan_dest(rooms, saved, j, l);
        let st = saved.take(t);
        assert(st.drop_last() =~= saved.take(j));
        assert(st.last() == saved[j]);
        let (room, r) = saved[j];
        let a = rooms_plan(saved.take(j));
        let vm = r.visible@.map_values(|id: ObjectId| (id, Destination::Visible(room)));
        let hm = r.hidden@.map_values(|id: ObjectId| (id, Destination::Hidden(room)));
        assert(rooms_plan(st) == a + vm + hm);
        lemma_dest_keys_concat(rooms, a + vm, hm, l);
        lemma_dest_keys_concat(rooms, a, vm, l);
        lemma_dest_keys_uniform(rooms, vm, Destination::Visible(room), l);
        lemma_dest_keys_uniform(rooms, hm, Destination::Hidden(room), l);
        assert(room_index(rooms, room@) == j);
        assert(plan_keys(vm) =~= id_views(r.visible@));
        assert(plan_keys(hm) =~= id_views(r.hidden@));
        let e = Seq::<Seq<char>>::empty();
        if l == j {
            assert(dest_keys(rooms, a, l) =~= e);
            assert(dest_keys(rooms, hm, l) =~= e);
            assert(e + id_views(r.visible@) + e =~= id_views(r.visible@));
        } else if l == n + j {
            assert(dest_keys(rooms, a, l) =~= e);
            assert(dest_keys(rooms, vm, l) =~= e);
            assert(e + e + id_views(r.hidden@) =~= id_views(r.hidden@));
        } else {
            let before = dest_keys(rooms, a, l);
            assert(before + e + e =~= before);
        }
    }
}

/// Relocking doors keeps every key in place.
proof fn lemma_relock_keys(objs: Seq<Object>, locked: Seq<ObjectId>)
    ensures
        keys_of(crate::world::room::relock_all(objs, locked)) == keys_of(objs),
{
    assert(keys_of(crate::world::room::relock_all(objs, locked)) =~= keys_of(objs));
}

/// Keeping by a test no element passes keeps nothing.
proof fn lemma_keep_none(s: Seq<Seq<char>>, p: spec_fn(Seq<char>) -> bool)
    requires
        forall|i: int| 0 <= i < s.len() ==> !p(#[trigger] s[i]),
    ensures
        keep(s, p) == Seq::<Seq<char>>::empty(),
    decreases s.len(),
{
    if s.len() > 0 {
        assert forall|i: int| 0 <= i < s.drop_last().len() implies !p(#[trigger] s.drop_last()[i]) by {
            assert(s.drop_last()[i] == s[i]);
        }
        lemma_keep_none(s.drop_last(), p);
        assert(!p(s[s.len() - 1]));
    }
}

/// With no room key twice, each room key is found at its own position.
proof fn lemma_room_index_at(rooms: Seq<(RoomId, Room)>, j: int)
    requires
        0 <= j < rooms.len(),
        forall|a: int, b: int| 0 <= a < b < rooms.len() ==> (#[trigger] rooms[a]).0@ != (#[trigger] rooms[b]).0@,
    ensures
        room_index(rooms, rooms[j].0@) == j,
{
    let key = rooms[j].0@;
    lemma_first_index(rooms, room_key_is(key));
    assert(room_key_is(key)(rooms[j]));
}

/// Every move of the room part of a snapshot goes to a room `rooms` has,
/// when each saved room sits at its own position among `rooms`.
proof fn lemma_rooms_plan_known(rooms: Seq<(RoomId, Room)>, saved: Seq<(RoomId, crate::world::save::RoomSnapshot)>)
    requires
        saved.len() <= rooms.len(),
        forall|j: int| 0 <= j < saved.len() ==> room_index(rooms, (#[trigger] saved[j]).0@) == j,
    ensures
        forall|i: int| 0 <= i < rooms_plan(saved).len() ==> dest_slot(rooms, (#[trigger] rooms_plan(saved)[i]).1) >= 0,
    decreases saved.len(),
{
    if saved.len() > 0 {
        let front = saved.drop_last();
        assert forall|j: int| 0 <= j < front.len() implies room_index(rooms, (#[trigger] front[j]).0@) == j by {
            assert(front[j] == saved[j]);
        }
        lemma_rooms_plan_known(rooms, front);
        let (room, r) = saved.last();
        assert(room_index(rooms, room@) == saved.len() - 1) by {
            assert(saved[saved.len() - 1] == saved.last());
        }
        let a = rooms_plan(front);
        let vm = r.visible@.map_values(|id: ObjectId| (id, Destination::Visible(room)));
        let hm = r.hidden@.map_values(|id: ObjectId| (id, Destination::Hidden(room)));
        assert(rooms_plan(saved) == a + vm + hm);
        assert forall|i: int| 0 <= i < rooms_plan(saved).len() implies dest_slot(
            rooms,
            (#[trigger] rooms_plan(saved)[i]).1,
        ) >= 0 by {
            if i < a.len() {
                assert(rooms_plan(saved)[i] == a[i]);
            } else if i < a.len() + vm.len() {
                assert(rooms_plan(saved)[i] == vm[i - a.len()]);
            } else {
                assert(rooms_plan(saved)[i] == hm[i - a.len() - vm.len()]);
            }
        }
    }
}

/// Restoring a save onto a fresh world puts every object back where the
/// save found it: each room's visible and hidden lists and the inventory
/// hold the saved object keys, in the saved order.
///
/// This holds when the fresh world has the saved world's rooms (the same
/// keys in the same order, no key twice), neither world holds an object key
/// twice, every object of the fresh world is one the save placed, and every
/// object the save placed is one the fresh world knows, held somewhere or
/// as a template.
pub proof fn law_restore_puts_objects_back(saved: WorldView, snapshot: WorldSnapshot, fresh: WorldView, post: WorldView)
    requires
        is_snapshot_of(saved, snapshot),
        restore_post(fresh, post, snapshot),
        fresh.rooms.len() == saved.rooms.len(),
        forall|k: int| 0 <= k < fresh.rooms.len() ==> (#[trigger] fresh.rooms[k]).0@ == saved.rooms[k].0@,
        forall|a: int, b: int|
            0 <= a < b < fresh.rooms.len() ==> (#[trigger] fresh.rooms[a]).0@ != (#[trigger] fresh.rooms[b]).0@,
        saved_keys(snapshot).no_duplicates(),
        forall|x: Seq<char>| #[trigger] at_most_once(fresh, x),
        forall|l: int, i: int|
            is_slot(fresh, l) && 0 <= i < keys_of(slot(fresh, l)).len() ==> saved_keys(snapshot).contains(
                #[trigger] keys_of(slot(fresh, l))[i],
            ),
        forall|i: int|
            0 <= i < saved_keys(snapshot).len() ==> present(fresh, #[trigger] saved_keys(snapshot)[i])
                || find_by_id_spec(fresh.templates, saved_keys(snapshot)[i]) is Some,
    ensures
        post.rooms.len() == saved.rooms.len(),
        forall|k: int|
            0 <= k < saved.rooms.len() ==> {
                &&& keys_of((#[trigger] post.rooms[k]).1.visible()) == keys_of(saved.rooms[k].1.visible())
                &&& keys_of(post.rooms[k].1.hidden()) == keys_of(saved.rooms[k].1.hidden())
            },
        keys_of(post.inventory) == keys_of(saved.inventory),
{
    let (worlds, relocked) = choose|worlds: Seq<WorldView>, relocked: WorldView|
        #![trigger is_place_trace(plan_of(snapshot), worlds), relocked_world(worlds.last(), relocked, snapshot.locked_doors@)]
        is_place_trace(plan_of(snapshot), worlds) && worlds[0] == (WorldView {
            flags: snapshot.flags@,
            fired: snapshot.fired_triggers@,
            dialogue: snapshot.dialogue_state@,
            active_npc: snapshot.active_npc,
            ..fresh
        }) && relocked_world(worlds.last(), relocked, snapshot.locked_doors@) && post == (WorldView {
            current: if room_index(relocked.rooms, snapshot.current_room@) >= 0 {
                room_index(relocked.rooms, snapshot.current_room@)
            } else {
                relocked.current
            },
            ..relocked
        });
    let plan = plan_of(snapshot);
    let f = worlds[0];
    let n = fresh.rooms.len() as int;
    let srooms = snapshot.rooms@;
    assert forall|l: int| is_slot(f, l) implies #[trigger] slot(f, l) == slot(fresh, l) by {}
    assert forall|x: Seq<char>| #[trigger] at_most_once(f, x) by {
        assert(at_most_once(fresh, x));
    }
    // each saved room sits at its own position in the fresh world
    assert forall|j: int| 0 <= j < srooms.len() implies room_index(fresh.rooms, (#[trigger] srooms[j]).0@) == j by {
        assert(srooms[j].0 == saved.rooms[j].0);
        lemma_room_index_at(fresh.rooms, j);
    }
    lemma_rooms_plan_known(fresh.rooms, srooms);
    let rp = rooms_plan(srooms);
    let im = snapshot.inventory@.map_values(|id: ObjectId| (id, Destination::Carried));
    assert(plan == rp + im);
    assert forall|i: int| 0 <= i < plan.len() implies dest_slot(f.rooms, (#[trigger] plan[i]).1) >= 0 by {
        if i < rp.len() {
            assert(plan[i] == rp[i]);
        } else {
            assert(plan[i] == im[i - rp.len()]);
        }
    }
    assert forall|i: int| 0 <= i < plan.len() implies present(f, (#[trigger] plan[i]).0@) || find_by_id_spec(
        f.templates,
        plan[i].0@,
    ) is Some by {
        assert(saved_keys(snapshot)[i] == plan[i].0@);
        if present(fresh, plan[i].0@) {
            let l = choose|l: int| is_slot(fresh, l) && #[trigger] keys_of(slot(fresh, l)).contains(plan[i].0@);
            assert(slot(f, l) == slot(fresh, l));
        }
    }
    lemma_trace_keys(plan, worlds, plan.len() as int);
    assert(plan.take(plan.len() as int) =~= plan);
    let last = worlds[plan.len() as int];
    assert(worlds.last() == last);
    assert forall|l: int| is_slot(f, l) implies #[trigger] keys_of(slot(last, l)) == dest_keys(f.rooms, plan, l) by {
        let ks = keys_of(slot(f, l));
        assert forall|i: int| 0 <= i < ks.len() implies !not_in(plan_keys(plan))(#[trigger] ks[i]) by {
            assert(slot(f, l) == slot(fresh, l));
            assert(saved_keys(snapshot).contains(keys_of(slot(fresh, l))[i]));
        }
        lemma_keep_none(ks, not_in(plan_keys(plan)));
        assert(Seq::<Seq<char>>::empty() + dest_keys(f.rooms, plan, l) =~= dest_keys(f.rooms, plan, l));
    }
    assert(srooms.take(srooms.len() as int) =~= srooms);
    assert forall|l: int| is_slot(f, l) implies #[trigger] dest_keys(f.rooms, plan, l) == (if 0 <= l < n {
        id_views(srooms[l].1.visible@)
    } else if n <= l < 2 * n {
        id_views(srooms[l - n].1.hidden@)
    } else {
        id_views(snapshot.inventory@)
    }) by {
        lemma_dest_keys_concat(f.rooms, rp, im, l);
        lemma_rooms_plan_dest(f.rooms, srooms, srooms.len() as int, l);
        lemma_dest_keys_uniform(f.rooms, im, Destination::Carried, l);
        assert(plan_keys(im) =~= id_views(snapshot.inventory@));
        let e = Seq::<Seq<char>>::empty();
        if l < 2 * n {
            let d = dest_keys(f.rooms, rp, l);
            assert(d + e =~= d);
        } else {
            assert(e + id_views(snapshot.inventory@) =~= id_views(snapshot.inventory@));
        }
    }
    assert forall|k: int| 0 <= k < saved.rooms.len() implies {
        &&& keys_of((#[trigger] post.rooms[k]).1.visible()) == keys_of(saved.rooms[k].1.visible())
        &&& keys_of(post.rooms[k].1.hidden()) == keys_of(saved.rooms[k].1.hidden())
    } by {
        assert(keys_of(slot(last, k)) == id_views(srooms[k].1.visible@));
        assert(keys_of(slot(last, n + k)) == id_views(srooms[k].1.hidden@));
        assert(slot(last, k) == last.rooms[k].1.visible());
        assert(slot(last, n + k) == last.rooms[k].1.hidden());
        lemma_relock_keys(last.rooms[k].1.visible(), snapshot.locked_doors@);
        lemma_relock_keys(last.rooms[k].1.hidden(), snapshot.locked_doors@);
        assert(id_views(srooms[k].1.visible@) =~= keys_of(saved.rooms[k].1.visible()));
        assert(id_views(srooms[k].1.hidden@) =~= keys_of(saved.rooms[k].1.hidden()));
    }
    assert(keys_of(slot(last, 2 * n)) == id_views(snapshot.inventory@));
    assert(id_views(snapshot.inventory@) =~= keys_of(saved.inventory));
}

/// Whether some room of `rooms` holds, visible or hidden, a locked door
/// with key `x`.
pub open spec fn has_locked_door(rooms: Seq<(RoomId, Room)>, x: Seq<char>) -> bool {
    exists|k: int, i: int|
        0 <= k < rooms.len() && 0 <= i < room_objects(rooms[k].1).len() && #[trigger] is_locked_door_keyed(
            room_objects(rooms[k].1)[i],
            x,
        )
}

/// The objects of a room, visible ones first.
pub open spec fn room_objects(room: Room) -> Seq<Object> {
    room.visible() + room.hidden()
}

/// `o` is a locked door with key `x`.
pub open spec fn is_locked_door_keyed(o: Object, x: Seq<char>) -> bool {
    crate::world::save::is_locked_door()(o) && o.id@ == x
}

/// The locked-door list of a save names a key exactly when some room held
/// a locked door with it.
proof fn lemma_locked_in_lists(rooms: Seq<(RoomId, Room)>, x: Seq<char>)
    ensures
        crate::world::room::id_listed(crate::world::save::locked_in(rooms), x) == has_locked_door(rooms, x),
    decreases rooms.len(),
{
    if rooms.len() > 0 {
        let front = rooms.drop_last();
        lemma_locked_in_lists(front, x);
        let objs = room_objects(rooms.last().1);
        let p = crate::world::save::is_locked_door();
        let kept = keep(objs, p);
        let a = crate::world::save::locked_in(front);
        let b = crate::world::save::ids_of(kept);
        assert(crate::world::save::locked_in(rooms) == a + b);
        lemma_keep_members(objs, p);
        let last_k = rooms.len() - 1;
        assert(rooms[last_k] == rooms.last());
        if crate::world::room::id_listed(a + b, x) {
            let j = choose|j: int| 0 <= j < (a + b).len() && (#[trigger] (a + b)[j])@ == x;
            if j < a.len() {
                assert(a[j] == (a + b)[j]);
                assert(crate::world::room::id_listed(a, x));
                let (k, i) = choose|k: int, i: int|
                    0 <= k < front.len() && 0 <= i < room_objects(front[k].1).len() && #[trigger] is_locked_door_keyed(
                        room_objects(front[k].1)[i],
                        x,
                    );
                assert(front[k] == rooms[k]);
                assert(is_locked_door_keyed(room_objects(rooms[k].1)[i], x));
            } else {
                assert(b[j - a.len()] == (a + b)[j]);
                let o = kept[j - a.len()];
                assert(kept.contains(o));
                let i = choose|i: int| 0 <= i < objs.len() && objs[i] == o;
                assert(is_locked_door_keyed(room_objects(rooms[last_k].1)[i], x));
            }
        }
        if has_locked_door(rooms, x) {
            let (k, i) = choose|k: int, i: int|
                0 <= k < rooms.len() && 0 <= i < room_objects(rooms[k].1).len() && #[trigger] is_locked_door_keyed(
                    room_objects(rooms[k].1)[i],
                    x,
                );
            if k < last_k {
                assert(front[k] == rooms[k]);
                assert(is_locked_door_keyed(room_objects(front[k].1)[i], x));
                assert(has_locked_door(front, x));
                let j = choose|j: int| 0 <= j < a.len() && (#[trigger] a[j])@ == x;
                assert((a + b)[j] == a[j]);
            } else {
                let o = objs[i];
                assert(objs.contains(o));
                assert(kept.contains(o));
                let j = choose|j: int| 0 <= j < kept.len() && kept[j] == o;
                assert(b[j]@ == x);
                assert((a + b)[a.len() + j] == b[j]);
            }
        }
    }
}

/// `o`, if a door, is locked exactly when `rooms` held a locked door with
/// its key.
pub open spec fn lock_agrees(o: Object, rooms: Seq<(RoomId, Room)>) -> bool {
    o.door matches Some(ds) ==> ds.locked == has_locked_door(rooms, o.id@)
}

/// After a restore, every door is locked exactly when the saved world held
/// a locked door with its key.
pub proof fn law_restore_relocks_doors(saved: WorldView, snapshot: WorldSnapshot, fresh: WorldView, post: WorldView)
    requires
        is_snapshot_of(saved, snapshot),
        restore_post(fresh, post, snapshot),
    ensures
        forall|k: int, i: int|
            0 <= k < post.rooms.len() && 0 <= i < room_objects(post.rooms[k].1).len() ==> lock_agrees(
                #[trigger] room_objects(post.rooms[k].1)[i],
                saved.rooms,
            ),
{
    let (worlds, relocked) = choose|worlds: Seq<WorldView>, relocked: WorldView|
        #![trigger is_place_trace(plan_of(snapshot), worlds), relocked_world(worlds.last(), relocked, snapshot.locked_doors@)]
        is_place_trace(plan_of(snapshot), worlds) && worlds[0] == (WorldView {
            flags: snapshot.flags@,
            fired: snapshot.fired_triggers@,
            dialogue: snapshot.dialogue_state@,
            active_npc: snapshot.active_npc,
            ..fresh
        }) && relocked_world(worlds.last(), relocked, snapshot.locked_doors@) && post == (WorldView {
            current: if room_index(relocked.rooms, snapshot.current_room@) >= 0 {
                room_index(relocked.rooms, snapshot.current_room@)
            } else {
                relocked.current
            },
            ..relocked
        });
    let locked = snapshot.locked_doors@;
    let last = worlds.last();
    assert forall|k: int, i: int|
        0 <= k < post.rooms.len() && 0 <= i < room_objects(post.rooms[k].1).len() implies lock_agrees(
            #[trigger] room_objects(post.rooms[k].1)[i],
            saved.rooms,
        ) by {
        let room = post.rooms[k].1;
        let old_room = last.rooms[k].1;
        let o = room_objects(room)[i];
        let vis = old_room.visible();
        let src = if i < vis.len() {
            assert(o == room.visible()[i]);
            vis[i]
        } else {
            assert(o == room.hidden()[i - vis.len()]);
            old_room.hidden()[i - vis.len()]
        };
        assert(o == crate::world::room::relocked_by(src, locked));
        lemma_locked_in_lists(saved.rooms, o.id@);
    }
}

/// Saving a game and restoring the save onto a fresh world built from the
/// same data gives back the game: its flags, fired triggers, dialogue
/// progress, active NPC and current room; every room's visible and hidden
/// objects and the inventory, by key and in order; and every door locked
/// exactly when the saved world held it locked.
///
/// The progress and the door locks come back with no further condition
/// ([`crate::world::save::law_restore_brings_back_progress`],
/// [`law_restore_relocks_doors`]). The object lists come back when the
/// fresh world has the saved world's rooms (the same keys in the same
/// order, no key twice, as every world built from data has), neither world
/// holds an object key twice, every object of the fresh world is one the
/// save placed, and every object the save placed is one the fresh world
/// knows. Without them restoring does not give the lists back: an object
/// discarded before the save is named by no list of the save and keeps the
/// place the data gives it; and with a key held twice (a coin placed in two
/// rooms, one copy carried at the save) restoring moves whichever copy it
/// meets first.
pub proof fn law_save_then_restore(saved: WorldView, snapshot: WorldSnapshot, fresh: WorldView, post: WorldView)
    requires
        saved.wf(),
        is_snapshot_of(saved, snapshot),
        restore_post(fresh, post, snapshot),
        fresh.rooms.len() == saved.rooms.len(),
        forall|k: int| 0 <= k < fresh.rooms.len() ==> (#[trigger] fresh.rooms[k]).0@ == saved.rooms[k].0@,
        forall|a: int, b: int|
            0 <= a < b < fresh.rooms.len() ==> (#[trigger] fresh.rooms[a]).0@ != (#[trigger] fresh.rooms[b]).0@,
        saved_keys(snapshot).no_duplicates(),
        forall|x: Seq<char>| #[trigger] at_most_once(fresh, x),
        forall|l: int, i: int|
            is_slot(fresh, l) && 0 <= i < keys_of(slot(fresh, l)).len() ==> saved_keys(snapshot).contains(
                #[trigger] keys_of(slot(fresh, l))[i],
            ),
        forall|i: int|
            0 <= i < saved_keys(snapshot).len() ==> present(fresh, #[trigger] saved_keys(snapshot)[i])
                || find_by_id_spec(fresh.templates, saved_keys(snapshot)[i]) is Some,
    ensures
        post.flags == saved.flags,
        post.fired == saved.fired,
        post.dialogue == saved.dialogue,
        post.active_npc == saved.active_npc,
        post.cur_room_id()@ == saved.cur_room_id()@,
        post.rooms.len() == saved.rooms.len(),
        forall|k: int|
            0 <= k < saved.rooms.len() ==> {
                &&& keys_of((#[trigger] post.rooms[k]).1.visible()) == keys_of(saved.rooms[k].1.visible())
                &&& keys_of(post.rooms[k].1.hidden()) == keys_of(saved.rooms[k].1.hidden())
            },
        keys_of(post.inventory) == keys_of(saved.inventory),
        forall|k: int, i: int|
            0 <= k < post.rooms.len() && 0 <= i < room_objects(post.rooms[k].1).len() ==> lock_agrees(
                #[trigger] room_objects(post.rooms[k].1)[i],
                saved.rooms,
            ),
{
    crate::world::save::law_restore_brings_back_progress(saved, snapshot, fresh, post);
    law_restore_puts_objects_back(saved, snapshot, fresh, post);
    law_restore_relocks_doors(saved, snapshot, fresh, post);
    let cur = saved.current;
    assert(fresh.rooms[cur].0@ == saved.rooms[cur].0@);
    lemma_room_index_at(fresh.rooms, cur);
}

} // verus!
