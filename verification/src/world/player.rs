use vstd::prelude::*;

use crate::keys::{ObjectId, Resolution};
use crate::world::object::{
    contains_id, find_by_id_spec, lemma_index_of_id, matching_ids, position_of, remove_by_id,
    resolves_to, without_id, Object, ObjectResolution,
};

verus! {

/// The player's inventory.
#[derive(Debug)]
pub struct Player {
    objects: Vec<Object>,
}

impl Player {
    /// The carried objects, in the order they were picked up.
    pub closed spec fn inventory(&self) -> Seq<Object> {
        self.objects@
    }

    /// An empty inventory.
    pub fn new() -> (player: Self)
        ensures
            player.inventory() == Seq::<Object>::empty(),
    {
        Player { objects: Vec::new() }
    }

    /// The carried objects.
    pub fn objects(&self) -> (objects: &Vec<Object>)
        ensures
            objects@ == self.inventory(),
    {
        &self.objects
    }

    /// Find a carried object by id.
    pub fn get_object(&self, id: &ObjectId) -> (r: ObjectResolution)
        ensures
            match find_by_id_spec(self.inventory(), id@) {
                Some(o) => r == Resolution::Found(o.id),
                None => r is NotFound,
            },
    {
        match self.find_by_id(id) {
            Some(object) => Resolution::Found(object.id.clone()),
            None => Resolution::NotFound,
        }
    }

    /// The carried object with `id`, if any.
    pub fn find_by_id(&self, id: &ObjectId) -> (found: Option<&Object>)
        ensures
            match find_by_id_spec(self.inventory(), id@) {
                Some(o) => found == Some(&o),
                None => found is None,
            },
    {
        proof {
            lemma_index_of_id(self.objects@, id@);
        }
        match position_of(&self.objects, id) {
            Some(k) => Some(&self.objects[k]),
            None => None,
        }
    }

    /// Resolve `name` against the carried objects.
    pub fn find_object(&self, name: &str) -> (r: ObjectResolution)
        ensures
            resolves_to(matching_ids(self.inventory(), name@), name@, r),
    {
        Object::resolve_by_name(self.objects.as_slice(), name)
    }

    /// Whether the player carries the object with `id`.
    pub fn holds(&self, id: &ObjectId) -> (b: bool)
        ensures
            b == contains_id(self.inventory(), id@),
    {
        proof {
            lemma_index_of_id(self.objects@, id@);
        }
        position_of(&self.objects, id).is_some()
    }

    /// Add an object to the inventory.
    pub fn add_object(&mut self, object: Object)
        ensures
            final(self).inventory() == old(self).inventory().push(object),
    {
        self.objects.push(object);
    }

    /// Take the carried object with `id` out of the inventory.
    pub fn remove_object(&mut self, id: &ObjectId) -> (removed: Option<Object>)
        ensures
            removed == find_by_id_spec(old(self).inventory(), id@),
            removed is None ==> *final(self) == *old(self),
            final(self).inventory() == without_id(old(self).inventory(), id@),
    {
        remove_by_id(&mut self.objects, id)
    }
}

impl Default for Player {
    fn default() -> (player: Self)
        ensures
            player.inventory() == Seq::<Object>::empty(),
    {
        Player::new()
    }
}

} // verus!
