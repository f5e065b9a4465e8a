//! Symbolic string identifiers for authored world content.
//!
//! Every id shares one shape: a newtype over the key string, compared and
//! viewed by its characters.
use vstd::prelude::*;

verus! {

/// Identifier for a world object. All interactables share one id space.
///
/// The id is the object's stable symbolic `key` from the authored world data
/// (e.g. `iron-key`).
#[derive(Debug, Hash)]
pub struct ObjectId(String);

impl View for ObjectId {
    type V = Seq<char>;

    closed spec fn view(&self) -> Seq<char> {
        self.0@
    }
}

impl ObjectId {
    /// Build the id from its key.
    pub fn new(value: &str) -> (id: Self)
        ensures
            id@ == value@,
    {
        ObjectId(String::from_str(value))
    }

    /// The key as a string slice.
    pub fn get(&self) -> (key: &str)
        ensures
            key@ == self@,
    {
        self.0.as_str()
    }

    /// Consume the id, returning the key.
    pub fn into_key(self) -> (key: String)
        ensures
            key@ == self@,
    {
        self.0
    }

    /// The key as an owned string, for display.
    pub fn to_string(&self) -> (key: String)
        ensures
            key@ == self@,
    {
        self.0.clone()
    }
}

impl Clone for ObjectId {
    fn clone(&self) -> (id: Self)
        ensures
            id == *self,
    {
        ObjectId(self.0.clone())
    }
}

impl PartialEq for ObjectId {
    fn eq(&self, other: &Self) -> (same: bool) {
        self.0 == other.0
    }
}

impl Eq for ObjectId {}

impl vstd::std_specs::cmp::PartialEqSpecImpl for ObjectId {
    open spec fn obeys_eq_spec() -> bool {
        true
    }

    open spec fn eq_spec(&self, other: &ObjectId) -> bool {
        self@ == other@
    }
}

impl From<String> for ObjectId {
    fn from(value: String) -> (id: Self)
        ensures
            id@ == value@,
    {
        ObjectId(value)
    }
}

impl vstd::std_specs::convert::FromSpecImpl<String> for ObjectId {
    open spec fn obeys_from_spec() -> bool {
        true
    }

    closed spec fn from_spec(v: String) -> ObjectId {
        ObjectId(v)
    }
}

impl From<ObjectId> for String {
    fn from(id: ObjectId) -> (key: String)
        ensures
            key@ == id@,
    {
        id.0
    }
}

impl vstd::std_specs::convert::FromSpecImpl<ObjectId> for String {
    open spec fn obeys_from_spec() -> bool {
        true
    }

    closed spec fn from_spec(v: ObjectId) -> String {
        v.0
    }
}

/// Identifier for a room: its stable symbolic `key` from the world data.
#[derive(Debug, Hash)]
pub struct RoomId(String);

impl View for RoomId {
    type V = Seq<char>;

    closed spec fn view(&self) -> Seq<char> {
        self.0@
    }
}

impl RoomId {
    /// Build the id from its key.
    pub fn new(value: &str) -> (id: Self)
        ensures
            id@ == value@,
    {
        RoomId(String::from_str(value))
    }

    /// The key as a string slice.
    pub fn get(&self) -> (key: &str)
        ensures
            key@ == self@,
    {
        self.0.as_str()
    }

    /// Consume the id, returning the key.
    pub fn into_key(self) -> (key: String)
        ensures
            key@ == self@,
    {
        self.0
    }

    /// The key as an owned string, for display.
    pub fn to_string(&self) -> (key: String)
        ensures
            key@ == self@,
    {
        self.0.clone()
    }
}

impl Clone for RoomId {
    fn clone(&self) -> (id: Self)
        ensures
            id == *self,
    {
        RoomId(self.0.clone())
    }
}

impl PartialEq for RoomId {
    fn eq(&self, other: &Self) -> (same: bool) {
        self.0 == other.0
    }
}

impl Eq for RoomId {}

impl vstd::std_specs::cmp::PartialEqSpecImpl for RoomId {
    open spec fn obeys_eq_spec() -> bool {
        true
    }

    open spec fn eq_spec(&self, other: &RoomId) -> bool {
        self@ == other@
    }
}

impl From<String> for RoomId {
    fn from(value: String) -> (id: Self)
        ensures
            id@ == value@,
    {
        RoomId(value)
    }
}

impl vstd::std_specs::convert::FromSpecImpl<String> for RoomId {
    open spec fn obeys_from_spec() -> bool {
        true
    }

    closed spec fn from_spec(v: String) -> RoomId {
        RoomId(v)
    }
}

impl From<RoomId> for String {
    fn from(id: RoomId) -> (key: String)
        ensures
            key@ == id@,
    {
        id.0
    }
}

impl vstd::std_specs::convert::FromSpecImpl<RoomId> for String {
    open spec fn obeys_from_spec() -> bool {
        true
    }

    closed spec fn from_spec(v: RoomId) -> String {
        v.0
    }
}

/// Identifier for an NPC: its stable symbolic `key` from the world data.
#[derive(Debug, Hash)]
pub struct NpcId(String);

impl View for NpcId {
    type V = Seq<char>;

    closed spec fn view(&self) -> Seq<char> {
        self.0@
    }
}

impl NpcId {
    /// Build the id from its key.
    pub fn new(value: &str) -> (id: Self)
        ensures
            id@ == value@,
    {
        NpcId(String::from_str(value))
    }

    /// The key as a string slice.
    pub fn get(&self) -> (key: &str)
        ensures
            key@ == self@,
    {
        self.0.as_str()
    }

    /// Consume the id, returning the key.
    pub fn into_key(self) -> (key: String)
        ensures
            key@ == self@,
    {
        self.0
    }

    /// The key as an owned string, for display.
    pub fn to_string(&self) -> (key: String)
        ensures
            key@ == self@,
    {
        self.0.clone()
    }
}

impl Clone for NpcId {
    fn clone(&self) -> (id: Self)
        ensures
            id == *self,
    {
        NpcId(self.0.clone())
    }
}

impl PartialEq for NpcId {
    fn eq(&self, other: &Self) -> (same: bool) {
        self.0 == other.0
    }
}

impl Eq for NpcId {}

impl vstd::std_specs::cmp::PartialEqSpecImpl for NpcId {
    open spec fn obeys_eq_spec() -> bool {
        true
    }

    open spec fn eq_spec(&self, other: &NpcId) -> bool {
        self@ == other@
    }
}

impl From<String> for NpcId {
    fn from(value: String) -> (id: Self)
        ensures
            id@ == value@,
    {
        NpcId(value)
    }
}

impl vstd::std_specs::convert::FromSpecImpl<String> for NpcId {
    open spec fn obeys_from_spec() -> bool {
        true
    }

    closed spec fn from_spec(v: String) -> NpcId {
        NpcId(v)
    }
}

impl From<NpcId> for String {
    fn from(id: NpcId) -> (key: String)
        ensures
            key@ == id@,
    {
        id.0
    }
}

impl vstd::std_specs::convert::FromSpecImpl<NpcId> for String {
    open spec fn obeys_from_spec() -> bool {
        true
    }

    closed spec fn from_spec(v: NpcId) -> String {
        v.0
    }
}

/// Identifier for a node of an NPC's dialogue graph.
#[derive(Debug, Hash)]
pub struct DialogueNodeId(String);

impl View for DialogueNodeId {
    type V = Seq<char>;

    closed spec fn view(&self) -> Seq<char> {
        self.0@
    }
}

impl DialogueNodeId {
    /// Build the id from its key.
    pub fn new(value: &str) -> (id: Self)
        ensures
            id@ == value@,
    {
        DialogueNodeId(String::from_str(value))
    }

    /// The key as a string slice.
    pub fn get(&self) -> (key: &str)
        ensures
            key@ == self@,
    {
        self.0.as_str()
    }

    /// Consume the id, returning the key.
    pub fn into_key(self) -> (key: String)
        ensures
            key@ == self@,
    {
        self.0
    }

    /// The key as an owned string, for display.
    pub fn to_string(&self) -> (key: String)
        ensures
            key@ == self@,
    {
        self.0.clone()
    }
}

impl Clone for DialogueNodeId {
    fn clone(&self) -> (id: Self)
        ensures
            id == *self,
    {
        DialogueNodeId(self.0.clone())
    }
}

impl PartialEq for DialogueNodeId {
    fn eq(&self, other: &Self) -> (same: bool) {
        self.0 == other.0
    }
}

impl Eq for DialogueNodeId {}

impl vstd::std_specs::cmp::PartialEqSpecImpl for DialogueNodeId {
    open spec fn obeys_eq_spec() -> bool {
        true
    }

    open spec fn eq_spec(&self, other: &DialogueNodeId) -> bool {
        self@ == other@
    }
}

impl From<String> for DialogueNodeId {
    fn from(value: String) -> (id: Self)
        ensures
            id@ == value@,
    {
        DialogueNodeId(value)
    }
}

impl vstd::std_specs::convert::FromSpecImpl<String> for DialogueNodeId {
    open spec fn obeys_from_spec() -> bool {
        true
    }

    closed spec fn from_spec(v: String) -> DialogueNodeId {
        DialogueNodeId(v)
    }
}

impl From<DialogueNodeId> for String {
    fn from(id: DialogueNodeId) -> (key: String)
        ensures
            key@ == id@,
    {
        id.0
    }
}

impl vstd::std_specs::convert::FromSpecImpl<DialogueNodeId> for String {
    open spec fn obeys_from_spec() -> bool {
        true
    }

    closed spec fn from_spec(v: DialogueNodeId) -> String {
        v.0
    }
}

/// Stable authored identifier of a dialogue choice.
#[derive(Debug, Hash)]
pub struct DialogueOptionId(String);

impl View for DialogueOptionId {
    type V = Seq<char>;

    closed spec fn view(&self) -> Seq<char> {
        self.0@
    }
}

impl DialogueOptionId {
    /// Build the id from its key.
    pub fn new(value: &str) -> (id: Self)
        ensures
            id@ == value@,
    {
        DialogueOptionId(String::from_str(value))
    }

    /// The key as a string slice.
    pub fn get(&self) -> (key: &str)
        ensures
            key@ == self@,
    {
        self.0.as_str()
    }

    /// Consume the id, returning the key.
    pub fn into_key(self) -> (key: String)
        ensures
            key@ == self@,
    {
        self.0
    }

    /// The key as an owned string, for display.
    pub fn to_string(&self) -> (key: String)
        ensures
            key@ == self@,
    {
        self.0.clone()
    }
}

impl Clone for DialogueOptionId {
    fn clone(&self) -> (id: Self)
        ensures
            id == *self,
    {
        DialogueOptionId(self.0.clone())
    }
}

impl PartialEq for DialogueOptionId {
    fn eq(&self, other: &Self) -> (same: bool) {
        self.0 == other.0
    }
}

impl Eq for DialogueOptionId {}

impl vstd::std_specs::cmp::PartialEqSpecImpl for DialogueOptionId {
    open spec fn obeys_eq_spec() -> bool {
        true
    }

    open spec fn eq_spec(&self, other: &DialogueOptionId) -> bool {
        self@ == other@
    }
}

impl From<String> for DialogueOptionId {
    fn from(value: String) -> (id: Self)
        ensures
            id@ == value@,
    {
        DialogueOptionId(value)
    }
}

impl vstd::std_specs::convert::FromSpecImpl<String> for DialogueOptionId {
    open spec fn obeys_from_spec() -> bool {
        true
    }

    closed spec fn from_spec(v: String) -> DialogueOptionId {
        DialogueOptionId(v)
    }
}

impl From<DialogueOptionId> for String {
    fn from(id: DialogueOptionId) -> (key: String)
        ensures
            key@ == id@,
    {
        id.0
    }
}

impl vstd::std_specs::convert::FromSpecImpl<DialogueOptionId> for String {
    open spec fn obeys_from_spec() -> bool {
        true
    }

    closed spec fn from_spec(v: DialogueOptionId) -> String {
        v.0
    }
}

/// Identifier for an authored world trigger.
#[derive(Debug, Hash)]
pub struct TriggerId(String);

impl View for TriggerId {
    type V = Seq<char>;

    closed spec fn view(&self) -> Seq<char> {
        self.0@
    }
}

impl TriggerId {
    /// Build the id from its key.
    pub fn new(value: &str) -> (id: Self)
        ensures
            id@ == value@,
    {
        TriggerId(String::from_str(value))
    }

    /// The key as a string slice.
    pub fn get(&self) -> (key: &str)
        ensures
            key@ == self@,
    {
        self.0.as_str()
    }

    /// Consume the id, returning the key.
    pub fn into_key(self) -> (key: String)
        ensures
            key@ == self@,
    {
        self.0
    }

    /// The key as an owned string, for display.
    pub fn to_string(&self) -> (key: String)
        ensures
            key@ == self@,
    {
        self.0.clone()
    }
}

impl Clone for TriggerId {
    fn clone(&self) -> (id: Self)
        ensures
            id == *self,
    {
        TriggerId(self.0.clone())
    }
}

impl PartialEq for TriggerId {
    fn eq(&self, other: &Self) -> (same: bool) {
        self.0 == other.0
    }
}

impl Eq for TriggerId {}

impl vstd::std_specs::cmp::PartialEqSpecImpl for TriggerId {
    open spec fn obeys_eq_spec() -> bool {
        true
    }

    open spec fn eq_spec(&self, other: &TriggerId) -> bool {
        self@ == other@
    }
}

impl From<String> for TriggerId {
    fn from(value: String) -> (id: Self)
        ensures
            id@ == value@,
    {
        TriggerId(value)
    }
}

impl vstd::std_specs::convert::FromSpecImpl<String> for TriggerId {
    open spec fn obeys_from_spec() -> bool {
        true
    }

    closed spec fn from_spec(v: String) -> TriggerId {
        TriggerId(v)
    }
}

impl From<TriggerId> for String {
    fn from(id: TriggerId) -> (key: String)
        ensures
            key@ == id@,
    {
        id.0
    }
}

impl vstd::std_specs::convert::FromSpecImpl<TriggerId> for String {
    open spec fn obeys_from_spec() -> bool {
        true
    }

    closed spec fn from_spec(v: TriggerId) -> String {
        v.0
    }
}

} // verus!

verus! {

/// Outcome of resolving a player-typed noun against a set of named things.
///
/// Shared by every "resolve this name" lookup in the engine (world objects
/// and use-with targets alike), so the three cases (found, matched more than
/// one name, matched none) are defined once.
#[derive(Debug, PartialEq, Eq)]
pub enum Resolution<T> {
    Found(T),
    Ambiguous { ids: Vec<T>, alias: String },
    NotFound,
}

} // verus!
