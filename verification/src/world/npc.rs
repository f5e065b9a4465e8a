use vstd::prelude::*;

use crate::data::interactions_data::{clone_effects, DataEffect};
use crate::data::npc_data::{DialogueChoiceData, DialogueNodeData, NpcData};
use crate::keys::{DialogueNodeId, DialogueOptionId, NpcId, RoomId};
use crate::text::{
    clone_strings, contains_str, eq_ignore_ascii_case, eq_ignore_ascii_case_spec, parse_usize,
    parse_usize_spec, str_eq, strings_contain,
};

verus! {

/// A dialogue graph: dialogue nodes by id. Inserting a node under an id that
/// is already present replaces it.
#[derive(Debug)]
pub struct DialogueGraph {
    entries: Vec<(DialogueNodeId, DialogueNode)>,
}

/// The node stored under `id` in `entries`: the last entry with that id.
pub open spec fn lookup_node(entries: Seq<(DialogueNodeId, DialogueNode)>, id: Seq<char>) -> Option<
    DialogueNode,
>
    decreases entries.len(),
{
    if entries.len() == 0 {
        None
    } else if entries.last().0@ == id {
        Some(entries.last().1)
    } else {
        lookup_node(entries.drop_last(), id)
    }
}

impl DialogueGraph {
    /// The stored entries, oldest first.
    pub closed spec fn entries(&self) -> Seq<(DialogueNodeId, DialogueNode)> {
        self.entries@
    }

    /// The node with `id`, if the graph has one.
    pub open spec fn node(&self, id: Seq<char>) -> Option<DialogueNode> {
        lookup_node(self.entries(), id)
    }

    /// An empty graph.
    pub fn new() -> (graph: Self)
        ensures
            graph.entries() == Seq::<(DialogueNodeId, DialogueNode)>::empty(),
    {
        DialogueGraph { entries: Vec::new() }
    }

    /// Store `node` under `id`, replacing any node already stored there.
    pub fn insert(&mut self, id: DialogueNodeId, node: DialogueNode)
        ensures
            final(self).entries() == old(self).entries().push((id, node)),
    {
        self.entries.push((id, node));
    }

    /// The node stored under `id`, if any.
    pub fn get(&self, id: &DialogueNodeId) -> (node: Option<&DialogueNode>)
        ensures
            match self.node(id@) {
                Some(n) => node == Some(&n),
                None => node is None,
            },
    {
        let mut i = self.entries.len();
        assert(self.entries@.take(i as int) =~= self.entries@);
        while i > 0
            invariant
                i <= self.entries@.len(),
                lookup_node(self.entries@, id@) == lookup_node(self.entries@.take(i as int), id@),
            decreases i,
        {
            let entry = &self.entries[i - 1];
            assert(self.entries@.take(i as int).drop_last() =~= self.entries@.take(i - 1));
            assert(self.entries@.take(i as int).last() == self.entries@[i - 1]);
            if entry.0 == *id {
                return Some(&entry.1);
            }
            i = i - 1;
        }
        None
    }
}

/// A live NPC in the world.
#[derive(Debug)]
pub struct Npc {
    pub id: NpcId,
    pub primary_name: String,
    pub aliases: Vec<String>,
    pub room: RoomId,
    /// The node a fresh conversation with this NPC starts at.
    pub root: DialogueNodeId,
    pub dialogue: DialogueGraph,
}

/// Whether `name` is the NPC's primary name or one of its aliases.
pub open spec fn npc_has_name(npc: Npc, name: Seq<char>) -> bool {
    npc.primary_name@ == name || contains_str(npc.aliases@, name)
}

impl Npc {
    /// The NPC's unique id.
    pub fn id(&self) -> (id: &NpcId)
        ensures
            *id == self.id,
    {
        &self.id
    }

    /// The NPC's display name.
    pub fn primary_name(&self) -> (name: &str)
        ensures
            name@ == self.primary_name@,
    {
        self.primary_name.as_str()
    }

    /// The NPC's alternative names.
    pub fn aliases(&self) -> (aliases: &[String])
        ensures
            aliases@ == self.aliases@,
    {
        self.aliases.as_slice()
    }

    /// The room this NPC lives in.
    pub fn room_id(&self) -> (room: &RoomId)
        ensures
            *room == self.room,
    {
        &self.room
    }

    /// The node a fresh conversation with this NPC starts at.
    pub fn root(&self) -> (root: &DialogueNodeId)
        ensures
            *root == self.root,
    {
        &self.root
    }

    /// The NPC's dialogue graph.
    pub fn dialogue(&self) -> (graph: &DialogueGraph)
        ensures
            *graph == self.dialogue,
    {
        &self.dialogue
    }

    /// The dialogue node with `id`, if it exists in this NPC's graph.
    pub fn dialogue_node(&self, id: &DialogueNodeId) -> (node: Option<&DialogueNode>)
        ensures
            match self.dialogue.node(id@) {
                Some(n) => node == Some(&n),
                None => node is None,
            },
    {
        self.dialogue.get(id)
    }

    /// Whether `name` matches this NPC's primary name or any alias.
    pub fn has_name(&self, name: &str) -> (b: bool)
        ensures
            b == npc_has_name(*self, name@),
    {
        str_eq(self.primary_name.as_str(), name) || strings_contain(&self.aliases, name)
    }

    /// Build a live [`Npc`] from authored [`NpcData`]: the same identity and
    /// room, with every authored node converted, in authored order.
    pub fn from_data(data: &NpcData) -> (npc: Self)
        ensures
            npc_from_data_spec(*data, npc),
    {
        let mut graph = DialogueGraph::new();
        let nodes = &data.dialogue.nodes;
        let mut i: usize = 0;
        while i < nodes.len()
            invariant
                i <= nodes@.len(),
                graph.entries().len() == i,
                forall|k: int|
                    0 <= k < i ==> {
                        &&& (#[trigger] graph.entries()[k]).0 == nodes@[k].0
                        &&& node_from_data_spec(nodes@[k].1, graph.entries()[k].1)
                    },
            decreases nodes@.len() - i,
        {
            let entry = &nodes[i];
            graph.insert(entry.0.clone(), DialogueNode::from_data(&entry.1));
            i = i + 1;
        }
        Npc {
            id: data.id.clone(),
            primary_name: data.primary_name.clone(),
            aliases: clone_strings(&data.aliases),
            room: data.room.clone(),
            root: data.dialogue.root.clone(),
            dialogue: graph,
        }
    }
}

/// `npc` is the live NPC built from `data`.
pub open spec fn npc_from_data_spec(data: NpcData, npc: Npc) -> bool {
    &&& npc.id == data.id
    &&& npc.primary_name == data.primary_name
    &&& npc.aliases@ == data.aliases@
    &&& npc.room == data.room
    &&& npc.root == data.dialogue.root
    &&& npc.dialogue.entries().len() == data.dialogue.nodes@.len()
    &&& forall|i: int|
        0 <= i < data.dialogue.nodes@.len() ==> {
            &&& (#[trigger] npc.dialogue.entries()[i]).0 == data.dialogue.nodes@[i].0
            &&& node_from_data_spec(data.dialogue.nodes@[i].1, npc.dialogue.entries()[i].1)
        }
}

/// A single node in a dialogue graph: the NPC's line and the player's
/// choices.
#[derive(Debug)]
pub struct DialogueNode {
    pub text: String,
    pub choices: Vec<DialogueChoice>,
}

/// The position of the first choice whose label equals `input` ignoring
/// ASCII case, or -1.
pub open spec fn label_match(choices: Seq<DialogueChoice>, input: Seq<char>) -> int
    decreases choices.len(),
{
    if choices.len() == 0 {
        -1
    } else {
        let k = label_match(choices.drop_last(), input);
        if k >= 0 {
            k
        } else if eq_ignore_ascii_case_spec(choices.last().label@, input) {
            choices.len() - 1
        } else {
            -1
        }
    }
}

/// The choice a player's `choose` input picks among `choices`: a 1-based
/// index when the input parses as one that is in range, and otherwise the
/// first choice whose label matches ignoring ASCII case.
pub open spec fn choice_index(choices: Seq<DialogueChoice>, input: Seq<char>) -> int {
    match parse_usize_spec(input) {
        Some(n) if 1 <= n && n - 1 < choices.len() => n - 1,
        _ => label_match(choices, input),
    }
}

proof fn lemma_label_match(choices: Seq<DialogueChoice>, input: Seq<char>)
    ensures
        -1 <= label_match(choices, input) < choices.len(),
    decreases choices.len(),
{
    if choices.len() > 0 {
        lemma_label_match(choices.drop_last(), input);
    }
}

proof fn lemma_label_match_prefix(choices: Seq<DialogueChoice>, input: Seq<char>, n: int)
    requires
        0 <= n <= choices.len(),
        label_match(choices.take(n), input) >= 0,
    ensures
        label_match(choices, input) == label_match(choices.take(n), input),
    decreases choices.len() - n,
{
    if n < choices.len() {
        assert(choices.take(n + 1).drop_last() =~= choices.take(n));
        lemma_label_match_prefix(choices, input, n + 1);
    } else {
        assert(choices.take(n) =~= choices);
    }
}

/// `node` is the live node built from `data`.
pub open spec fn node_from_data_spec(data: DialogueNodeData, node: DialogueNode) -> bool {
    &&& node.text == data.text
    &&& node.choices@.len() == data.choices@.len()
    &&& forall|i: int|
        0 <= i < data.choices@.len() ==> choice_from_data_spec(
            data.choices@[i],
            #[trigger] node.choices@[i],
        )
}

impl DialogueNode {
    /// The NPC's spoken text.
    pub fn text(&self) -> (text: &str)
        ensures
            text@ == self.text@,
    {
        self.text.as_str()
    }

    /// The player's available choices at this node.
    pub fn choices(&self) -> (choices: &[DialogueChoice])
        ensures
            choices@ == self.choices@,
    {
        self.choices.as_slice()
    }

    /// Resolve a player's `choose` input to a choice: a 1-based index, or a
    /// case-insensitive match on the choice label.
    pub fn find_choice(&self, input: &str) -> (choice: Option<&DialogueChoice>)
        ensures
            ({
                let k = choice_index(self.choices@, input@);
                if k >= 0 {
                    choice == Some(&self.choices@[k])
                } else {
                    choice is None
                }
            }),
    {
        proof {
            lemma_label_match(self.choices@, input@);
        }
        match parse_usize(input) {
            Some(index) => {
                if index >= 1 && index - 1 < self.choices.len() {
                    return Some(&self.choices[index - 1]);
                }
            },
            None => {},
        }
        let mut i: usize = 0;
        assert(choice_index(self.choices@, input@) == label_match(self.choices@, input@));
        while i < self.choices.len()
            invariant
                i <= self.choices@.len(),
                choice_index(self.choices@, input@) == label_match(self.choices@, input@),
                label_match(self.choices@.take(i as int), input@) == -1,
            decreases self.choices@.len() - i,
        {
            assert(self.choices@.take(i + 1).drop_last() =~= self.choices@.take(i as int));
            if eq_ignore_ascii_case(self.choices[i].label.as_str(), input) {
                proof {
                    lemma_label_match_prefix(self.choices@, input@, i + 1);
                }
                return Some(&self.choices[i]);
            }
            i = i + 1;
        }
        assert(self.choices@.take(self.choices@.len() as int) =~= self.choices@);
        None
    }

    /// Build a live node from authored [`DialogueNodeData`], converting every
    /// choice.
    pub fn from_data(data: &DialogueNodeData) -> (node: Self)
        ensures
            node_from_data_spec(*data, node),
    {
        let mut choices: Vec<DialogueChoice> = Vec::new();
        let mut i: usize = 0;
        while i < data.choices.len()
            invariant
                i <= data.choices@.len(),
                choices@.len() == i,
                forall|k: int|
                    0 <= k < i ==> choice_from_data_spec(data.choices@[k], #[trigger] choices@[k]),
            decreases data.choices@.len() - i,
        {
            choices.push(DialogueChoice::from_data(&data.choices[i]));
            i = i + 1;
        }
        DialogueNode { text: data.text.clone(), choices }
    }
}

/// A player choice within a dialogue node.
#[derive(Debug)]
pub struct DialogueChoice {
    /// Stable authored id for this choice, if the author declared one.
    pub option_id: Option<DialogueOptionId>,
    pub label: String,
    /// The next node id; `None` ends the conversation.
    pub next: Option<DialogueNodeId>,
    pub effect: Vec<DataEffect>,
}

/// `choice` is the live choice built from `data`: the `.end` marker becomes
/// "no next node".
pub open spec fn choice_from_data_spec(data: DialogueChoiceData, choice: DialogueChoice) -> bool {
    &&& choice.option_id == data.option_id
    &&& choice.label == data.label
    &&& if data.next@ == ".end"@ {
        choice.next is None
    } else {
        choice.next == Some(data.next)
    }
    &&& choice.effect@ == data.effect@
}

impl DialogueChoice {
    /// The stable authored id of this choice, if declared.
    pub fn option_id(&self) -> (id: Option<&DialogueOptionId>)
        ensures
            match self.option_id {
                Some(x) => id == Some(&x),
                None => id is None,
            },
    {
        match &self.option_id {
            Some(id) => Some(id),
            None => None,
        }
    }

    /// The display label for this choice.
    pub fn label(&self) -> (label: &str)
        ensures
            label@ == self.label@,
    {
        self.label.as_str()
    }

    /// The next node id, or `None` to terminate the conversation.
    pub fn next(&self) -> (next: Option<&DialogueNodeId>)
        ensures
            match self.next {
                Some(x) => next == Some(&x),
                None => next is None,
            },
    {
        match &self.next {
            Some(id) => Some(id),
            None => None,
        }
    }

    /// Effects applied when this choice is selected.
    pub fn effect(&self) -> (effect: &[DataEffect])
        ensures
            effect@ == self.effect@,
    {
        self.effect.as_slice()
    }

    /// Build a live choice from authored [`DialogueChoiceData`].
    pub fn from_data(data: &DialogueChoiceData) -> (choice: Self)
        ensures
            choice_from_data_spec(*data, choice),
    {
        let next = if str_eq(data.next.get(), ".end") {
            None
        } else {
            Some(data.next.clone())
        };
        DialogueChoice {
            option_id: match &data.option_id {
                Some(id) => Some(id.clone()),
                None => None,
            },
            label: data.label.clone(),
            next,
            effect: clone_effects(&data.effect),
        }
    }
}

} // verus!
