//! Numbered items with a primary name and `;`-separated aliases, and the
//! lookup of an item by any of its names.
use vstd::prelude::*;

use crate::text::{keep, seq_join, str_eq, string_views};

verus! {

/// Numeric identifier of an item.
#[derive(Debug, Clone, Copy, PartialEq, Eq, Hash, Default, Structural)]
pub struct ItemId(pub i32);

impl ItemId {
    /// The id with number `value`.
    pub fn new(value: i32) -> (id: Self)
        ensures
            id.0 == value,
    {
        ItemId(value)
    }

    /// The id's number.
    pub fn get(self) -> (value: i32)
        ensures
            value == self.0,
    {
        self.0
    }
}

impl From<i32> for ItemId {
    fn from(value: i32) -> (id: Self)
        ensures
            id.0 == value,
    {
        ItemId::new(value)
    }
}

impl vstd::std_specs::convert::FromSpecImpl<i32> for ItemId {
    open spec fn obeys_from_spec() -> bool {
        true
    }

    open spec fn from_spec(v: i32) -> ItemId {
        ItemId(v)
    }
}

impl From<ItemId> for i32 {
    fn from(id: ItemId) -> (value: i32)
        ensures
            value == id.0,
    {
        id.get()
    }
}

impl vstd::std_specs::convert::FromSpecImpl<ItemId> for i32 {
    open spec fn obeys_from_spec() -> bool {
        true
    }

    open spec fn from_spec(v: ItemId) -> i32 {
        v.0
    }
}

/// The outcome of looking an item up by name.
#[derive(Debug, PartialEq, Eq)]
pub enum ItemResolution {
    Found(ItemId),
    Ambiguous { ids: Vec<ItemId>, alias: String },
    NotFound,
}

/// An item as authored: its number, primary name and aliases.
#[derive(Debug, Clone)]
pub struct ItemData {
    pub id: i32,
    pub primary_name: String,
    pub aliases: Vec<String>,
}

/// An item in the world. Its aliases are kept as one string, separated by
/// `;`.
#[derive(Debug, Clone)]
pub struct Item {
    pub(crate) id: ItemId,
    pub(crate) primary_name: String,
    pub(crate) aliases: String,
}

/// The separator between aliases.
pub open spec fn alias_sep() -> char {
    ';'
}

/// The pieces of `s` between separators, as `str::split(';')` yields them:
/// always at least one piece, empty pieces included.
pub open spec fn split_aliases(s: Seq<char>) -> Seq<Seq<char>>
    decreases s.len(),
{
    if s.len() == 0 {
        seq![seq![]]
    } else {
        let pieces = split_aliases(s.drop_last());
        if s.last() == alias_sep() {
            pieces.push(seq![])
        } else {
            pieces.update(pieces.len() - 1, pieces.last().push(s.last()))
        }
    }
}

/// `split_aliases` never yields an empty list.
pub proof fn lemma_split_nonempty(s: Seq<char>)
    ensures
        split_aliases(s).len() >= 1,
    decreases s.len(),
{
    if s.len() > 0 {
        lemma_split_nonempty(s.drop_last());
    }
}

/// Whether `name` is the primary name or one of the aliases.
pub open spec fn has_name_spec(primary: Seq<char>, aliases: Seq<char>, name: Seq<char>) -> bool {
    primary == name || split_aliases(aliases).contains(name)
}

/// The non-empty aliases, in order.
pub open spec fn alias_list(aliases: Seq<char>) -> Seq<Seq<char>> {
    keep(split_aliases(aliases), |a: Seq<char>| a.len() > 0)
}

impl Item {
    /// The item's id.
    pub closed spec fn id_spec(&self) -> ItemId {
        self.id
    }

    /// The characters of the primary name.
    pub closed spec fn primary_spec(&self) -> Seq<char> {
        self.primary_name@
    }

    /// The characters of the alias string.
    pub closed spec fn aliases_spec(&self) -> Seq<char> {
        self.aliases@
    }

    /// Whether the item answers to `name`.
    pub open spec fn answers_to(&self, name: Seq<char>) -> bool {
        has_name_spec(self.primary_spec(), self.aliases_spec(), name)
    }

    /// Whether `name` is the primary name or one of the aliases.
    pub fn has_name(&self, name: &str) -> (found: bool)
        ensures
            found == self.answers_to(name@),
    {
        if str_eq(self.primary_name.as_str(), name) {
            return true;
        }
        let pieces = split_on_sep(self.aliases.as_str());
        let mut i: usize = 0;
        while i < pieces.len()
            invariant
                i <= pieces@.len(),
                pieces@.map_values(|p: &str| p@) == split_aliases(self.aliases@),
                forall|k: int| 0 <= k < i ==> (#[trigger] pieces@[k])@ != name@,
            decreases pieces@.len() - i,
        {
            if str_eq(pieces[i], name) {
                proof {
                    assert(pieces@.map_values(|p: &str| p@)[i as int] == name@);
                }
                return true;
            }
            i = i + 1;
        }
        proof {
            let views = pieces@.map_values(|p: &str| p@);
            if views.contains(name@) {
                let k = choose|k: int| 0 <= k < views.len() && views[k] == name@;
                assert(pieces@[k]@ == name@);
            }
        }
        false
    }

    /// The items of `items` answering to `name`: none, exactly one, or
    /// several (reported with every matching id, in order).
    pub fn resolve_item_by_name(items: &[Item], name: &str) -> (r: ItemResolution)
        ensures
            resolves_as(r, matching_ids(items@, name@), name@),
    {
        let mut ids: Vec<ItemId> = Vec::new();
        let mut i: usize = 0;
        while i < items.len()
            invariant
                i <= items@.len(),
                ids@ == matching_ids(items@.take(i as int), name@),
            decreases items@.len() - i,
        {
            let ghost before = keep(items@.take(i as int), |it: Item| it.answers_to(name@));
            assert(items@.take(i + 1).drop_last() =~= items@.take(i as int));
            assert(items@.take(i + 1).last() == items@[i as int]);
            if items[i].has_name(name) {
                ids.push(items[i].id);
                assert(before.push(items@[i as int]).map_values(|it: Item| it.id_spec()) =~= before.map_values(
                    |it: Item| it.id_spec(),
                ).push(items@[i as int].id_spec()));
            }
            i = i + 1;
        }
        assert(items@.take(items@.len() as int) =~= items@);
        if ids.len() == 0 {
            ItemResolution::NotFound
        } else if ids.len() == 1 {
            ItemResolution::Found(ids[0])
        } else {
            ItemResolution::Ambiguous { ids, alias: name.to_string() }
        }
    }

    /// The item described by `item`, its aliases joined with `;`.
    pub fn from_data(item: &ItemData) -> (r: Item)
        ensures
            r.id_spec() == ItemId(item.id),
            r.primary_spec() == item.primary_name@,
            r.aliases_spec() == seq_join(string_views(item.aliases@), seq![alias_sep()]),
    {
        Item { id: ItemId::new(item.id), primary_name: item.primary_name.clone(), aliases: join_aliases(&item.aliases) }
    }
}

/// The ids of the items answering to `name`, in order.
pub open spec fn matching_ids(items: Seq<Item>, name: Seq<char>) -> Seq<ItemId> {
    keep(items, |it: Item| it.answers_to(name)).map_values(|it: Item| it.id_spec())
}

/// `r` reports the matching `ids` for `name`: not found when there are
/// none, found when there is exactly one, and ambiguous, with every id and
/// the name asked for, when there are several.
pub open spec fn resolves_as(r: ItemResolution, ids: Seq<ItemId>, name: Seq<char>) -> bool {
    match r {
        ItemResolution::NotFound => ids.len() == 0,
        ItemResolution::Found(id) => ids.len() == 1 && id == ids[0],
        ItemResolution::Ambiguous { ids: found, alias } => ids.len() >= 2 && found@ == ids && alias@ == name,
    }
}

/// The pieces of `s` between `;` separators, in order.
fn split_on_sep(s: &str) -> (pieces: Vec<&str>)
    ensures
        pieces@.map_values(|p: &str| p@) == split_aliases(s@),
{
    let n = s.unicode_len();
    let mut pieces: Vec<&str> = Vec::new();
    let mut start: usize = 0;
    let mut i: usize = 0;
    assert(s@.take(0) =~= Seq::<char>::empty());
    assert(pieces@.map_values(|p: &str| p@).push(s@.subrange(0, 0)) =~= seq![Seq::<char>::empty()]);
    while i < n
        invariant
            n == s@.len(),
            start <= i <= n,
            pieces@.map_values(|p: &str| p@).push(s@.subrange(start as int, i as int)) == split_aliases(
                s@.take(i as int),
            ),
        decreases n - i,
    {
        let c = s.get_char(i);
        let ghost before = pieces@.map_values(|p: &str| p@);
        assert(s@.take(i + 1).drop_last() =~= s@.take(i as int));
        assert(s@.take(i + 1).last() == c);
        if c == ';' {
            let piece = s.substring_char(start, i);
            pieces.push(piece);
            assert(pieces@.map_values(|p: &str| p@) =~= before.push(piece@));
            assert(s@.subrange(i + 1, i + 1) =~= Seq::<char>::empty());
            start = i + 1;
        } else {
            assert(s@.subrange(start as int, i as int).push(c) =~= s@.subrange(start as int, i + 1));
            assert(before.push(s@.subrange(start as int, i as int)).update(
                before.len() as int,
                s@.subrange(start as int, i as int).push(c),
            ) =~= before.push(s@.subrange(start as int, i + 1)));
        }
        i = i + 1;
    }
    let ghost before = pieces@.map_values(|p: &str| p@);
    let last = s.substring_char(start, n);
    pieces.push(last);
    assert(pieces@.map_values(|p: &str| p@) =~= before.push(last@));
    assert(s@.take(n as int) =~= s@);
    pieces
}

/// `aliases` joined with `;`.
fn join_aliases(aliases: &Vec<String>) -> (joined: String)
    ensures
        joined@ == seq_join(string_views(aliases@), seq![alias_sep()]),
{
    let mut joined = String::new();
    let ghost views = string_views(aliases@);
    let mut i: usize = 0;
    while i < aliases.len()
        invariant
            views == string_views(aliases@),
            i <= aliases@.len(),
            joined@ == seq_join(views.take(i as int), seq![alias_sep()]),
        decreases aliases@.len() - i,
    {
        if i > 0 {
            joined.append(";");
            proof {
                reveal_strlit(";");
            }
        }
        joined.append(aliases[i].as_str());
        proof {
            assert(views.take(i + 1).drop_last() =~= views.take(i as int));
            assert(views.take(i + 1).last() == aliases@[i as int]@);
            if i == 0 {
                assert(views.take(1).len() == 1);
            }
        }
        i = i + 1;
    }
    assert(views.take(aliases@.len() as int) =~= views);
    joined
}

/// A plain view of an item for game rules: its id, primary name and
/// non-empty aliases.
#[derive(Debug, Clone)]
pub struct ItemInfo {
    pub id: ItemId,
    pub name: String,
    pub aliases: Vec<String>,
}

impl ItemInfo {
    /// The view of `item`, its alias string split at `;` with empty pieces
    /// dropped.
    pub fn from_item(item: &Item) -> (info: ItemInfo)
        ensures
            info.id == item.id_spec(),
            info.name@ == item.primary_spec(),
            string_views(info.aliases@) == alias_list(item.aliases_spec()),
    {
        let pieces = split_on_sep(item.aliases.as_str());
        let ghost views = pieces@.map_values(|p: &str| p@);
        let mut aliases: Vec<String> = Vec::new();
        let mut i: usize = 0;
        while i < pieces.len()
            invariant
                i <= pieces@.len(),
                views == pieces@.map_values(|p: &str| p@),
                string_views(aliases@) == keep(views.take(i as int), |a: Seq<char>| a.len() > 0),
            decreases pieces@.len() - i,
        {
            let ghost before = string_views(aliases@);
            assert(views.take(i + 1).drop_last() =~= views.take(i as int));
            assert(views.take(i + 1).last() == pieces@[i as int]@);
            if pieces[i].unicode_len() > 0 {
                aliases.push(pieces[i].to_string());
                assert(string_views(aliases@) =~= before.push(pieces@[i as int]@));
            }
            i = i + 1;
        }
        assert(views.take(views.len() as int) =~= views);
        ItemInfo { id: item.id, name: item.primary_name.clone(), aliases }
    }
}

/// Splitting a piece free of separators gives back that piece alone.
proof fn lemma_split_plain(piece: Seq<char>)
    requires
        !piece.contains(alias_sep()),
    ensures
        split_aliases(piece) == seq![piece],
    decreases piece.len(),
{
    if piece.len() > 0 {
        assert(piece.drop_last().len() < piece.len());
        assert forall|c: char| piece.drop_last().contains(c) implies piece.contains(c) by {
            let j = choose|j: int| 0 <= j < piece.drop_last().len() && piece.drop_last()[j] == c;
            assert(piece[j] == c);
        }
        lemma_split_plain(piece.drop_last());
        assert(piece.last() != alias_sep()) by {
            assert(piece[piece.len() - 1] == piece.last());
        }
        assert(piece.drop_last().push(piece.last()) =~= piece);
        assert(seq![piece.drop_last()].update(0, piece.drop_last().push(piece.last())) =~= seq![piece]);
    } else {
        assert(piece =~= Seq::<char>::empty());
    }
}

/// Splitting `front`, a separator and a piece free of separators gives the
/// pieces of `front` followed by that piece.
proof fn lemma_split_append(front: Seq<char>, piece: Seq<char>)
    requires
        !piece.contains(alias_sep()),
    ensures
        split_aliases(front + seq![alias_sep()] + piece) == split_aliases(front).push(piece),
    decreases piece.len(),
{
    let s = front + seq![alias_sep()] + piece;
    if piece.len() == 0 {
        assert(s.drop_last() =~= front);
        assert(piece =~= Seq::<char>::empty());
    } else {
        let shorter = piece.drop_last();
        assert forall|c: char| shorter.contains(c) implies piece.contains(c) by {
            let j = choose|j: int| 0 <= j < shorter.len() && shorter[j] == c;
            assert(piece[j] == c);
        }
        lemma_split_append(front, shorter);
        assert(s.drop_last() =~= front + seq![alias_sep()] + shorter);
        assert(s.last() == piece.last());
        assert(piece.last() != alias_sep()) by {
            assert(piece[piece.len() - 1] == piece.last());
        }
        assert(shorter.push(piece.last()) =~= piece);
        assert(split_aliases(front).push(shorter).update(
            split_aliases(front).len() as int,
            shorter.push(piece.last()),
        ) =~= split_aliases(front).push(piece));
    }
}

/// Splitting what `seq_join` made of separator-free pieces gives back the
/// pieces.
proof fn lemma_split_join(parts: Seq<Seq<char>>)
    requires
        parts.len() >= 1,
        forall|k: int| 0 <= k < parts.len() ==> !(#[trigger] parts[k]).contains(alias_sep()),
    ensures
        split_aliases(seq_join(parts, seq![alias_sep()])) == parts,
    decreases parts.len(),
{
    if parts.len() == 1 {
        lemma_split_plain(parts[0]);
        assert(seq![parts[0]] =~= parts);
    } else {
        let front = parts.drop_last();
        assert forall|k: int| 0 <= k < front.len() implies !(#[trigger] front[k]).contains(alias_sep()) by {
            assert(front[k] == parts[k]);
        }
        lemma_split_join(front);
        assert(!parts[parts.len() - 1].contains(alias_sep()));
        lemma_split_append(seq_join(front, seq![alias_sep()]), parts.last());
        assert(front.push(parts.last()) =~= parts);
    }
}

/// An item made from authored data answers to its primary name and to each
/// of its aliases, provided no alias holds the `;` separator.
pub proof fn law_item_answers_to_its_names(data: ItemData, item: Item)
    requires
        item.primary_spec() == data.primary_name@,
        item.aliases_spec() == seq_join(string_views(data.aliases@), seq![alias_sep()]),
        forall|k: int| 0 <= k < data.aliases@.len() ==> !(#[trigger] data.aliases@[k])@.contains(alias_sep()),
    ensures
        item.answers_to(data.primary_name@),
        forall|k: int| 0 <= k < data.aliases@.len() ==> item.answers_to((#[trigger] data.aliases@[k])@),
{
    let parts = string_views(data.aliases@);
    if parts.len() >= 1 {
        assert forall|k: int| 0 <= k < parts.len() implies !(#[trigger] parts[k]).contains(alias_sep()) by {
            assert(parts[k] == data.aliases@[k]@);
        }
        lemma_split_join(parts);
        assert forall|k: int| 0 <= k < data.aliases@.len() implies item.answers_to(
            (#[trigger] data.aliases@[k])@,
        ) by {
            assert(parts[k] == data.aliases@[k]@);
        }
    }
}

} // verus!
