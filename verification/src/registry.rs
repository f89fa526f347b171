//! The command registry: the tokens that a user can type, each with its
//! command, in the order in which they were entered.

use crate::command::Command;
use indexmap::IndexMap;
use vstd::prelude::*;

verus! {

#[verifier::external_type_specification]
#[verifier::external_body]
#[verifier::reject_recursive_types(K)]
#[verifier::reject_recursive_types(V)]
#[verifier::reject_recursive_types(S)]
pub struct ExIndexMap<K, V, S>(IndexMap<K, V, S>);

/// A token with its command.
pub type Entry = (Seq<char>, Command);

/// The entries that a map holds, in its iteration order.
pub uninterp spec fn index_map_entries(m: IndexMap<&'static str, Command>) -> Seq<Entry>;

/// The first position in `entries` that holds `token`, or the length of
/// `entries` if none does.
pub open spec fn index_of(entries: Seq<Entry>, token: Seq<char>) -> int
    decreases entries.len(),
{
    if entries.len() == 0 {
        0
    } else if entries[0].0 == token {
        0
    } else {
        1 + index_of(entries.drop_first(), token)
    }
}

/// The command entered under `token`, if there is one.
pub open spec fn lookup(entries: Seq<Entry>, token: Seq<char>) -> Option<Command> {
    if index_of(entries, token) < entries.len() {
        Some(entries[index_of(entries, token)].1)
    } else {
        None
    }
}

/// `entries` after `command` was entered under `token`: a token that is
/// already there keeps its place and gets the new command, a new token goes
/// to the end.
pub open spec fn inserted(entries: Seq<Entry>, token: Seq<char>, command: Command) -> Seq<Entry> {
    if index_of(entries, token) < entries.len() {
        entries.update(index_of(entries, token), (entries[index_of(entries, token)].0, command))
    } else {
        entries.push((token, command))
    }
}

/// No token occurs twice.
pub open spec fn distinct_tokens(entries: Seq<Entry>) -> bool {
    forall|i: int, j: int| 0 <= i < j < entries.len() ==> entries[i].0 != entries[j].0
}

/// What results from entering `pairs` one after the other, starting with
/// nothing.
pub open spec fn built(pairs: Seq<Entry>) -> Seq<Entry>
    decreases pairs.len(),
{
    if pairs.len() == 0 {
        Seq::empty()
    } else {
        inserted(built(pairs.drop_last()), pairs.last().0, pairs.last().1)
    }
}

/// `IndexMap::new`: the new map holds nothing.
#[verifier::external_body]
fn map_new() -> (m: IndexMap<&'static str, Command>)
    ensures
        index_map_entries(m) == Seq::<Entry>::empty(),
{
    IndexMap::new()
}

/// `IndexMap::insert`. A key that the map already holds keeps its place
/// and gets the new value, and the old value is returned; a new key goes
/// last with its value, and nothing is returned.
#[verifier::external_body]
fn map_insert(m: &mut IndexMap<&'static str, Command>, token: &'static str, command: Command) -> (r:
    Option<Command>)
    ensures
        index_map_entries(*final(m)) == inserted(index_map_entries(*old(m)), token@, command),
        r == lookup(index_map_entries(*old(m)), token@),
{
    m.insert(token, command)
}

/// `IndexMap::get`: the value stored under the key, if the map holds it.
#[verifier::external_body]
fn map_get(m: &IndexMap<&'static str, Command>, token: &str) -> (r: Option<Command>)
    ensures
        r == lookup(index_map_entries(*m), token@),
{
    m.get(token).copied()
}

/// `IndexMap::len`: the number of entries.
#[verifier::external_body]
fn map_len(m: &IndexMap<&'static str, Command>) -> (n: usize)
    ensures
        n == index_map_entries(*m).len(),
{
    m.len()
}

/// `IndexMap::get_index`: the entry at position `index` of the iteration
/// order, for an index below the length, else nothing.
#[verifier::external_body]
fn map_get_index(m: &IndexMap<&'static str, Command>, index: usize) -> (r: Option<
    (&'static str, Command),
>)
    ensures
        match r {
            Some(entry) => index < index_map_entries(*m).len() && (entry.0@, entry.1)
                == index_map_entries(*m)[index as int],
            None => index >= index_map_entries(*m).len(),
        },
{
    m.get_index(index).map(|(token, command)| (*token, *command))
}

/// Where `index_of` points: at the first entry with the token, if any.
pub proof fn lemma_index_of(entries: Seq<Entry>, token: Seq<char>)
    ensures
        0 <= index_of(entries, token) <= entries.len(),
        index_of(entries, token) < entries.len() ==> entries[index_of(entries, token)].0 == token,
        forall|j: int| 0 <= j < index_of(entries, token) ==> entries[j].0 != token,
    decreases entries.len(),
{
    if entries.len() > 0 && entries[0].0 != token {
        let rest = entries.drop_first();
        lemma_index_of(rest, token);
        assert forall|j: int| 0 <= j < index_of(entries, token) implies entries[j].0 != token by {
            if j > 0 {
                assert(rest[j - 1] == entries[j]);
            }
        }
    }
}

/// A token that no entry holds is looked up in vain, and entering it adds
/// an entry at the end.
pub proof fn lemma_absent(entries: Seq<Entry>, token: Seq<char>, command: Command)
    requires
        forall|j: int| 0 <= j < entries.len() ==> entries[j].0 != token,
    ensures
        lookup(entries, token) is None,
        inserted(entries, token, command) == entries.push((token, command)),
{
    lemma_index_of(entries, token);
}

/// Entering a command keeps the tokens distinct.
pub proof fn lemma_inserted_distinct(entries: Seq<Entry>, token: Seq<char>, command: Command)
    requires
        distinct_tokens(entries),
    ensures
        distinct_tokens(inserted(entries, token, command)),
{
    lemma_index_of(entries, token);
}

/// Whatever is entered, in whatever order, no token occurs twice in the
/// result.
pub proof fn lemma_built_distinct(pairs: Seq<Entry>)
    ensures
        distinct_tokens(built(pairs)),
    decreases pairs.len(),
{
    if pairs.len() > 0 {
        lemma_built_distinct(pairs.drop_last());
        lemma_inserted_distinct(built(pairs.drop_last()), pairs.last().0, pairs.last().1);
    }
}

/// Entries with distinct tokens come out in the order in which they were
/// entered: the iteration order is the insertion order.
pub proof fn lemma_insertion_order(pairs: Seq<Entry>)
    requires
        distinct_tokens(pairs),
    ensures
        built(pairs) == pairs,
    decreases pairs.len(),
{
    if pairs.len() > 0 {
        let front = pairs.drop_last();
        lemma_insertion_order(front);
        lemma_absent(front, pairs.last().0, pairs.last().1);
        assert(front.push(pairs.last()) =~= pairs);
    }
}

/// The registry of commands: tokens with their commands, in insertion
/// order, no token twice.
pub struct Registry {
    map: IndexMap<&'static str, Command>,
}

impl View for Registry {
    type V = Seq<Entry>;

    closed spec fn view(&self) -> Seq<Entry> {
        index_map_entries(self.map)
    }
}

impl Registry {
    /// No token occurs twice. Every registry that this module hands out is
    /// well formed, and entering a command keeps it so.
    pub open spec fn wf(&self) -> bool {
        distinct_tokens(self@)
    }

    /// A registry without entries.
    pub fn new() -> (r: Registry)
        ensures
            r@ == Seq::<Entry>::empty(),
            r.wf(),
    {
        let map = map_new();
        Registry { map }
    }

    /// Enters `command` under `token`. A token that is already there keeps
    /// its place and gets the new command; the command it had is returned.
    pub fn insert(&mut self, token: &'static str, command: Command) -> (r: Option<Command>)
        ensures
            final(self)@ == inserted(old(self)@, token@, command),
            r == lookup(old(self)@, token@),
            old(self).wf() ==> final(self).wf(),
    {
        proof {
            if self.wf() {
                lemma_inserted_distinct(self@, token@, command);
            }
        }
        map_insert(&mut self.map, token, command)
    }

    /// The command entered under exactly `token`, if there is one.
    pub fn get(&self, token: &str) -> (r: Option<Command>)
        ensures
            r == lookup(self@, token@),
    {
        map_get(&self.map, token)
    }

    /// The number of entries.
    pub fn len(&self) -> (n: usize)
        ensures
            n == self@.len(),
    {
        map_len(&self.map)
    }

    /// The entry at position `index` of the insertion order.
    pub fn entry(&self, index: usize) -> (r: Option<(&'static str, Command)>)
        ensures
            match r {
                Some(entry) => index < self@.len() && (entry.0@, entry.1) == self@[index as int],
                None => index >= self@.len(),
            },
    {
        map_get_index(&self.map, index)
    }
}

} // verus!
