//! Positions kept under numbers, in a hash map of bevy's utilities.

use vstd::prelude::*;
use bevy::utils::HashMap;
use crate::game::Position;

verus! {

/// Positions kept under numbers. The hash map that holds them is one of
/// bevy's utilities, and the verifier does not look into it: what it holds
/// is known as `table_entries`.
#[verifier::external_body]
pub struct PositionTable {
    entries: HashMap<usize, Position>,
}

/// What a table holds: the position kept under each number.
pub uninterp spec fn table_entries(table: PositionTable) -> Map<usize, Position>;

/// The table that holds nothing.
pub open spec fn no_entries() -> Map<usize, Position> {
    Map::empty()
}

/// The position kept under `number`, if there is one.
pub open spec fn lookup(entries: Map<usize, Position>, number: usize) -> Option<Position> {
    if entries.dom().contains(number) {
        Some(entries[number])
    } else {
        None
    }
}

/// `hashbrown::HashMap::new`, as bevy's utilities export it: the new map is
/// empty.
#[verifier::external_body]
pub(crate) fn table_new() -> (made: PositionTable)
    ensures
        table_entries(made) == no_entries(),
{
    PositionTable { entries: HashMap::new() }
}

/// `hashbrown::HashMap::insert`: afterwards the key leads to the new value
/// and every other key to what it led to before; the value that the key led
/// to before is returned, if there was one.
#[verifier::external_body]
pub(crate) fn table_insert(table: &mut PositionTable, number: usize, position: Position) -> (previous: Option<
    Position,
>)
    ensures
        table_entries(*final(table)) == table_entries(*old(table)).insert(number, position),
        previous == lookup(table_entries(*old(table)), number),
{
    table.entries.insert(number, position)
}

/// `hashbrown::HashMap::get`: the value that the key leads to, if the map
/// holds the key.
#[verifier::external_body]
pub(crate) fn table_get(table: &PositionTable, number: usize) -> (found: Option<Position>)
    ensures
        found == lookup(table_entries(*table), number),
{
    table.entries.get(&number).copied()
}

/// `hashbrown::HashMap::len`: the number of keys in the map.
#[verifier::external_body]
pub(crate) fn table_len(table: &PositionTable) -> (count: usize)
    ensures
        count == table_entries(*table).dom().len(),
{
    table.entries.len()
}

/// `hashbrown::HashMap::is_empty`: whether the map holds no key.
#[verifier::external_body]
pub(crate) fn table_is_empty(table: &PositionTable) -> (empty: bool)
    ensures
        empty == (table_entries(*table) == no_entries()),
{
    table.entries.is_empty()
}

/// Every position of the table lies in the world.
pub open spec fn entries_in_world(entries: Map<usize, Position>) -> bool {
    forall|number: usize| entries.dom().contains(number) ==> (#[trigger] entries[number]).in_world()
}

impl PositionTable {
    /// The positions, by number.
    pub open spec fn view(&self) -> Map<usize, Position> {
        table_entries(*self)
    }
}

} // verus!
