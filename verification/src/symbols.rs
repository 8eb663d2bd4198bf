//! The symbol table: the labels of a program and their addresses.

use crate::text::{same_chars, to_chars};
use vstd::prelude::*;

verus! {

/// The map that a list of bindings stands for. A later binding of a name
/// replaces an earlier one.
pub open spec fn bindings(entries: Seq<(Vec<char>, usize)>) -> Map<Seq<char>, usize>
    decreases entries.len(),
{
    if entries.len() == 0 {
        Map::empty()
    } else {
        bindings(entries.drop_last()).insert(entries.last().0@, entries.last().1)
    }
}

/// Labels and the addresses they are bound to. An address is the index of an
/// instruction in the program, not a byte offset. Names are case-sensitive.
#[derive(Debug)]
pub struct SymbolTable {
    entries: Vec<(Vec<char>, usize)>,
}

impl View for SymbolTable {
    type V = Map<Seq<char>, usize>;

    closed spec fn view(&self) -> Map<Seq<char>, usize> {
        bindings(self.entries@)
    }
}

impl SymbolTable {
    /// A table without labels.
    pub fn new() -> (table: SymbolTable)
        ensures
            table@ == Map::<Seq<char>, usize>::empty(),
    {
        SymbolTable { entries: Vec::new() }
    }

    /// Binds `name` to `address`. An earlier binding of `name` is replaced.
    pub fn bind(&mut self, name: Vec<char>, address: usize)
        ensures
            final(self)@ == old(self)@.insert(name@, address),
    {
        self.entries.push((name, address));
        assert(self.entries@.drop_last() =~= old(self).entries@);
    }

    /// The address that `name` is bound to, if it is bound.
    pub fn lookup(&self, name: &Vec<char>) -> (address: Option<usize>)
        ensures
            address == (if self@.contains_key(name@) {
                Some(self@[name@])
            } else {
                None
            }),
    {
        let mut i: usize = self.entries.len();
        assert(self.entries@.take(i as int) =~= self.entries@);
        while i > 0
            invariant
                i <= self.entries.len(),
                self@.contains_key(name@) == bindings(self.entries@.take(i as int)).contains_key(
                    name@,
                ),
                self@.contains_key(name@) ==> self@[name@] == bindings(
                    self.entries@.take(i as int),
                )[name@],
            decreases i,
        {
            assert(self.entries@.take(i as int).drop_last() =~= self.entries@.take(i - 1));
            if same_chars(&self.entries[i - 1].0, name) {
                return Some(self.entries[i - 1].1);
            }
            i = i - 1;
        }
        None
    }

    /// Binds the label `name` to `address`.
    pub fn insert(&mut self, name: &str, address: usize)
        ensures
            final(self)@ == old(self)@.insert(name@, address),
    {
        self.bind(to_chars(name), address)
    }

    /// The address of the label `name`, if the table has it.
    pub fn get(&self, name: &str) -> (address: Option<usize>)
        ensures
            address == (if self@.contains_key(name@) {
                Some(self@[name@])
            } else {
                None
            }),
    {
        let chars = to_chars(name);
        self.lookup(&chars)
    }
}

} // verus!
