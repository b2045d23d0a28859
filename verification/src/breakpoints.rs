//! The table of requested breakpoints: for each address the instruction byte
//! that stood there before the trap was written.

use std::collections::HashMap;
use vstd::prelude::*;
use vstd::std_specs::hash::*;

verus! {

broadcast use group_hash_axioms;

/// The one-byte trap instruction that a breakpoint writes into the code.
pub const TRAP_BYTE: u8 = 0xcc;

/// The byte recorded for a breakpoint that no process has been patched with yet.
pub const PLACEHOLDER_BYTE: u8 = 0;

/// The breakpoints by address, and their addresses in the order in which
/// they were first requested.
pub struct BreakpointTable {
    bytes: HashMap<usize, u8>,
    order: Vec<usize>,
}

impl View for BreakpointTable {
    type V = Map<usize, u8>;

    /// The table as a mapping from address to saved byte.
    closed spec fn view(&self) -> Map<usize, u8> {
        self.bytes@
    }
}

impl BreakpointTable {
    /// The order lists each address of the table once, and no other.
    pub closed spec fn wf(&self) -> bool {
        &&& self.order@.no_duplicates()
        &&& forall|a: usize| self.order@.contains(a) <==> self.bytes@.dom().contains(a)
    }

    /// The addresses in the order of their first request.
    pub closed spec fn order(&self) -> Seq<usize> {
        self.order@
    }

    /// The order lists each address of the table once, and no other: the
    /// table holds as many breakpoints as the order is long.
    pub proof fn lemma_order(&self)
        requires
            self.wf(),
        ensures
            self.order().no_duplicates(),
            forall|a: usize| self.order().contains(a) <==> self@.dom().contains(a),
            self@.dom().finite(),
            self@.dom().len() == self.order().len(),
    {
        self.order@.unique_seq_to_set();
        assert(self.order@.to_set() =~= self@.dom());
    }

    /// The empty table.
    pub fn new() -> (table: BreakpointTable)
        ensures
            table.wf(),
            table@ == Map::<usize, u8>::empty(),
            table.order() == Seq::<usize>::empty(),
    {
        BreakpointTable { bytes: HashMap::new(), order: Vec::new() }
    }

    /// How many breakpoints the table holds.
    pub fn len(&self) -> (n: usize)
        ensures
            n == self.order().len(),
    {
        self.order.len()
    }

    /// The byte saved for `addr`, if a breakpoint was requested there.
    pub fn get(&self, addr: usize) -> (byte: Option<u8>)
        ensures
            byte == (if self@.dom().contains(addr) {
                Some(self@[addr])
            } else {
                None
            }),
    {
        match self.bytes.get(&addr) {
            Some(byte) => Some(*byte),
            None => None,
        }
    }

    /// Whether a breakpoint was requested at `addr`.
    pub fn contains(&self, addr: usize) -> (found: bool)
        ensures
            found == self@.dom().contains(addr),
    {
        self.bytes.contains_key(&addr)
    }

    /// The address at place `index` of the order.
    pub fn address_at(&self, index: usize) -> (addr: usize)
        requires
            index < self.order().len(),
        ensures
            addr == self.order()[index as int],
    {
        self.order[index]
    }

    /// Records `byte` for `addr`, and returns the byte that was recorded there
    /// before. A new address goes to the end of the order; a known one keeps
    /// its place.
    pub fn insert(&mut self, addr: usize, byte: u8) -> (previous: Option<u8>)
        requires
            old(self).wf(),
        ensures
            final(self).wf(),
            final(self)@ == old(self)@.insert(addr, byte),
            previous == (if old(self)@.dom().contains(addr) {
                Some(old(self)@[addr])
            } else {
                None
            }),
            final(self).order() == (if old(self)@.dom().contains(addr) {
                old(self).order()
            } else {
                old(self).order().push(addr)
            }),
    {
        let ghost before = self.order@;
        let previous = self.bytes.insert(addr, byte);
        if previous.is_none() {
            self.order.push(addr);
            proof {
                let after = self.order@;
                assert(!before.contains(addr));
                assert forall|a: usize| after.contains(a) <==> (a == addr || before.contains(
                    a,
                )) by {
                    if after.contains(a) {
                        let i = choose|i: int| 0 <= i < after.len() && after[i] == a;
                        if i < before.len() {
                            assert(before[i] == a);
                        }
                    }
                    if before.contains(a) {
                        let i = choose|i: int| 0 <= i < before.len() && before[i] == a;
                        assert(after[i] == a);
                    }
                    if a == addr {
                        assert(after[before.len() as int] == a);
                    }
                }
                assert(after.no_duplicates()) by {
                    assert forall|i: int, j: int|
                        0 <= i < after.len() && 0 <= j < after.len() && i != j implies after[i]
                        != after[j] by {
                        if i < before.len() {
                            assert(before[i] == after[i]);
                        }
                        if j < before.len() {
                            assert(before[j] == after[j]);
                        }
                    }
                }
            }
        }
        previous
    }
}

} // verus!
