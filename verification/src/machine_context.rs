//! The machine context: everything one run mutates — registers, the data
//! and call stacks, the linear memory, and the base address of the first
//! instruction slot.

use vstd::prelude::*;

use crate::memory::Memory;
use crate::register::Registers;
use crate::stack::Stack;

verus! {

/// The single mutable state of one run.
#[derive(Debug, Clone, PartialEq)]
pub struct MachineContext {
    pub base_address: usize,
    pub registers: Registers,
    pub stack: Stack<u64>,
    pub call_stack: Stack<u64>,
    pub memory: Memory,
}

/// A name and the byte offset of its literal in memory, as the label list
/// reconstructed for plugins reports it.
#[derive(Debug, Clone, PartialEq)]
pub struct Label {
    pub name: String,
    pub address: usize,
}

impl MachineContext {
    /// A fresh context: zeroed registers, empty stacks, fresh memory.
    pub fn new() -> (r: MachineContext)
        ensures
            r.base_address == 0,
            r.registers == Registers::initial(),
            r.stack@ == Seq::<u64>::empty(),
            r.call_stack@ == Seq::<u64>::empty(),
            r.memory.pointer == 0,
            r.memory.data@.len() == crate::memory::MAX_MEMORY_SIZE,
            forall|i: int| 0 <= i < r.memory.data@.len() ==> r.memory.data@[i] == 0,
    {
        MachineContext {
            registers: Registers::new(),
            stack: Stack::new(),
            call_stack: Stack::new(),
            memory: Memory::new(),
            base_address: 0,
        }
    }
}

} // verus!
