//! What the hooks read of a module and of the engine that compiled it.
use crate::values::FuncType;
use vstd::prelude::*;

verus! {

/// Whether the stores of an engine record or replay.
#[derive(Clone, Copy, Debug, PartialEq, Eq, Structural)]
pub enum RRConfig {
    Disabled,
    Recording,
    Replaying,
}

#[derive(Clone, Copy, Debug)]
pub struct Engine {
    pub rr: RRConfig,
}

impl Engine {
    pub fn is_recording(&self) -> (recording: bool)
        ensures
            recording == (self.rr == RRConfig::Recording),
    {
        self.rr == RRConfig::Recording
    }
}

/// The type of something that a module exports.
#[derive(Debug)]
pub enum ExternType {
    Func(FuncType),
    Global,
    Table,
    Memory,
    Tag,
}

#[derive(Debug)]
pub struct ExportType {
    pub name: String,
    pub ty: ExternType,
}

#[derive(Debug)]
pub struct Module {
    pub engine: Engine,
    pub exports: Vec<ExportType>,
}

impl Module {
    pub open spec fn spec_exports_memory(&self) -> bool {
        exists|i: int| 0 <= i < self.exports@.len() && (#[trigger] self.exports@[i]).ty is Memory
    }

    /// Whether the module exports a memory.
    pub fn exports_memory(&self) -> (found: bool)
        ensures
            found == self.spec_exports_memory(),
            forall|k: int|
                0 <= k < self.exports@.len() && (#[trigger] self.exports@[k]).ty is Memory ==> found,
            !found ==> forall|k: int|
                0 <= k < self.exports@.len() ==> !((#[trigger] self.exports@[k]).ty is Memory),
    {
        let mut i: usize = 0;
        while i < self.exports.len()
            invariant
                i <= self.exports@.len(),
                forall|k: int| 0 <= k < i ==> !((#[trigger] self.exports@[k]).ty is Memory),
            decreases self.exports@.len() - i,
        {
            if let ExternType::Memory = self.exports[i].ty {
                return true;
            }
            i = i + 1;
        }
        false
    }
}

} // verus!
