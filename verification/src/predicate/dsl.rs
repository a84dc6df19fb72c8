//! Builder types for the predicate DSL.
use vstd::prelude::*;

use super::combinators::{At, BlockPred, CmpOp, Cmp, Quantifier};

verus! {

broadcast use vstd::string::group_string_axioms;

#[derive(Debug, Clone, Copy, PartialEq, Eq)]
pub enum Property {
    BasicBlocksLen,
    CallsLen,
    InstructionsLen,
    AllocasLen,
    BranchesLen,
    PhiNodesLen,
}

/// How a property is written in messages.
pub open spec fn prop_name(p: Property) -> Seq<char> {
    match p {
        Property::BasicBlocksLen => "basic_blocks.len()"@,
        Property::CallsLen => "calls.len()"@,
        Property::InstructionsLen => "instructions.len()"@,
        Property::AllocasLen => "allocas.len()"@,
        Property::BranchesLen => "branches.len()"@,
        Property::PhiNodesLen => "phi_nodes.len()"@,
    }
}

impl Property {
    pub fn name(&self) -> (r: &'static str)
        ensures
            r@ == prop_name(*self),
    {
        match self {
            Property::BasicBlocksLen => "basic_blocks.len()",
            Property::CallsLen => "calls.len()",
            Property::InstructionsLen => "instructions.len()",
            Property::AllocasLen => "allocas.len()",
            Property::BranchesLen => "branches.len()",
            Property::PhiNodesLen => "phi_nodes.len()",
        }
    }
}

// --- Function-level properties ---

/// A function-level count, before `.len()`.
#[derive(Clone, Copy)]
pub enum PropertyAccess {
    Calls,
    Instructions,
    Allocas,
    Branches,
    PhiNodes,
}

impl PropertyAccess {
    /// The property that the count reads.
    pub open spec fn property(self) -> Property {
        match self {
            PropertyAccess::Calls => Property::CallsLen,
            PropertyAccess::Instructions => Property::InstructionsLen,
            PropertyAccess::Allocas => Property::AllocasLen,
            PropertyAccess::Branches => Property::BranchesLen,
            PropertyAccess::PhiNodes => Property::PhiNodesLen,
        }
    }

    pub fn len(&self) -> (r: PropertyLen)
        ensures
            r.property() == self.property(),
    {
        let p = match self {
            PropertyAccess::Calls => Property::CallsLen,
            PropertyAccess::Instructions => Property::InstructionsLen,
            PropertyAccess::Allocas => Property::AllocasLen,
            PropertyAccess::Branches => Property::BranchesLen,
            PropertyAccess::PhiNodes => Property::PhiNodesLen,
        };
        PropertyLen(p)
    }
}

pub struct PropertyLen(Property);

impl PropertyLen {
    /// The property that the comparison will read.
    pub closed spec fn property(&self) -> Property {
        self.0
    }

    pub fn eq(self, n: usize) -> (r: Cmp)
        ensures
            r == (Cmp { property: self.property(), op: CmpOp::Eq(n) }),
    {
        Cmp { property: self.0, op: CmpOp::Eq(n) }
    }

    pub fn ne(self, n: usize) -> (r: Cmp)
        ensures
            r == (Cmp { property: self.property(), op: CmpOp::Ne(n) }),
    {
        Cmp { property: self.0, op: CmpOp::Ne(n) }
    }

    pub fn lt(self, n: usize) -> (r: Cmp)
        ensures
            r == (Cmp { property: self.property(), op: CmpOp::Lt(n) }),
    {
        Cmp { property: self.0, op: CmpOp::Lt(n) }
    }

    pub fn le(self, n: usize) -> (r: Cmp)
        ensures
            r == (Cmp { property: self.property(), op: CmpOp::Le(n) }),
    {
        Cmp { property: self.0, op: CmpOp::Le(n) }
    }

    pub fn gt(self, n: usize) -> (r: Cmp)
        ensures
            r == (Cmp { property: self.property(), op: CmpOp::Gt(n) }),
    {
        Cmp { property: self.0, op: CmpOp::Gt(n) }
    }

    pub fn ge(self, n: usize) -> (r: Cmp)
        ensures
            r == (Cmp { property: self.property(), op: CmpOp::Ge(n) }),
    {
        Cmp { property: self.0, op: CmpOp::Ge(n) }
    }
}

// --- BasicBlocks entry point ---

pub struct BasicBlocks;

impl BasicBlocks {
    pub fn len(&self) -> (r: PropertyLen)
        ensures
            r.property() == Property::BasicBlocksLen,
    {
        PropertyLen(Property::BasicBlocksLen)
    }

    /// Every basic block satisfies the block predicate that `f` builds; `f`
    /// is kept as it is and called when the predicate is evaluated.
    pub fn all<F: Fn(BlockRef) -> BlockPred>(&self, f: F) -> (q: Quantifier<F>)
        ensures
            q.require_all,
            q.f == f,
    {
        Quantifier { require_all: true, f }
    }

    /// Some basic block satisfies the block predicate that `f` builds; `f`
    /// is kept as it is and called when the predicate is evaluated.
    pub fn any<F: Fn(BlockRef) -> BlockPred>(&self, f: F) -> (q: Quantifier<F>)
        ensures
            !q.require_all,
            q.f == f,
    {
        Quantifier { require_all: false, f }
    }

    pub fn at(&self, index: usize) -> (r: IndexedBlockRef)
        ensures
            r.0 == index,
    {
        IndexedBlockRef(index)
    }
}

// --- BlockRef (used inside .all()/.any() closures) ---

pub struct BlockRef {
    pub calls: BlockPropertyAccess,
    pub instructions: BlockPropertyAccess,
    pub allocas: BlockPropertyAccess,
    pub branches: BlockPropertyAccess,
    pub phi_nodes: BlockPropertyAccess,
}

impl BlockRef {
    /// The block reference that the quantifiers hand to their closure.
    pub closed spec fn spec_new() -> BlockRef {
        BlockRef {
            calls: BlockPropertyAccess(Property::CallsLen),
            instructions: BlockPropertyAccess(Property::InstructionsLen),
            allocas: BlockPropertyAccess(Property::AllocasLen),
            branches: BlockPropertyAccess(Property::BranchesLen),
            phi_nodes: BlockPropertyAccess(Property::PhiNodesLen),
        }
    }

    pub fn new() -> (r: Self)
        ensures
            r == BlockRef::spec_new(),
            r.calls.property() == Property::CallsLen,
            r.instructions.property() == Property::InstructionsLen,
            r.allocas.property() == Property::AllocasLen,
            r.branches.property() == Property::BranchesLen,
            r.phi_nodes.property() == Property::PhiNodesLen,
    {
        BlockRef {
            calls: BlockPropertyAccess(Property::CallsLen),
            instructions: BlockPropertyAccess(Property::InstructionsLen),
            allocas: BlockPropertyAccess(Property::AllocasLen),
            branches: BlockPropertyAccess(Property::BranchesLen),
            phi_nodes: BlockPropertyAccess(Property::PhiNodesLen),
        }
    }
}

impl Default for BlockRef {
    fn default() -> (r: Self)
        ensures
            r == BlockRef::spec_new(),
    {
        Self::new()
    }
}

pub struct BlockPropertyAccess(Property);

impl BlockPropertyAccess {
    /// The block-level property that this access reads.
    pub closed spec fn property(&self) -> Property {
        self.0
    }

    pub fn len(&self) -> (r: BlockPropertyLen)
        ensures
            r.property() == self.property(),
    {
        BlockPropertyLen(self.0)
    }
}

pub struct BlockPropertyLen(Property);

impl BlockPropertyLen {
    /// The block-level property that the comparison will read.
    pub closed spec fn property(&self) -> Property {
        self.0
    }

    pub fn eq(self, n: usize) -> (r: BlockPred)
        ensures
            r == (BlockPred::Cmp { property: self.property(), op: CmpOp::Eq(n) }),
    {
        BlockPred::Cmp { property: self.0, op: CmpOp::Eq(n) }
    }

    pub fn ne(self, n: usize) -> (r: BlockPred)
        ensures
            r == (BlockPred::Cmp { property: self.property(), op: CmpOp::Ne(n) }),
    {
        BlockPred::Cmp { property: self.0, op: CmpOp::Ne(n) }
    }

    pub fn lt(self, n: usize) -> (r: BlockPred)
        ensures
            r == (BlockPred::Cmp { property: self.property(), op: CmpOp::Lt(n) }),
    {
        BlockPred::Cmp { property: self.0, op: CmpOp::Lt(n) }
    }

    pub fn le(self, n: usize) -> (r: BlockPred)
        ensures
            r == (BlockPred::Cmp { property: self.property(), op: CmpOp::Le(n) }),
    {
        BlockPred::Cmp { property: self.0, op: CmpOp::Le(n) }
    }

    pub fn gt(self, n: usize) -> (r: BlockPred)
        ensures
            r == (BlockPred::Cmp { property: self.property(), op: CmpOp::Gt(n) }),
    {
        BlockPred::Cmp { property: self.0, op: CmpOp::Gt(n) }
    }

    pub fn ge(self, n: usize) -> (r: BlockPred)
        ensures
            r == (BlockPred::Cmp { property: self.property(), op: CmpOp::Ge(n) }),
    {
        BlockPred::Cmp { property: self.0, op: CmpOp::Ge(n) }
    }
}

// --- IndexedBlockRef (for basic_blocks.at(N)) ---

pub struct IndexedBlockRef(pub usize);

impl IndexedBlockRef {
    pub fn calls(self) -> (r: IndexedBlockPropertyAccess)
        ensures
            r.index() == self.0,
            r.property() == Property::CallsLen,
    {
        IndexedBlockPropertyAccess { index: self.0, property: Property::CallsLen }
    }

    pub fn instructions(self) -> (r: IndexedBlockPropertyAccess)
        ensures
            r.index() == self.0,
            r.property() == Property::InstructionsLen,
    {
        IndexedBlockPropertyAccess { index: self.0, property: Property::InstructionsLen }
    }

    pub fn allocas(self) -> (r: IndexedBlockPropertyAccess)
        ensures
            r.index() == self.0,
            r.property() == Property::AllocasLen,
    {
        IndexedBlockPropertyAccess { index: self.0, property: Property::AllocasLen }
    }

    pub fn branches(self) -> (r: IndexedBlockPropertyAccess)
        ensures
            r.index() == self.0,
            r.property() == Property::BranchesLen,
    {
        IndexedBlockPropertyAccess { index: self.0, property: Property::BranchesLen }
    }

    pub fn phi_nodes(self) -> (r: IndexedBlockPropertyAccess)
        ensures
            r.index() == self.0,
            r.property() == Property::PhiNodesLen,
    {
        IndexedBlockPropertyAccess { index: self.0, property: Property::PhiNodesLen }
    }
}

pub struct IndexedBlockPropertyAccess {
    index: usize,
    property: Property,
}

impl IndexedBlockPropertyAccess {
    pub closed spec fn index(&self) -> usize {
        self.index
    }

    pub closed spec fn property(&self) -> Property {
        self.property
    }

    pub fn len(self) -> (r: IndexedBlockPropertyLen)
        ensures
            r.index() == self.index(),
            r.property() == self.property(),
    {
        IndexedBlockPropertyLen { index: self.index, property: self.property }
    }
}

pub struct IndexedBlockPropertyLen {
    index: usize,
    property: Property,
}

impl IndexedBlockPropertyLen {
    pub closed spec fn index(&self) -> usize {
        self.index
    }

    pub closed spec fn property(&self) -> Property {
        self.property
    }

    pub fn eq(self, n: usize) -> (r: At)
        ensures
            r == (At { index: self.index(), pred: BlockPred::Cmp { property: self.property(), op: CmpOp::Eq(n) } }),
    {
        At { index: self.index, pred: BlockPred::Cmp { property: self.property, op: CmpOp::Eq(n) } }
    }

    pub fn ne(self, n: usize) -> (r: At)
        ensures
            r == (At { index: self.index(), pred: BlockPred::Cmp { property: self.property(), op: CmpOp::Ne(n) } }),
    {
        At { index: self.index, pred: BlockPred::Cmp { property: self.property, op: CmpOp::Ne(n) } }
    }

    pub fn lt(self, n: usize) -> (r: At)
        ensures
            r == (At { index: self.index(), pred: BlockPred::Cmp { property: self.property(), op: CmpOp::Lt(n) } }),
    {
        At { index: self.index, pred: BlockPred::Cmp { property: self.property, op: CmpOp::Lt(n) } }
    }

    pub fn le(self, n: usize) -> (r: At)
        ensures
            r == (At { index: self.index(), pred: BlockPred::Cmp { property: self.property(), op: CmpOp::Le(n) } }),
    {
        At { index: self.index, pred: BlockPred::Cmp { property: self.property, op: CmpOp::Le(n) } }
    }

    pub fn gt(self, n: usize) -> (r: At)
        ensures
            r == (At { index: self.index(), pred: BlockPred::Cmp { property: self.property(), op: CmpOp::Gt(n) } }),
    {
        At { index: self.index, pred: BlockPred::Cmp { property: self.property, op: CmpOp::Gt(n) } }
    }

    pub fn ge(self, n: usize) -> (r: At)
        ensures
            r == (At { index: self.index(), pred: BlockPred::Cmp { property: self.property(), op: CmpOp::Ge(n) } }),
    {
        At { index: self.index, pred: BlockPred::Cmp { property: self.property, op: CmpOp::Ge(n) } }
    }
}

} // verus!
