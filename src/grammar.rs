//! The in-memory grammar that the emitters consume.
use vstd::prelude::*;

verus! {

/// The category of an operand kind.
#[derive(Clone, Copy, Debug, PartialEq, Eq, Structural)]
pub enum Category {
    BitEnum,
    ValueEnum,
    Id,
    Literal,
    Composite,
}

/// One named, numbered value of an operand kind.
#[derive(Clone, Debug)]
pub struct Enumerant {
    pub symbol: String,
    pub value: u32,
    pub capabilities: Vec<String>,
}

/// A named category of operand values.
#[derive(Clone, Debug)]
pub struct OperandKind {
    pub category: Category,
    pub kind: String,
    pub enumerants: Vec<Enumerant>,
}

/// One instruction of a grammar: its name and its opcode.
#[derive(Clone, Debug)]
pub struct Instruction {
    pub opname: String,
    pub opcode: u32,
}

/// The core instruction grammar.
#[derive(Clone, Debug)]
pub struct Grammar {
    pub magic_number: u32,
    pub major_version: u8,
    pub minor_version: u8,
    pub revision: u8,
    pub operand_kinds: Vec<OperandKind>,
    pub instructions: Vec<Instruction>,
}

/// The grammar of an extended instruction set.
#[derive(Clone, Debug)]
pub struct ExtInstSetGrammar {
    pub instructions: Vec<Instruction>,
}

/// A list of names, as a sequence of character sequences.
pub open spec fn names_view(v: Seq<String>) -> Seq<Seq<char>> {
    v.map_values(|s: String| s@)
}

impl Enumerant {
    pub open spec fn caps(self) -> Seq<Seq<char>> {
        names_view(self.capabilities@)
    }
}

impl OperandKind {
    /// The discriminators of the enumerants, in declaration order.
    pub open spec fn values(self) -> Seq<u32> {
        self.enumerants@.map_values(|e: Enumerant| e.value)
    }
}

/// Enumerant `i` is the first one declared with its discriminator.
pub open spec fn is_canonical(vals: Seq<u32>, i: int) -> bool {
    0 <= i < vals.len() && forall|j: int| 0 <= j < i ==> vals[j] != vals[i]
}

} // verus!
