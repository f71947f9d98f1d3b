//! Opcode registries: the core instruction set, whose names lose their fixed
//! two-character prefix, and the extended instruction sets, whose names stay.
use vstd::prelude::*;
use crate::grammar::Instruction;

verus! {

/// A name with its first two characters removed.
pub open spec fn strip_prefix(s: Seq<char>) -> Seq<char> {
    s.subrange(2, s.len() as int)
}

/// The enumeration symbol of an instruction name.
pub open spec fn entry_name(opname: Seq<char>, strip: bool) -> Seq<char> {
    if strip {
        strip_prefix(opname)
    } else {
        opname
    }
}

/// One member of an opcode enumeration.
#[derive(Clone, Debug)]
pub struct OpcodeEntry {
    pub name: String,
    pub opcode: u32,
}

/// An opcode enumeration: its members in declaration order.
#[derive(Clone, Debug)]
pub struct OpcodeTable {
    pub entries: Vec<OpcodeEntry>,
}

/// Every instruction name is long enough to lose its prefix.
pub open spec fn prefixed_names(insts: Seq<Instruction>) -> bool {
    forall|i: int| 0 <= i < insts.len() ==> #[trigger] insts[i].opname@.len() >= 2
}

/// No two instructions share an opcode.
pub open spec fn unique_opcodes(insts: Seq<Instruction>) -> bool {
    forall|i: int, j: int|
        0 <= i < insts.len() && 0 <= j < insts.len() && i != j ==> #[trigger] insts[i].opcode != #[trigger] insts[j].opcode
}

/// Returns the enumeration symbol of an instruction name; with `strip`, the
/// name without its first two characters.
pub fn entry_name_text(opname: &String, strip: bool) -> (r: String)
    requires
        strip ==> opname@.len() >= 2,
    ensures
        r@ == entry_name(opname@, strip),
{
    if strip {
        let len = opname.as_str().unicode_len();
        String::from_str(opname.as_str().substring_char(2, len))
    } else {
        opname.clone()
    }
}

impl OpcodeTable {
    /// The table lists, in order, one member per instruction.
    pub open spec fn models(self, insts: Seq<Instruction>, strip: bool) -> bool {
        &&& self.entries@.len() == insts.len()
        &&& forall|i: int|
            0 <= i < insts.len() ==> {
                &&& #[trigger] self.entries@[i].opcode == insts[i].opcode
                &&& self.entries@[i].name@ == entry_name(insts[i].opname@, strip)
            }
    }

    /// Builds the opcode enumeration of an instruction list; with `strip`,
    /// each name loses its first two characters.
    pub fn from_instructions(insts: &Vec<Instruction>, strip: bool) -> (r: OpcodeTable)
        requires
            strip ==> prefixed_names(insts@),
        ensures
            r.models(insts@, strip),
    {
        let mut entries: Vec<OpcodeEntry> = Vec::new();
        let mut i: usize = 0;
        while i < insts.len()
            invariant
                i <= insts@.len(),
                strip ==> prefixed_names(insts@),
                entries@.len() == i,
                forall|k: int|
                    0 <= k < i ==> {
                        &&& #[trigger] entries@[k].opcode == insts@[k].opcode
                        &&& entries@[k].name@ == entry_name(insts@[k].opname@, strip)
                    },
            decreases insts@.len() - i,
        {
            let inst = &insts[i];
            assert(strip ==> inst.opname@.len() >= 2);
            let name = entry_name_text(&inst.opname, strip);
            entries.push(OpcodeEntry { name, opcode: inst.opcode });
            i += 1;
        }
        OpcodeTable { entries }
    }

    /// Decodes a raw opcode to the index of the first member that carries it,
    /// or `None` when no member does.
    pub fn decode(&self, n: u32) -> (r: Option<usize>)
        ensures
            r matches Some(k) ==> {
                &&& k < self.entries@.len()
                &&& self.entries@[k as int].opcode == n
                &&& forall|j: int| 0 <= j < k ==> #[trigger] self.entries@[j].opcode != n
            },
            r is None ==> forall|k: int| 0 <= k < self.entries@.len() ==> #[trigger] self.entries@[k].opcode != n,
    {
        let mut k: usize = 0;
        while k < self.entries.len()
            invariant
                k <= self.entries@.len(),
                forall|j: int| 0 <= j < k ==> #[trigger] self.entries@[j].opcode != n,
            decreases self.entries@.len() - k,
        {
            if self.entries[k].opcode == n {
                return Some(k);
            }
            k += 1;
        }
        None
    }
}

/// With unique opcodes, decoding the opcode of an instruction finds exactly
/// that instruction's member, named by its (stripped) name.
pub proof fn lemma_opcode_decode(t: OpcodeTable, insts: Seq<Instruction>, strip: bool, i: int)
    requires
        t.models(insts, strip),
        unique_opcodes(insts),
        0 <= i < insts.len(),
    ensures
        exists|k: int| 0 <= k < t.entries@.len() && #[trigger] t.entries@[k].opcode == insts[i].opcode,
        forall|k: int|
            0 <= k < t.entries@.len() && #[trigger] t.entries@[k].opcode == insts[i].opcode ==> k == i
                && t.entries@[k].name@ == entry_name(insts[i].opname@, strip),
{
    assert(t.entries@[i].opcode == insts[i].opcode);
    assert forall|k: int|
        0 <= k < t.entries@.len() && #[trigger] t.entries@[k].opcode == insts[i].opcode implies k == i
            && t.entries@[k].name@ == entry_name(insts[i].opname@, strip) by {
        if k != i {
            assert(insts[k].opcode != insts[i].opcode);
        }
    }
}

} // verus!
