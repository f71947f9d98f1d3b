//! The generated header: constants, operand kinds and opcode enumerations.
use vstd::prelude::*;
use crate::grammar::{Category, ExtInstSetGrammar, Grammar, Instruction, OperandKind};
use crate::opcodes::{entry_name, entry_name_text, prefixed_names};
use crate::render::{
    append_from_primitive_head, append_from_primitive_tail, bit_enum_text, decode_arm, decode_arm_text,
    enum_attribute, from_primitive_text, gen_bit_enum_operand_kind, member_line, member_line_text,
    render_value_enum, value_enum_attribute, value_enum_text,
};
use crate::text::{decimal, decimal_u32, get_spec_link, hex_u32, hex_word, spec_link};
use crate::unique::{lemma_generation_deterministic, lemma_value_enum_text_unique};
use crate::value_enum::ValueEnum;

verus! {

/// The text emitted for an operand kind, given the analysis `ve` that a
/// closed enumeration uses; `None` for the other categories.
pub open spec fn kind_text(k: OperandKind, ve: ValueEnum) -> Option<Seq<char>> {
    match k.category {
        Category::BitEnum => Some(bit_enum_text(k.kind@, k.enumerants@)),
        Category::ValueEnum => Some(value_enum_text(k.kind@, ve)),
        _ => None,
    }
}

/// `ve` is an analysis of `k` wherever `k` is a closed enumeration.
pub open spec fn analysed(k: OperandKind, ve: ValueEnum) -> bool {
    k.category == Category::ValueEnum ==> ve.models(k.kind@, k.enumerants@)
}

/// Returns the text of a closed-enumeration operand kind.
pub fn gen_value_enum_operand_kind(grammar: &OperandKind) -> (r: String)
    ensures
        exists|ve: ValueEnum| #[trigger] ve.models(grammar.kind@, grammar.enumerants@),
        forall|ve: ValueEnum| #[trigger] ve.models(grammar.kind@, grammar.enumerants@) ==> r@ == value_enum_text(
            grammar.kind@,
            ve,
        ),
{
    let ve = ValueEnum::analyze(grammar);
    assert(ve.indexes_ok()) by {
        assert forall|a: int| 0 <= a < ve.aliases@.len() implies #[trigger] ve.aliases@[a].target < ve.variants@.len() by {
            assert(ve.aliases@[a].source < grammar.enumerants@.len());
        }
    }
    let r = render_value_enum(&grammar.kind, &ve);
    assert forall|ve2: ValueEnum| #[trigger] ve2.models(grammar.kind@, grammar.enumerants@) implies r@
        == value_enum_text(grammar.kind@, ve2) by {
        lemma_value_enum_text_unique(ve, ve2, grammar.kind@, grammar.enumerants@);
    }
    r
}

/// Returns the text of an operand kind: a flag set or a closed enumeration;
/// `None` for any other category.
pub fn gen_operand_kind(grammar: &OperandKind) -> (r: Option<String>)
    ensures
        grammar.category != Category::BitEnum && grammar.category != Category::ValueEnum <==> r is None,
        r matches Some(t) ==> forall|ve: ValueEnum| #[trigger] analysed(*grammar, ve) ==> kind_text(*grammar, ve) == Some(
            t@,
        ),
        exists|ve: ValueEnum| #[trigger] analysed(*grammar, ve),
{
    match grammar.category {
        Category::BitEnum => {
            let t = gen_bit_enum_operand_kind(grammar);
            assert(analysed(*grammar, vstd::pervasive::arbitrary::<ValueEnum>()));
            Some(t)
        },
        Category::ValueEnum => {
            let t = gen_value_enum_operand_kind(grammar);
            let ghost ve = choose|ve: ValueEnum| #[trigger] ve.models(grammar.kind@, grammar.enumerants@);
            assert(analysed(*grammar, ve));
            Some(t)
        },
        _ => {
            assert(analysed(*grammar, vstd::pervasive::arbitrary::<ValueEnum>()));
            None
        },
    }
}

/// The members of an opcode enumeration, one per instruction.
pub open spec fn opcode_lines(insts: Seq<Instruction>, strip: bool) -> Seq<char>
    decreases insts.len(),
{
    if insts.len() == 0 {
        Seq::empty()
    } else {
        opcode_lines(insts.drop_last(), strip) + member_line(
            entry_name(insts.last().opname@, strip),
            insts.last().opcode,
        )
    }
}

/// The decode arms of an opcode enumeration named `name`, one per
/// instruction.
pub open spec fn opcode_arms(name: Seq<char>, insts: Seq<Instruction>, strip: bool) -> Seq<char>
    decreases insts.len(),
{
    if insts.len() == 0 {
        Seq::empty()
    } else {
        opcode_arms(name, insts.drop_last(), strip) + decode_arm(
            name,
            insts.last().opcode,
            entry_name(insts.last().opname@, strip),
        )
    }
}

/// The text of the opcode enumeration `name`, documented by `doc`, with its
/// decode procedure.
pub open spec fn opcode_enum_text(name: Seq<char>, doc: Seq<char>, insts: Seq<Instruction>, strip: bool) -> Seq<char> {
    "#[doc = \""@ + doc + "\"]\n"@ + enum_attribute() + "pub enum "@ + name + " {\n"@ + opcode_lines(insts, strip)
        + "}\n\n"@ + from_primitive_text(name, opcode_arms(name, insts, strip))
}

/// Returns the text of the opcode enumeration `name`, documented by `doc`;
/// with `strip`, member names lose the first two characters of the
/// instruction names.
pub fn gen_opcode_enum(name: &String, doc: &String, insts: &Vec<Instruction>, strip: bool) -> (r: String)
    requires
        strip ==> prefixed_names(insts@),
    ensures
        r@ == opcode_enum_text(name@, doc@, insts@, strip),
{
    let mut r = String::from_str("#[doc = \"");
    r.append(doc.as_str());
    r.append("\"]\n");
    let attribute = value_enum_attribute();
    r.append(attribute.as_str());
    r.append("pub enum ");
    r.append(name.as_str());
    r.append(" {\n");
    let ghost start = r@;
    let mut i: usize = 0;
    assert(insts@.subrange(0, 0) =~= Seq::<Instruction>::empty());
    while i < insts.len()
        invariant
            i <= insts@.len(),
            strip ==> prefixed_names(insts@),
            r@ == start + opcode_lines(insts@.subrange(0, i as int), strip),
        decreases insts@.len() - i,
    {
        assert(strip ==> insts@[i as int].opname@.len() >= 2);
        let member = entry_name_text(&insts[i].opname, strip);
        let line = member_line_text(&member, insts[i].opcode);
        r.append(line.as_str());
        proof {
            assert(insts@.subrange(0, i + 1).drop_last() =~= insts@.subrange(0, i as int));
        }
        i += 1;
        assert(r@ =~= start + opcode_lines(insts@.subrange(0, i as int), strip));
    }
    assert(insts@.subrange(0, i as int) =~= insts@);
    r.append("}\n\n");
    let ghost before = r@;
    append_from_primitive_head(&mut r, name);
    let ghost start = r@;
    let mut i: usize = 0;
    while i < insts.len()
        invariant
            i <= insts@.len(),
            strip ==> prefixed_names(insts@),
            r@ == start + opcode_arms(name@, insts@.subrange(0, i as int), strip),
        decreases insts@.len() - i,
    {
        assert(strip ==> insts@[i as int].opname@.len() >= 2);
        let member = entry_name_text(&insts[i].opname, strip);
        let line = decode_arm_text(name, insts[i].opcode, &member);
        r.append(line.as_str());
        proof {
            assert(insts@.subrange(0, i + 1).drop_last() =~= insts@.subrange(0, i as int));
        }
        i += 1;
        assert(r@ =~= start + opcode_arms(name@, insts@.subrange(0, i as int), strip));
    }
    assert(insts@.subrange(0, i as int) =~= insts@);
    append_from_primitive_tail(&mut r);
    assert(r@ =~= before + from_primitive_text(name@, opcode_arms(name@, insts@, strip)));
    r
}

/// The documentation of the GLSL.std.450 opcode enumeration.
pub open spec fn glsl_doc() -> Seq<char> {
    "[GLSL.std.450](https://www.khronos.org/registry/spir-v/specs/unified1/GLSL.std.450.html) extended instruction opcode"@
}

/// The documentation of the OpenCL.std opcode enumeration.
pub open spec fn opencl_doc() -> Seq<char> {
    "[OpenCL.std](https://www.khronos.org/registry/spir-v/specs/unified1/OpenCL.ExtendedInstructionSet.100.html) extended instruction opcode"@
}

/// Returns the GLSL.std.450 extended instruction opcodes.
pub fn gen_glsl_std_450_opcodes(grammar: &ExtInstSetGrammar) -> (r: String)
    ensures
        r@ == opcode_enum_text("GLOp"@, glsl_doc(), grammar.instructions@, false),
{
    let name = String::from_str("GLOp");
    let doc = String::from_str(
        "[GLSL.std.450](https://www.khronos.org/registry/spir-v/specs/unified1/GLSL.std.450.html) extended instruction opcode",
    );
    gen_opcode_enum(&name, &doc, &grammar.instructions, false)
}

/// Returns the OpenCL.std extended instruction opcodes.
pub fn gen_opencl_std_opcodes(grammar: &ExtInstSetGrammar) -> (r: String)
    ensures
        r@ == opcode_enum_text("CLOp"@, opencl_doc(), grammar.instructions@, false),
{
    let name = String::from_str("CLOp");
    let doc = String::from_str(
        "[OpenCL.std](https://www.khronos.org/registry/spir-v/specs/unified1/OpenCL.ExtendedInstructionSet.100.html) extended instruction opcode",
    );
    gen_opcode_enum(&name, &doc, &grammar.instructions, false)
}

/// The text of the operand kinds `ks`, analysed as `ves`, each followed by a
/// blank line; kinds of other categories contribute nothing.
pub open spec fn kinds_text(ks: Seq<OperandKind>, ves: Seq<ValueEnum>) -> Seq<char>
    decreases ks.len(),
{
    if ks.len() == 0 {
        Seq::empty()
    } else {
        kinds_text(ks.drop_last(), ves.take(ks.len() - 1)) + match kind_text(ks.last(), ves[ks.len() - 1]) {
            Some(t) => t + "\n"@,
            None => Seq::empty(),
        }
    }
}

/// The documentation of the core opcode enumeration.
pub open spec fn op_doc() -> Seq<char> {
    "SPIR-V "@ + spec_link("instructions"@) + " opcodes"@
}

/// The scalar constants of the header.
pub open spec fn constants_text(g: Grammar) -> Seq<char> {
    "pub type Word = u32;\npub const MAGIC_NUMBER: u32 = "@ + hex_word(g.magic_number)
        + ";\npub const MAJOR_VERSION: u8 = "@ + decimal(g.major_version as nat) + ";\npub const MINOR_VERSION: u8 = "@
        + decimal(g.minor_version as nat) + ";\npub const REVISION: u8 = "@ + decimal(g.revision as nat) + ";\n\n"@
}

/// The generated header of grammar `g`, whose closed enumerations are
/// analysed as `ves`.
pub open spec fn header_text(g: Grammar, ves: Seq<ValueEnum>) -> Seq<char> {
    constants_text(g) + kinds_text(g.operand_kinds@, ves) + opcode_enum_text("Op"@, op_doc(), g.instructions@, true)
}

/// `ves` analyses every closed enumeration of `ks`, position by position.
pub open spec fn all_analysed(ks: Seq<OperandKind>, ves: Seq<ValueEnum>) -> bool {
    &&& ves.len() == ks.len()
    &&& forall|i: int| 0 <= i < ks.len() ==> #[trigger] analysed(ks[i], ves[i])
}

#[verifier::rlimit(40)]
fn append_kinds(r: &mut String, ks: &Vec<OperandKind>) -> (ves: Ghost<Seq<ValueEnum>>)
    ensures
        all_analysed(ks@, ves@),
        final(r)@ == old(r)@ + kinds_text(ks@, ves@),
{
    let ghost start = r@;
    let ghost mut ves: Seq<ValueEnum> = Seq::empty();
    let mut i: usize = 0;
    assert(ks@.subrange(0, 0) =~= Seq::<OperandKind>::empty());
    while i < ks.len()
        invariant
            i <= ks@.len(),
            ves.len() == i,
            forall|j: int| 0 <= j < i ==> #[trigger] analysed(ks@[j], ves[j]),
            r@ == start + kinds_text(ks@.subrange(0, i as int), ves),
        decreases ks@.len() - i,
    {
        let ghost old_ves = ves;
        match gen_operand_kind(&ks[i]) {
            Some(t) => {
                let ghost ve = choose|ve: ValueEnum| #[trigger] analysed(ks@[i as int], ve) && kind_text(ks@[i as int], ve) == Some(t@);
                proof {
                    ves = ves.push(ve);
                }
                r.append(t.as_str());
                r.append("\n");
            },
            None => {
                proof {
                    ves = ves.push(vstd::pervasive::arbitrary());
                }
            },
        }
        proof {
            assert(ks@.subrange(0, i + 1).drop_last() =~= ks@.subrange(0, i as int));
            assert(ves.take(i as int) =~= old_ves);
            assert forall|j: int| 0 <= j < i + 1 implies #[trigger] analysed(ks@[j], ves[j]) by {
                if j < i {
                    assert(ves[j] == old_ves[j]);
                }
            }
        }
        i += 1;
        assert(r@ =~= start + kinds_text(ks@.subrange(0, i as int), ves));
    }
    assert(ks@.subrange(0, i as int) =~= ks@);
    Ghost(ves)
}

/// Returns the generated header: the scalar constants, one type per flag-set
/// or closed-enumeration operand kind, and the opcode enumeration, whose
/// members are the instruction names without their two-character prefix.
pub fn gen_spirv_header(grammar: &Grammar) -> (r: String)
    requires
        prefixed_names(grammar.instructions@),
    ensures
        exists|ves: Seq<ValueEnum>| #[trigger] all_analysed(grammar.operand_kinds@, ves),
        forall|ves: Seq<ValueEnum>| #[trigger] all_analysed(grammar.operand_kinds@, ves) ==> r@ == header_text(
            *grammar,
            ves,
        ),
{
    let mut r = String::from_str("pub type Word = u32;\npub const MAGIC_NUMBER: u32 = ");
    let magic = hex_u32(grammar.magic_number);
    r.append(magic.as_str());
    r.append(";\npub const MAJOR_VERSION: u8 = ");
    let t = decimal_u32(grammar.major_version as u32);
    r.append(t.as_str());
    r.append(";\npub const MINOR_VERSION: u8 = ");
    let t = decimal_u32(grammar.minor_version as u32);
    r.append(t.as_str());
    r.append(";\npub const REVISION: u8 = ");
    let t = decimal_u32(grammar.revision as u32);
    r.append(t.as_str());
    r.append(";\n\n");
    let ves = append_kinds(&mut r, &grammar.operand_kinds);
    let name = String::from_str("Op");
    let mut doc = String::from_str("SPIR-V ");
    let link = get_spec_link("instructions");
    doc.append(link.as_str());
    doc.append(" opcodes");
    let ops = gen_opcode_enum(&name, &doc, &grammar.instructions, true);
    r.append(ops.as_str());
    assert(r@ =~= header_text(*grammar, ves@));
    assert forall|ves2: Seq<ValueEnum>| #[trigger] all_analysed(grammar.operand_kinds@, ves2) implies r@ == header_text(
        *grammar,
        ves2,
    ) by {
        lemma_generation_deterministic(*grammar, ves@, ves2);
    }
    r
}

} // verus!
