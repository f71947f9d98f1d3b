//! Emission of the source text of operand kinds and opcode enumerations.
use vstd::prelude::*;
use crate::grammar::{Enumerant, OperandKind, names_view};
use crate::value_enum::{Alias, CapGroup, ValueEnum, Variant};
use crate::text::{bit_symbol, decimal, decimal_u32, get_spec_link, make_bit_symbol, spec_link};

verus! {

/// The attributes of every emitted closed enumeration.
pub open spec fn enum_attribute() -> Seq<char> {
    "#[repr(u32)]\n#[derive(Clone, Copy, Debug, PartialEq, Eq, PartialOrd, Ord, Hash)]\n"@
}

/// Returns the attributes of every emitted closed enumeration.
pub fn value_enum_attribute() -> (r: String)
    ensures
        r@ == enum_attribute(),
{
    String::from_str("#[repr(u32)]\n#[derive(Clone, Copy, Debug, PartialEq, Eq, PartialOrd, Ord, Hash)]\n")
}

/// The constant of one flag-set bit.
pub open spec fn bit_line(e: Enumerant) -> Seq<char> {
    "        const "@ + bit_symbol(e.symbol@) + " = "@ + decimal(e.value as nat) + ";\n"@
}

/// The constants of the flag-set bits, in order.
pub open spec fn bit_lines(es: Seq<Enumerant>) -> Seq<char>
    decreases es.len(),
{
    if es.len() == 0 {
        Seq::empty()
    } else {
        bit_lines(es.drop_last()) + bit_line(es.last())
    }
}

/// The text of a flag-set operand kind.
pub open spec fn bit_enum_text(kind: Seq<char>, es: Seq<Enumerant>) -> Seq<char> {
    "bitflags! {\n    #[doc = \"SPIR-V operand kind: "@ + spec_link(kind) + "\"]\n    pub struct "@ + kind
        + ": u32 {\n"@ + bit_lines(es) + "    }\n}\n"@
}

fn bit_line_text(e: &Enumerant) -> (r: String)
    ensures
        r@ == bit_line(*e),
{
    let mut r = String::from_str("        const ");
    let symbol = make_bit_symbol(e.symbol.as_str());
    r.append(symbol.as_str());
    r.append(" = ");
    let value = decimal_u32(e.value);
    r.append(value.as_str());
    r.append(";\n");
    r
}

fn append_bit_lines(out: &mut String, es: &Vec<Enumerant>)
    ensures
        final(out)@ == old(out)@ + bit_lines(es@),
{
    let ghost start = out@;
    let mut i: usize = 0;
    assert(es@.subrange(0, 0) =~= Seq::<Enumerant>::empty());
    while i < es.len()
        invariant
            i <= es@.len(),
            out@ == start + bit_lines(es@.subrange(0, i as int)),
        decreases es@.len() - i,
    {
        let line = bit_line_text(&es[i]);
        out.append(line.as_str());
        proof {
            assert(es@.subrange(0, i + 1).drop_last() =~= es@.subrange(0, i as int));
        }
        i += 1;
        assert(out@ =~= start + bit_lines(es@.subrange(0, i as int)));
    }
    assert(es@.subrange(0, i as int) =~= es@);
}

/// Returns the text of a flag-set operand kind: one constant per enumerant,
/// at its value.
pub fn gen_bit_enum_operand_kind(grammar: &OperandKind) -> (r: String)
    ensures
        r@ == bit_enum_text(grammar.kind@, grammar.enumerants@),
{
    let mut r = String::from_str("bitflags! {\n    #[doc = \"SPIR-V operand kind: ");
    let link = get_spec_link(grammar.kind.as_str());
    r.append(link.as_str());
    r.append("\"]\n    pub struct ");
    r.append(grammar.kind.as_str());
    r.append(": u32 {\n");
    append_bit_lines(&mut r, &grammar.enumerants);
    r.append("    }\n}\n");
    r
}

/// The `FromPrimitive` impl of an enumeration named `name`, around the match
/// arms `arms`.
pub open spec fn from_primitive_text(name: Seq<char>, arms: Seq<char>) -> Seq<char> {
    "impl num_traits::FromPrimitive for "@ + name
        + " {\n    #[allow(trivial_numeric_casts)]\n    fn from_i64(n: i64) -> Option<Self> {\n        match n as u32 {\n"@
        + arms
        + "            _ => None,\n        }\n    }\n\n    fn from_u64(n: u64) -> Option<Self> {\n        Self::from_i64(n as i64)\n    }\n}\n"@
}

/// The decode arm that maps `value` to member `member` of `name`.
pub open spec fn decode_arm(name: Seq<char>, value: u32, member: Seq<char>) -> Seq<char> {
    "            "@ + decimal(value as nat) + " => Some("@ + name + "::"@ + member + "),\n"@
}

/// The enumeration member `member` at `value`.
pub open spec fn member_line(member: Seq<char>, value: u32) -> Seq<char> {
    "    "@ + member + " = "@ + decimal(value as nat) + ",\n"@
}

pub(crate) fn decode_arm_text(name: &String, value: u32, member: &String) -> (r: String)
    ensures
        r@ == decode_arm(name@, value, member@),
{
    let mut r = String::from_str("            ");
    let v = decimal_u32(value);
    r.append(v.as_str());
    r.append(" => Some(");
    r.append(name.as_str());
    r.append("::");
    r.append(member.as_str());
    r.append("),\n");
    r
}

pub(crate) fn member_line_text(member: &String, value: u32) -> (r: String)
    ensures
        r@ == member_line(member@, value),
{
    let mut r = String::from_str("    ");
    r.append(member.as_str());
    r.append(" = ");
    let v = decimal_u32(value);
    r.append(v.as_str());
    r.append(",\n");
    r
}

pub(crate) fn append_from_primitive_head(out: &mut String, name: &String)
    ensures
        final(out)@ == old(out)@ + "impl num_traits::FromPrimitive for "@ + name@
            + " {\n    #[allow(trivial_numeric_casts)]\n    fn from_i64(n: i64) -> Option<Self> {\n        match n as u32 {\n"@,
{
    out.append("impl num_traits::FromPrimitive for ");
    out.append(name.as_str());
    out.append(" {\n    #[allow(trivial_numeric_casts)]\n    fn from_i64(n: i64) -> Option<Self> {\n        match n as u32 {\n");
}

pub(crate) fn append_from_primitive_tail(out: &mut String)
    ensures
        final(out)@ == old(out)@
            + "            _ => None,\n        }\n    }\n\n    fn from_u64(n: u64) -> Option<Self> {\n        Self::from_i64(n as i64)\n    }\n}\n"@,
{
    out.append("            _ => None,\n        }\n    }\n\n    fn from_u64(n: u64) -> Option<Self> {\n        Self::from_i64(n as i64)\n    }\n}\n");
}

/// The members of a value enumeration, in order.
pub open spec fn variant_lines(vs: Seq<Variant>) -> Seq<char>
    decreases vs.len(),
{
    if vs.len() == 0 {
        Seq::empty()
    } else {
        variant_lines(vs.drop_last()) + member_line(vs.last().name@, vs.last().value)
    }
}

/// The decode arms of a value enumeration, in order.
pub open spec fn variant_arms(kind: Seq<char>, vs: Seq<Variant>) -> Seq<char>
    decreases vs.len(),
{
    if vs.len() == 0 {
        Seq::empty()
    } else {
        variant_arms(kind, vs.drop_last()) + decode_arm(kind, vs.last().value, vs.last().name@)
    }
}

/// The binding of one alias to its canonical variant.
pub open spec fn alias_line(kind: Seq<char>, vs: Seq<Variant>, al: Alias) -> Seq<char> {
    "    pub const "@ + al.name@ + ": "@ + kind + " = "@ + kind + "::"@ + vs[al.target as int].name@ + ";\n"@
}

/// The alias bindings, in order.
pub open spec fn alias_lines(kind: Seq<char>, vs: Seq<Variant>, als: Seq<Alias>) -> Seq<char>
    decreases als.len(),
{
    if als.len() == 0 {
        Seq::empty()
    } else {
        alias_lines(kind, vs, als.drop_last()) + alias_line(kind, vs, als.last())
    }
}

/// The variants of a group, joined by ` | `.
pub open spec fn member_list(kind: Seq<char>, vs: Seq<Variant>, ms: Seq<usize>) -> Seq<char>
    decreases ms.len(),
{
    if ms.len() == 0 {
        Seq::empty()
    } else if ms.len() == 1 {
        kind + "::"@ + vs[ms[0] as int].name@
    } else {
        member_list(kind, vs, ms.drop_last()) + " | "@ + kind + "::"@ + vs[ms.last() as int].name@
    }
}

/// The capabilities of a group, joined by `, `.
pub open spec fn capability_list(cs: Seq<Seq<char>>) -> Seq<char>
    decreases cs.len(),
{
    if cs.len() == 0 {
        Seq::empty()
    } else if cs.len() == 1 {
        "Capability::"@ + cs[0]
    } else {
        capability_list(cs.drop_last()) + ", Capability::"@ + cs.last()
    }
}

/// The match arm of one capability group.
pub open spec fn group_arm(kind: Seq<char>, vs: Seq<Variant>, g: CapGroup) -> Seq<char> {
    "            "@ + member_list(kind, vs, g.members@) + " => &["@ + capability_list(names_view(g.capabilities@))
        + "],\n"@
}

/// The match arms of the capability groups, in order.
pub open spec fn group_arms(kind: Seq<char>, vs: Seq<Variant>, gs: Seq<CapGroup>) -> Seq<char>
    decreases gs.len(),
{
    if gs.len() == 0 {
        Seq::empty()
    } else {
        group_arms(kind, vs, gs.drop_last()) + group_arm(kind, vs, gs.last())
    }
}

/// The text of a closed-enumeration operand kind named `kind`, analysed as
/// `ve`.
pub open spec fn value_enum_text(kind: Seq<char>, ve: ValueEnum) -> Seq<char> {
    "#[doc = \"SPIR-V operand kind: "@ + spec_link(kind) + "\"]\n"@ + enum_attribute() + "pub enum "@ + kind
        + " {\n"@ + variant_lines(ve.variants@) + "}\n\n#[allow(non_upper_case_globals)]\nimpl "@ + kind
        + " {\n"@ + alias_lines(kind, ve.variants@, ve.aliases@)
        + "    pub fn required_capabilities(self) -> &'static [Capability] {\n        match self {\n"@
        + group_arms(kind, ve.variants@, ve.groups@) + "        }\n    }\n}\n\n"@ + from_primitive_text(
        kind,
        variant_arms(kind, ve.variants@),
    )
}

impl ValueEnum {
    /// Every alias target and group member names a variant.
    pub open spec fn indexes_ok(self) -> bool {
        &&& forall|a: int| 0 <= a < self.aliases@.len() ==> #[trigger] self.aliases@[a].target < self.variants@.len()
        &&& forall|g: int, m: int|
            0 <= g < self.groups@.len() && 0 <= m < self.groups@[g].members@.len() ==> #[trigger] self.groups@[g].members@[m]
                < self.variants@.len()
    }
}

fn append_variant_lines(out: &mut String, vs: &Vec<Variant>)
    ensures
        final(out)@ == old(out)@ + variant_lines(vs@),
{
    let ghost start = out@;
    let mut i: usize = 0;
    assert(vs@.subrange(0, 0) =~= Seq::<Variant>::empty());
    while i < vs.len()
        invariant
            i <= vs@.len(),
            out@ == start + variant_lines(vs@.subrange(0, i as int)),
        decreases vs@.len() - i,
    {
        let line = member_line_text(&vs[i].name, vs[i].value);
        out.append(line.as_str());
        proof {
            assert(vs@.subrange(0, i + 1).drop_last() =~= vs@.subrange(0, i as int));
        }
        i += 1;
        assert(out@ =~= start + variant_lines(vs@.subrange(0, i as int)));
    }
    assert(vs@.subrange(0, i as int) =~= vs@);
}

fn append_variant_arms(out: &mut String, kind: &String, vs: &Vec<Variant>)
    ensures
        final(out)@ == old(out)@ + variant_arms(kind@, vs@),
{
    let ghost start = out@;
    let mut i: usize = 0;
    assert(vs@.subrange(0, 0) =~= Seq::<Variant>::empty());
    while i < vs.len()
        invariant
            i <= vs@.len(),
            out@ == start + variant_arms(kind@, vs@.subrange(0, i as int)),
        decreases vs@.len() - i,
    {
        let line = decode_arm_text(kind, vs[i].value, &vs[i].name);
        out.append(line.as_str());
        proof {
            assert(vs@.subrange(0, i + 1).drop_last() =~= vs@.subrange(0, i as int));
        }
        i += 1;
        assert(out@ =~= start + variant_arms(kind@, vs@.subrange(0, i as int)));
    }
    assert(vs@.subrange(0, i as int) =~= vs@);
}

fn append_alias_lines(out: &mut String, kind: &String, vs: &Vec<Variant>, als: &Vec<Alias>)
    requires
        forall|a: int| 0 <= a < als@.len() ==> #[trigger] als@[a].target < vs@.len(),
    ensures
        final(out)@ == old(out)@ + alias_lines(kind@, vs@, als@),
{
    let ghost start = out@;
    let mut i: usize = 0;
    assert(als@.subrange(0, 0) =~= Seq::<Alias>::empty());
    while i < als.len()
        invariant
            i <= als@.len(),
            forall|a: int| 0 <= a < als@.len() ==> #[trigger] als@[a].target < vs@.len(),
            out@ == start + alias_lines(kind@, vs@, als@.subrange(0, i as int)),
        decreases als@.len() - i,
    {
        let al = &als[i];
        let mut line = String::from_str("    pub const ");
        line.append(al.name.as_str());
        line.append(": ");
        line.append(kind.as_str());
        line.append(" = ");
        line.append(kind.as_str());
        line.append("::");
        line.append(vs[al.target].name.as_str());
        line.append(";\n");
        out.append(line.as_str());
        proof {
            assert(als@.subrange(0, i + 1).drop_last() =~= als@.subrange(0, i as int));
        }
        i += 1;
        assert(out@ =~= start + alias_lines(kind@, vs@, als@.subrange(0, i as int)));
    }
    assert(als@.subrange(0, i as int) =~= als@);
}

fn append_member_list(out: &mut String, kind: &String, vs: &Vec<Variant>, ms: &Vec<usize>)
    requires
        forall|m: int| 0 <= m < ms@.len() ==> #[trigger] ms@[m] < vs@.len(),
    ensures
        final(out)@ == old(out)@ + member_list(kind@, vs@, ms@),
{
    let ghost start = out@;
    let mut i: usize = 0;
    assert(ms@.subrange(0, 0) =~= Seq::<usize>::empty());
    while i < ms.len()
        invariant
            i <= ms@.len(),
            forall|m: int| 0 <= m < ms@.len() ==> #[trigger] ms@[m] < vs@.len(),
            out@ == start + member_list(kind@, vs@, ms@.subrange(0, i as int)),
        decreases ms@.len() - i,
    {
        let mut piece = if i == 0 {
            String::new()
        } else {
            String::from_str(" | ")
        };
        piece.append(kind.as_str());
        piece.append("::");
        piece.append(vs[ms[i]].name.as_str());
        out.append(piece.as_str());
        proof {
            assert(ms@.subrange(0, i + 1).drop_last() =~= ms@.subrange(0, i as int));
        }
        i += 1;
        assert(out@ =~= start + member_list(kind@, vs@, ms@.subrange(0, i as int)));
    }
    assert(ms@.subrange(0, i as int) =~= ms@);
}

fn append_capability_list(out: &mut String, cs: &Vec<String>)
    ensures
        final(out)@ == old(out)@ + capability_list(names_view(cs@)),
{
    let ghost start = out@;
    let mut i: usize = 0;
    assert(names_view(cs@.subrange(0, 0)) =~= Seq::<Seq<char>>::empty());
    while i < cs.len()
        invariant
            i <= cs@.len(),
            out@ == start + capability_list(names_view(cs@.subrange(0, i as int))),
        decreases cs@.len() - i,
    {
        let mut piece = if i == 0 {
            String::from_str("Capability::")
        } else {
            String::from_str(", Capability::")
        };
        piece.append(cs[i].as_str());
        out.append(piece.as_str());
        proof {
            assert(names_view(cs@.subrange(0, i + 1)).drop_last() =~= names_view(cs@.subrange(0, i as int)));
        }
        i += 1;
        assert(out@ =~= start + capability_list(names_view(cs@.subrange(0, i as int))));
    }
    assert(cs@.subrange(0, i as int) =~= cs@);
}

fn append_group_arms(out: &mut String, kind: &String, vs: &Vec<Variant>, gs: &Vec<CapGroup>)
    requires
        forall|g: int, m: int|
            0 <= g < gs@.len() && 0 <= m < gs@[g].members@.len() ==> #[trigger] gs@[g].members@[m] < vs@.len(),
    ensures
        final(out)@ == old(out)@ + group_arms(kind@, vs@, gs@),
{
    let ghost start = out@;
    let mut i: usize = 0;
    assert(gs@.subrange(0, 0) =~= Seq::<CapGroup>::empty());
    while i < gs.len()
        invariant
            i <= gs@.len(),
            forall|g: int, m: int|
                0 <= g < gs@.len() && 0 <= m < gs@[g].members@.len() ==> #[trigger] gs@[g].members@[m] < vs@.len(),
            out@ == start + group_arms(kind@, vs@, gs@.subrange(0, i as int)),
        decreases gs@.len() - i,
    {
        let g = &gs[i];
        let mut line = String::from_str("            ");
        assert(forall|m: int| 0 <= m < g.members@.len() ==> #[trigger] g.members@[m] < vs@.len()) by {
            assert(forall|m: int| 0 <= m < g.members@.len() ==> gs@[i as int].members@[m] == #[trigger] g.members@[m]);
        }
        append_member_list(&mut line, kind, vs, &g.members);
        line.append(" => &[");
        append_capability_list(&mut line, &g.capabilities);
        line.append("],\n");
        out.append(line.as_str());
        proof {
            assert(gs@.subrange(0, i + 1).drop_last() =~= gs@.subrange(0, i as int));
        }
        i += 1;
        assert(out@ =~= start + group_arms(kind@, vs@, gs@.subrange(0, i as int)));
    }
    assert(gs@.subrange(0, i as int) =~= gs@);
}

/// Returns the text of the closed-enumeration kind named `kind`, analysed as
/// `ve`: its canonical variants, its alias bindings, its capability lookup
/// and its decode procedure.
pub fn render_value_enum(kind: &String, ve: &ValueEnum) -> (r: String)
    requires
        ve.indexes_ok(),
    ensures
        r@ == value_enum_text(kind@, *ve),
{
    let mut r = String::from_str("#[doc = \"SPIR-V operand kind: ");
    let link = get_spec_link(kind.as_str());
    r.append(link.as_str());
    r.append("\"]\n");
    let attribute = value_enum_attribute();
    r.append(attribute.as_str());
    r.append("pub enum ");
    r.append(kind.as_str());
    r.append(" {\n");
    append_variant_lines(&mut r, &ve.variants);
    r.append("}\n\n#[allow(non_upper_case_globals)]\nimpl ");
    r.append(kind.as_str());
    r.append(" {\n");
    append_alias_lines(&mut r, kind, &ve.variants, &ve.aliases);
    r.append("    pub fn required_capabilities(self) -> &'static [Capability] {\n        match self {\n");
    append_group_arms(&mut r, kind, &ve.variants, &ve.groups);
    r.append("        }\n    }\n}\n\n");
    let ghost before = r@;
    append_from_primitive_head(&mut r, kind);
    append_variant_arms(&mut r, kind, &ve.variants);
    append_from_primitive_tail(&mut r);
    assert(r@ =~= before + from_primitive_text(kind@, variant_arms(kind@, ve.variants@)));
    r
}

} // verus!
