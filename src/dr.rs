//! Instruction records, modules, and the builder that appends annotation
//! instructions to a module's metadata section.
use vstd::prelude::*;

verus! {

/// A decoration kind, by its discriminator.
#[derive(Clone, Copy, Debug, PartialEq, Eq, Structural)]
pub struct Decoration(pub u32);

/// The opcodes of the instructions that the annotation builders emit.
#[derive(Clone, Copy, Debug, PartialEq, Eq, Structural)]
pub enum Op {
    Decorate,
    MemberDecorate,
    GroupDecorate,
    GroupMemberDecorate,
    DecorateId,
    SubgroupImageMediaBlockReadINTEL,
    MemberDecorateStringGOOGLE,
}

/// One operand of an instruction record.
#[derive(Clone, Debug)]
pub enum Operand {
    IdRef(u32),
    LiteralInt32(u32),
    LiteralInt64(u64),
    LiteralString(String),
    Decoration(Decoration),
}

/// What an operand holds, with strings as character sequences.
pub enum OperandView {
    IdRef(u32),
    LiteralInt32(u32),
    LiteralInt64(u64),
    LiteralString(Seq<char>),
    Decoration(Decoration),
}

impl View for Operand {
    type V = OperandView;

    open spec fn view(&self) -> OperandView {
        match self {
            Operand::IdRef(w) => OperandView::IdRef(*w),
            Operand::LiteralInt32(w) => OperandView::LiteralInt32(*w),
            Operand::LiteralInt64(w) => OperandView::LiteralInt64(*w),
            Operand::LiteralString(s) => OperandView::LiteralString(s@),
            Operand::Decoration(d) => OperandView::Decoration(*d),
        }
    }
}

impl Operand {
    /// A copy of the operand.
    pub fn duplicate(&self) -> (r: Operand)
        ensures
            r@ == self@,
    {
        match self {
            Operand::IdRef(w) => Operand::IdRef(*w),
            Operand::LiteralInt32(w) => Operand::LiteralInt32(*w),
            Operand::LiteralInt64(w) => Operand::LiteralInt64(*w),
            Operand::LiteralString(s) => Operand::LiteralString(s.clone()),
            Operand::Decoration(d) => Operand::Decoration(*d),
        }
    }
}

/// The view of a list of operands.
pub open spec fn operands_view(v: Seq<Operand>) -> Seq<OperandView> {
    v.map_values(|o: Operand| o@)
}

/// An instruction record.
#[derive(Debug)]
pub struct Instruction {
    pub class: Op,
    pub result_type: Option<u32>,
    pub result_id: Option<u32>,
    pub operands: Vec<Operand>,
}

/// What an instruction record holds.
pub struct InstructionView {
    pub class: Op,
    pub result_type: Option<u32>,
    pub result_id: Option<u32>,
    pub operands: Seq<OperandView>,
}

impl View for Instruction {
    type V = InstructionView;

    open spec fn view(&self) -> InstructionView {
        InstructionView {
            class: self.class,
            result_type: self.result_type,
            result_id: self.result_id,
            operands: operands_view(self.operands@),
        }
    }
}

impl Instruction {
    /// Creates an instruction record from its parts.
    pub fn new(class: Op, result_type: Option<u32>, result_id: Option<u32>, operands: Vec<Operand>) -> (r: Instruction)
        ensures
            r.class == class,
            r.result_type == result_type,
            r.result_id == result_id,
            r.operands@ == operands@,
    {
        Instruction { class, result_type, result_id, operands }
    }
}

/// A module; only its metadata section is modelled here.
#[derive(Debug)]
pub struct Module {
    pub annotations: Vec<Instruction>,
}

/// The view of a list of instruction records.
pub open spec fn instructions_view(v: Seq<Instruction>) -> Seq<InstructionView> {
    v.map_values(|i: Instruction| i@)
}

impl Module {
    pub open spec fn annotations_view(&self) -> Seq<InstructionView> {
        instructions_view(self.annotations@)
    }
}

/// The record an annotation builder appends: no result type, no result id.
pub open spec fn annotation(class: Op, operands: Seq<OperandView>) -> InstructionView {
    InstructionView { class, result_type: None, result_id: None, operands }
}

/// Builds the instructions of a module.
#[derive(Debug)]
pub struct Builder {
    pub module: Module,
}

/// Appends copies of `extra`, in order, to `ops`.
fn extend_operands(ops: &mut Vec<Operand>, extra: &[Operand])
    ensures
        operands_view(final(ops)@) == operands_view(old(ops)@) + operands_view(extra@),
{
    let ghost start = operands_view(ops@);
    let mut i: usize = 0;
    while i < extra.len()
        invariant
            i <= extra@.len(),
            operands_view(ops@) == start + operands_view(extra@.subrange(0, i as int)),
        decreases extra@.len() - i,
    {
        let ghost before = ops@;
        let x = extra[i].duplicate();
        ops.push(x);
        proof {
            assert(operands_view(ops@) =~= operands_view(before).push(x@));
            assert(extra@.subrange(0, i + 1) =~= extra@.subrange(0, i as int).push(extra@[i as int]));
            assert(operands_view(extra@.subrange(0, i + 1)) =~= operands_view(
                extra@.subrange(0, i as int),
            ).push(x@));
        }
        i += 1;
    }
    assert(extra@.subrange(0, i as int) =~= extra@);
}

/// The operands of a group decoration: one id reference per target.
pub open spec fn id_refs(targets: Seq<u32>) -> Seq<OperandView> {
    targets.map_values(|w: u32| OperandView::IdRef(w))
}

/// The operands of a group member decoration: each (id, index) pair as an id
/// reference followed by a literal.
pub open spec fn id_index_pairs(targets: Seq<(u32, u32)>) -> Seq<OperandView>
    decreases targets.len(),
{
    if targets.len() == 0 {
        Seq::empty()
    } else {
        id_index_pairs(targets.drop_last()) + seq![
            OperandView::IdRef(targets.last().0),
            OperandView::LiteralInt32(targets.last().1),
        ]
    }
}

impl Builder {
    /// A builder over an empty module.
    pub fn new() -> (r: Builder)
        ensures
            r.module.annotations@.len() == 0,
    {
        Builder { module: Module { annotations: Vec::new() } }
    }

    /// The module built so far.
    pub fn module(&self) -> (r: &Module)
        ensures
            r == &self.module,
    {
        &self.module
    }

    /// Appends an OpDecorate instruction.
    pub fn decorate(&mut self, target: u32, decoration: Decoration, additional_params: &[Operand])
        ensures
            final(self).module.annotations_view() == old(self).module.annotations_view().push(
                annotation(
                    Op::Decorate,
                    seq![OperandView::IdRef(target), OperandView::Decoration(decoration)]
                        + operands_view(additional_params@),
                ),
            ),
    {
        let mut inst = Instruction::new(
            Op::Decorate,
            None,
            None,
            vec![Operand::IdRef(target), Operand::Decoration(decoration)],
        );
        assert(operands_view(inst.operands@) =~= seq![OperandView::IdRef(target), OperandView::Decoration(decoration)]);
        extend_operands(&mut inst.operands, additional_params);
        self.module.annotations.push(inst);
        assert(self.module.annotations_view() =~= old(self).module.annotations_view().push(inst@));
    }

    /// Appends an OpMemberDecorate instruction.
    pub fn member_decorate(
        &mut self,
        structure_type: u32,
        member: u32,
        decoration: Decoration,
        additional_params: &[Operand],
    )
        ensures
            final(self).module.annotations_view() == old(self).module.annotations_view().push(
                annotation(
                    Op::MemberDecorate,
                    seq![
                        OperandView::IdRef(structure_type),
                        OperandView::LiteralInt32(member),
                        OperandView::Decoration(decoration),
                    ] + operands_view(additional_params@),
                ),
            ),
    {
        let mut inst = Instruction::new(
            Op::MemberDecorate,
            None,
            None,
            vec![
                Operand::IdRef(structure_type),
                Operand::LiteralInt32(member),
                Operand::Decoration(decoration),
            ],
        );
        assert(operands_view(inst.operands@) =~= seq![OperandView::IdRef(structure_type), OperandView::LiteralInt32(member), OperandView::Decoration(decoration)]);
        extend_operands(&mut inst.operands, additional_params);
        self.module.annotations.push(inst);
        assert(self.module.annotations_view() =~= old(self).module.annotations_view().push(inst@));
    }

    /// Appends an OpGroupDecorate instruction.
    pub fn group_decorate(&mut self, decoration_group: u32, targets: &[u32])
        ensures
            final(self).module.annotations_view() == old(self).module.annotations_view().push(
                annotation(
                    Op::GroupDecorate,
                    seq![OperandView::IdRef(decoration_group)] + id_refs(targets@),
                ),
            ),
    {
        let mut inst = Instruction::new(
            Op::GroupDecorate,
            None,
            None,
            vec![Operand::IdRef(decoration_group)],
        );
        let ghost start = operands_view(inst.operands@);
        let mut i: usize = 0;
        while i < targets.len()
            invariant
                i <= targets@.len(),
                inst.class == Op::GroupDecorate,
                inst.result_type.is_none(),
                inst.result_id.is_none(),
                start == seq![OperandView::IdRef(decoration_group)],
                operands_view(inst.operands@) == start + id_refs(targets@.subrange(0, i as int)),
            decreases targets@.len() - i,
        {
            let ghost before = inst.operands@;
            inst.operands.push(Operand::IdRef(targets[i]));
            proof {
                assert(operands_view(inst.operands@) =~= operands_view(before).push(
                    OperandView::IdRef(targets@[i as int]),
                ));
                assert(id_refs(targets@.subrange(0, i + 1)) =~= id_refs(
                    targets@.subrange(0, i as int),
                ).push(OperandView::IdRef(targets@[i as int])));
            }
            i += 1;
        }
        assert(targets@.subrange(0, i as int) =~= targets@);
        self.module.annotations.push(inst);
        assert(self.module.annotations_view() =~= old(self).module.annotations_view().push(inst@));
    }

    /// Appends an OpGroupMemberDecorate instruction.
    pub fn group_member_decorate(&mut self, decoration_group: u32, targets: &[(u32, u32)])
        ensures
            final(self).module.annotations_view() == old(self).module.annotations_view().push(
                annotation(
                    Op::GroupMemberDecorate,
                    seq![OperandView::IdRef(decoration_group)] + id_index_pairs(targets@),
                ),
            ),
    {
        let mut inst = Instruction::new(
            Op::GroupMemberDecorate,
            None,
            None,
            vec![Operand::IdRef(decoration_group)],
        );
        let ghost start = operands_view(inst.operands@);
        let mut i: usize = 0;
        while i < targets.len()
            invariant
                i <= targets@.len(),
                inst.class == Op::GroupMemberDecorate,
                inst.result_type.is_none(),
                inst.result_id.is_none(),
                start == seq![OperandView::IdRef(decoration_group)],
                operands_view(inst.operands@) == start + id_index_pairs(targets@.subrange(0, i as int)),
            decreases targets@.len() - i,
        {
            let (id, index) = targets[i];
            let ghost before = inst.operands@;
            inst.operands.push(Operand::IdRef(id));
            inst.operands.push(Operand::LiteralInt32(index));
            proof {
                let pair = seq![OperandView::IdRef(id), OperandView::LiteralInt32(index)];
                assert(operands_view(inst.operands@) =~= operands_view(before) + pair);
                assert(targets@.subrange(0, i + 1).drop_last() =~= targets@.subrange(0, i as int));
                assert(id_index_pairs(targets@.subrange(0, i + 1)) == id_index_pairs(
                    targets@.subrange(0, i as int),
                ) + pair);
            }
            i += 1;
        }
        assert(targets@.subrange(0, i as int) =~= targets@);
        self.module.annotations.push(inst);
        assert(self.module.annotations_view() =~= old(self).module.annotations_view().push(inst@));
    }

    /// Appends an OpDecorateId instruction.
    pub fn decorate_id(&mut self, target: u32, decoration: Decoration, additional_params: &[Operand])
        ensures
            final(self).module.annotations_view() == old(self).module.annotations_view().push(
                annotation(
                    Op::DecorateId,
                    seq![OperandView::IdRef(target), OperandView::Decoration(decoration)]
                        + operands_view(additional_params@),
                ),
            ),
    {
        let mut inst = Instruction::new(
            Op::DecorateId,
            None,
            None,
            vec![Operand::IdRef(target), Operand::Decoration(decoration)],
        );
        assert(operands_view(inst.operands@) =~= seq![OperandView::IdRef(target), OperandView::Decoration(decoration)]);
        extend_operands(&mut inst.operands, additional_params);
        self.module.annotations.push(inst);
        assert(self.module.annotations_view() =~= old(self).module.annotations_view().push(inst@));
    }

    /// Appends an OpSubgroupImageMediaBlockReadINTEL instruction. The record
    /// carries no result type and no result id.
    pub fn subgroup_image_media_block_read_intel(
        &mut self,
        result_type: u32,
        image: u32,
        coordinate: u32,
        width: u32,
        height: u32,
    )
        ensures
            final(self).module.annotations_view() == old(self).module.annotations_view().push(
                annotation(
                    Op::SubgroupImageMediaBlockReadINTEL,
                    seq![
                        OperandView::IdRef(image),
                        OperandView::IdRef(coordinate),
                        OperandView::IdRef(width),
                        OperandView::IdRef(height),
                    ],
                ),
            ),
    {
        let inst = Instruction::new(
            Op::SubgroupImageMediaBlockReadINTEL,
            None,
            None,
            vec![
                Operand::IdRef(image),
                Operand::IdRef(coordinate),
                Operand::IdRef(width),
                Operand::IdRef(height),
            ],
        );
        self.module.annotations.push(inst);
        assert(inst@.operands =~= seq![
            OperandView::IdRef(image),
            OperandView::IdRef(coordinate),
            OperandView::IdRef(width),
            OperandView::IdRef(height),
        ]);
        assert(self.module.annotations_view() =~= old(self).module.annotations_view().push(inst@));
    }

    /// Appends an OpMemberDecorateStringGOOGLE instruction.
    pub fn member_decorate_string_google(
        &mut self,
        struct_type: u32,
        member: u32,
        decoration: Decoration,
        additional_params: &[Operand],
    )
        ensures
            final(self).module.annotations_view() == old(self).module.annotations_view().push(
                annotation(
                    Op::MemberDecorateStringGOOGLE,
                    seq![
                        OperandView::IdRef(struct_type),
                        OperandView::LiteralInt32(member),
                        OperandView::Decoration(decoration),
                    ] + operands_view(additional_params@),
                ),
            ),
    {
        let mut inst = Instruction::new(
            Op::MemberDecorateStringGOOGLE,
            None,
            None,
            vec![
                Operand::IdRef(struct_type),
                Operand::LiteralInt32(member),
                Operand::Decoration(decoration),
            ],
        );
        assert(operands_view(inst.operands@) =~= seq![OperandView::IdRef(struct_type), OperandView::LiteralInt32(member), OperandView::Decoration(decoration)]);
        extend_operands(&mut inst.operands, additional_params);
        self.module.annotations.push(inst);
        assert(self.module.annotations_view() =~= old(self).module.annotations_view().push(inst@));
    }
}

} // verus!
