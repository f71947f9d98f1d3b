use spirv_autogen::dr::{Builder, Decoration, Op, Operand};

fn ids(ops: &[Operand]) -> String {
    format!("{:?}", ops)
}

#[test]
fn group_member_decorate_flattens_pairs() {
    let mut b = Builder::new();
    b.group_member_decorate(9, &[(5, 2), (7, 3)]);
    let inst = &b.module().annotations[0];
    assert_eq!(inst.class, Op::GroupMemberDecorate);
    assert_eq!(inst.result_type, None);
    assert_eq!(inst.result_id, None);
    assert_eq!(
        ids(&inst.operands),
        ids(&[Operand::IdRef(9), Operand::IdRef(5), Operand::LiteralInt32(2), Operand::IdRef(7), Operand::LiteralInt32(3)])
    );
}

#[test]
fn decorate_appends_extra_operands() {
    let mut b = Builder::new();
    let k = Decoration(30);
    b.decorate(3, k, &[Operand::LiteralInt32(4)]);
    let inst = &b.module().annotations[0];
    assert_eq!(inst.class, Op::Decorate);
    assert_eq!(inst.result_type, None);
    assert_eq!(inst.result_id, None);
    assert_eq!(ids(&inst.operands), ids(&[Operand::IdRef(3), Operand::Decoration(k), Operand::LiteralInt32(4)]));
}

#[test]
fn group_decorate_lists_targets() {
    let mut b = Builder::new();
    b.group_decorate(1, &[4, 6, 8]);
    b.group_decorate(2, &[]);
    let a = &b.module().annotations;
    assert_eq!(a.len(), 2);
    assert_eq!(ids(&a[0].operands), ids(&[Operand::IdRef(1), Operand::IdRef(4), Operand::IdRef(6), Operand::IdRef(8)]));
    assert_eq!(ids(&a[1].operands), ids(&[Operand::IdRef(2)]));
}

#[test]
fn member_decorations_and_call_order() {
    let mut b = Builder::new();
    b.member_decorate(10, 1, Decoration(35), &[Operand::LiteralInt32(16)]);
    b.decorate_id(11, Decoration(5634), &[Operand::IdRef(12)]);
    b.member_decorate_string_google(13, 0, Decoration(5635), &[Operand::LiteralString("semantic".to_string())]);
    b.subgroup_image_media_block_read_intel(20, 21, 22, 23, 24);
    let a = &b.module().annotations;
    assert_eq!(a.len(), 4);
    assert_eq!(a[0].class, Op::MemberDecorate);
    assert_eq!(
        ids(&a[0].operands),
        ids(&[Operand::IdRef(10), Operand::LiteralInt32(1), Operand::Decoration(Decoration(35)), Operand::LiteralInt32(16)])
    );
    assert_eq!(a[1].class, Op::DecorateId);
    assert_eq!(ids(&a[1].operands), ids(&[Operand::IdRef(11), Operand::Decoration(Decoration(5634)), Operand::IdRef(12)]));
    assert_eq!(a[2].class, Op::MemberDecorateStringGOOGLE);
    assert_eq!(
        ids(&a[2].operands),
        ids(&[
            Operand::IdRef(13),
            Operand::LiteralInt32(0),
            Operand::Decoration(Decoration(5635)),
            Operand::LiteralString("semantic".to_string()),
        ])
    );
    assert_eq!(a[3].class, Op::SubgroupImageMediaBlockReadINTEL);
    assert_eq!(a[3].result_type, None);
    assert_eq!(a[3].result_id, None);
    assert_eq!(
        ids(&a[3].operands),
        ids(&[Operand::IdRef(21), Operand::IdRef(22), Operand::IdRef(23), Operand::IdRef(24)])
    );
}

#[test]
fn malformed_combinations_are_accepted() {
    let mut b = Builder::new();
    b.decorate(0, Decoration(u32::MAX), &[Operand::LiteralInt64(1), Operand::IdRef(0)]);
    assert_eq!(b.module().annotations[0].operands.len(), 4);
}
