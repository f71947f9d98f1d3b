use spirv_autogen::grammar::Instruction;
use spirv_autogen::opcodes::{entry_name_text, OpcodeTable};

fn inst(opname: &str, opcode: u32) -> Instruction {
    Instruction { opname: opname.to_string(), opcode }
}

#[test]
fn decode_finds_each_instruction_without_prefix() {
    let insts = vec![inst("OpNop", 0), inst("OpUndef", 1), inst("OpDecorate", 71), inst("OpMemberDecorate", 72)];
    let table = OpcodeTable::from_instructions(&insts, true);
    for (i, ins) in insts.iter().enumerate() {
        let k = table.decode(ins.opcode).unwrap();
        assert_eq!(k, i);
        assert_eq!(table.entries[k].name, &ins.opname[2..]);
    }
    assert_eq!(table.entries[2].name, "Decorate");
    assert_eq!(table.decode(5), None);
}

#[test]
fn extended_sets_keep_their_names() {
    let insts = vec![inst("Round", 1), inst("RoundEven", 2), inst("Trunc", 3)];
    let table = OpcodeTable::from_instructions(&insts, false);
    assert_eq!(table.entries[0].name, "Round");
    assert_eq!(table.decode(3), Some(2));
    assert_eq!(table.decode(0), None);
}

#[test]
fn duplicate_opcodes_decode_to_the_first() {
    let insts = vec![inst("OpA", 4), inst("OpB", 4)];
    let table = OpcodeTable::from_instructions(&insts, true);
    assert_eq!(table.decode(4), Some(0));
}

#[test]
fn prefix_is_two_characters() {
    assert_eq!(entry_name_text(&"OpTypeInt".to_string(), true), "TypeInt");
    assert_eq!(entry_name_text(&"Op".to_string(), true), "");
    assert_eq!(entry_name_text(&"OpTypeInt".to_string(), false), "OpTypeInt");
}
