use spirv_autogen::grammar::{Category, Enumerant, ExtInstSetGrammar, Grammar, Instruction, OperandKind};
use spirv_autogen::header::{gen_glsl_std_450_opcodes, gen_opencl_std_opcodes, gen_operand_kind, gen_spirv_header};
use spirv_autogen::render::{gen_bit_enum_operand_kind, value_enum_attribute};
use spirv_autogen::text::{fix_nan_text, get_spec_link, make_bit_symbol};

fn en(symbol: &str, value: u32, caps: &[&str]) -> Enumerant {
    Enumerant {
        symbol: symbol.to_string(),
        value,
        capabilities: caps.iter().map(|c| c.to_string()).collect(),
    }
}

fn inst(opname: &str, opcode: u32) -> Instruction {
    Instruction { opname: opname.to_string(), opcode }
}

fn grammar() -> Grammar {
    Grammar {
        magic_number: 0x07230203,
        major_version: 1,
        minor_version: 5,
        revision: 4,
        operand_kinds: vec![
            OperandKind {
                category: Category::BitEnum,
                kind: "FPFastMathMode".to_string(),
                enumerants: vec![en("None", 0, &[]), en("NotNaN", 1, &[]), en("NotInf", 2, &[])],
            },
            OperandKind { category: Category::Id, kind: "IdRef".to_string(), enumerants: vec![] },
            OperandKind {
                category: Category::ValueEnum,
                kind: "SourceLanguage".to_string(),
                enumerants: vec![en("Unknown", 0, &[]), en("ESSL", 1, &["Shader"]), en("Essl", 1, &[])],
            },
        ],
        instructions: vec![inst("OpNop", 0), inst("OpUndef", 1)],
    }
}

const LINK_SOURCE_LANGUAGE: &str = "[SourceLanguage](https://www.khronos.org/registry/spir-v/specs/unified1/SPIRV.html#_a_id_source_language_a_source_language)";

#[test]
fn spec_link_uses_snake_case() {
    assert_eq!(get_spec_link("SourceLanguage"), LINK_SOURCE_LANGUAGE);
}

#[test]
fn nan_is_kept_whole() {
    assert_eq!(make_bit_symbol("NotNaN"), "NOT_NAN");
    assert_eq!(make_bit_symbol("NotInf"), "NOT_INF");
    assert_eq!(fix_nan_text("NA_NA_N"), "NANA_N");
    assert_eq!(fix_nan_text("XNA_N"), "XNAN");
    assert_eq!(fix_nan_text("NA_"), "NA_");
    assert_eq!(fix_nan_text(""), "");
}

#[test]
fn bit_enum_text_is_exact() {
    let g = grammar();
    let t = gen_bit_enum_operand_kind(&g.operand_kinds[0]);
    let expected = "bitflags! {\n    #[doc = \"SPIR-V operand kind: [FPFastMathMode](https://www.khronos.org/registry/spir-v/specs/unified1/SPIRV.html#_a_id_fp_fast_math_mode_a_fp_fast_math_mode)\"]\n    pub struct FPFastMathMode: u32 {\n        const NONE = 0;\n        const NOT_NAN = 1;\n        const NOT_INF = 2;\n    }\n}\n";
    assert_eq!(t, expected);
}

#[test]
fn other_categories_are_skipped() {
    let g = grammar();
    assert_eq!(gen_operand_kind(&g.operand_kinds[1]), None);
    assert!(gen_operand_kind(&g.operand_kinds[0]).is_some());
}

fn value_enum_expected() -> String {
    format!(
        "#[doc = \"SPIR-V operand kind: {}\"]\n{}pub enum SourceLanguage {{\n    Unknown = 0,\n    ESSL = 1,\n}}\n\n#[allow(non_upper_case_globals)]\nimpl SourceLanguage {{\n    pub const Essl: SourceLanguage = SourceLanguage::ESSL;\n    pub fn required_capabilities(self) -> &'static [Capability] {{\n        match self {{\n            SourceLanguage::Unknown => &[],\n            SourceLanguage::ESSL => &[Capability::Shader],\n        }}\n    }}\n}}\n\nimpl num_traits::FromPrimitive for SourceLanguage {{\n    #[allow(trivial_numeric_casts)]\n    fn from_i64(n: i64) -> Option<Self> {{\n        match n as u32 {{\n            0 => Some(SourceLanguage::Unknown),\n            1 => Some(SourceLanguage::ESSL),\n            _ => None,\n        }}\n    }}\n\n    fn from_u64(n: u64) -> Option<Self> {{\n        Self::from_i64(n as i64)\n    }}\n}}\n",
        LINK_SOURCE_LANGUAGE,
        value_enum_attribute()
    )
}

#[test]
fn value_enum_text_is_exact() {
    let g = grammar();
    let t = gen_operand_kind(&g.operand_kinds[2]).unwrap();
    assert_eq!(t, value_enum_expected());
}

#[test]
fn header_starts_with_constants_and_ends_with_opcodes() {
    let t = gen_spirv_header(&grammar());
    assert!(t.starts_with(
        "pub type Word = u32;\npub const MAGIC_NUMBER: u32 = 0x07230203;\npub const MAJOR_VERSION: u8 = 1;\npub const MINOR_VERSION: u8 = 5;\npub const REVISION: u8 = 4;\n\nbitflags! {"
    ));
    assert!(t.contains(&value_enum_expected()));
    assert!(t.contains("pub enum Op {\n    Nop = 0,\n    Undef = 1,\n}\n"));
    assert!(t.contains("            1 => Some(Op::Undef),\n"));
    assert!(!t.contains("IdRef"));
}

#[test]
fn generation_is_deterministic() {
    let g = grammar();
    assert_eq!(gen_spirv_header(&g), gen_spirv_header(&g.clone()));
    let ext = ExtInstSetGrammar { instructions: vec![inst("Round", 1), inst("Sqrt", 31)] };
    assert_eq!(gen_glsl_std_450_opcodes(&ext), gen_glsl_std_450_opcodes(&ext));
}

#[test]
fn extended_sets_have_their_own_enumerations() {
    let ext = ExtInstSetGrammar { instructions: vec![inst("Round", 1), inst("Sqrt", 31)] };
    let gl = gen_glsl_std_450_opcodes(&ext);
    assert!(gl.starts_with("#[doc = \"[GLSL.std.450](https://www.khronos.org/registry/spir-v/specs/unified1/GLSL.std.450.html) extended instruction opcode\"]\n"));
    assert!(gl.contains("pub enum GLOp {\n    Round = 1,\n    Sqrt = 31,\n}\n"));
    assert!(gl.contains("            31 => Some(GLOp::Sqrt),\n            _ => None,\n"));
    let cl = gen_opencl_std_opcodes(&ext);
    assert!(cl.contains("pub enum CLOp {\n    Round = 1,\n    Sqrt = 31,\n}\n"));
    assert!(cl.contains("impl num_traits::FromPrimitive for CLOp {"));
    assert!(!cl.contains("GLOp"));
}
