use spirv_autogen::grammar::{Category, Enumerant, OperandKind};
use spirv_autogen::order::{names_less, str_less};
use spirv_autogen::value_enum::{make_variant_name, same_names, ValueEnum};

fn en(symbol: &str, value: u32, caps: &[&str]) -> Enumerant {
    Enumerant {
        symbol: symbol.to_string(),
        value,
        capabilities: caps.iter().map(|c| c.to_string()).collect(),
    }
}

fn kind(name: &str, category: Category, enumerants: Vec<Enumerant>) -> OperandKind {
    OperandKind { category, kind: name.to_string(), enumerants }
}

fn sample() -> OperandKind {
    kind(
        "StorageClass",
        Category::ValueEnum,
        vec![
            en("UniformConstant", 0, &[]),
            en("Input", 1, &[]),
            en("Uniform", 2, &["Shader"]),
            en("Output", 3, &["Shader"]),
            en("Workgroup", 4, &[]),
            en("CallableDataNV", 5328, &["RayTracingNV"]),
            en("CallableDataKHR", 5328, &["RayTracingNV"]),
            en("InputOutput", 1, &["Other"]),
        ],
    )
}

#[test]
fn first_declared_is_canonical_and_later_ones_alias() {
    let ve = ValueEnum::analyze(&sample());
    let names: Vec<&str> = ve.variants.iter().map(|v| v.name.as_str()).collect();
    assert_eq!(names, vec!["UniformConstant", "Input", "Uniform", "Output", "Workgroup", "CallableDataNV"]);
    let sources: Vec<usize> = ve.variants.iter().map(|v| v.source).collect();
    assert_eq!(sources, vec![0, 1, 2, 3, 4, 5]);
    assert_eq!(ve.aliases.len(), 2);
    assert_eq!(ve.aliases[0].name, "CallableDataKHR");
    assert_eq!(ve.aliases[0].source, 6);
    assert_eq!(ve.variants[ve.aliases[0].target].name, "CallableDataNV");
    assert_eq!(ve.aliases[1].name, "InputOutput");
    assert_eq!(ve.variants[ve.aliases[1].target].name, "Input");
}

#[test]
fn decode_returns_canonical_variant_or_none() {
    let ve = ValueEnum::analyze(&sample());
    assert_eq!(ve.decode(5328), Some(5));
    assert_eq!(ve.decode(1), Some(1));
    assert_eq!(ve.decode(0), Some(0));
    assert_eq!(ve.decode(7), None);
    assert_eq!(ve.decode(u32::MAX), None);
}

#[test]
fn capability_groups_partition_variants() {
    let ve = ValueEnum::analyze(&sample());
    assert_eq!(ve.groups.len(), 3);
    assert!(ve.groups[0].capabilities.is_empty());
    assert_eq!(ve.groups[0].members, vec![0, 1, 4]);
    assert_eq!(ve.groups[1].capabilities, vec!["RayTracingNV".to_string()]);
    assert_eq!(ve.groups[1].members, vec![5]);
    assert_eq!(ve.groups[2].capabilities, vec!["Shader".to_string()]);
    assert_eq!(ve.groups[2].members, vec![2, 3]);
    for a in 0..ve.variants.len() {
        let g = ve.capability_group(a).unwrap();
        assert!(ve.groups[g].members.contains(&a));
        let caps = ve.required_capabilities(a).unwrap();
        assert_eq!(caps, &ve.groups[g].capabilities);
    }
    assert_eq!(ve.capability_group(6), None);
}

#[test]
fn capability_lists_compare_in_order() {
    let a = vec!["A".to_string(), "B".to_string()];
    let b = vec!["B".to_string(), "A".to_string()];
    assert!(same_names(&a, &a.clone()));
    assert!(!same_names(&a, &b));
    assert!(!same_names(&a, &vec!["A".to_string()]));
    let k = kind(
        "K",
        Category::ValueEnum,
        vec![en("X", 0, &["A", "B"]), en("Y", 1, &["B", "A"]), en("Z", 2, &["A", "B"])],
    );
    let ve = ValueEnum::analyze(&k);
    assert_eq!(ve.groups.len(), 2);
    assert_eq!(ve.groups[0].members, vec![0, 2]);
    assert_eq!(ve.groups[1].members, vec![1]);
}

#[test]
fn dim_symbols_take_the_kind_prefix() {
    let k = kind("Dim", Category::ValueEnum, vec![en("1D", 0, &[]), en("2D", 1, &[]), en("Cube", 3, &["Shader"])]);
    let ve = ValueEnum::analyze(&k);
    let names: Vec<&str> = ve.variants.iter().map(|v| v.name.as_str()).collect();
    assert_eq!(names, vec!["Dim1D", "Dim2D", "DimCube"]);
    assert_eq!(make_variant_name(&"Other".to_string(), &"1D".to_string()), "1D");
}

#[test]
fn empty_kind_has_nothing() {
    let ve = ValueEnum::analyze(&kind("Empty", Category::ValueEnum, vec![]));
    assert!(ve.variants.is_empty());
    assert!(ve.aliases.is_empty());
    assert!(ve.groups.is_empty());
    assert_eq!(ve.decode(0), None);
}

#[test]
fn groups_follow_the_order_of_capability_lists() {
    let k = kind(
        "K",
        Category::ValueEnum,
        vec![en("X", 0, &["Shader"]), en("Y", 1, &[]), en("Z", 2, &["Kernel"]), en("W", 3, &["Shader", "Kernel"])],
    );
    let ve = ValueEnum::analyze(&k);
    let caps: Vec<Vec<String>> = ve.groups.iter().map(|g| g.capabilities.clone()).collect();
    assert_eq!(
        caps,
        vec![
            vec![],
            vec!["Kernel".to_string()],
            vec!["Shader".to_string()],
            vec!["Shader".to_string(), "Kernel".to_string()],
        ]
    );
    assert_eq!(ve.groups[0].members, vec![1]);
    assert_eq!(ve.groups[2].members, vec![0]);
}

#[test]
fn names_compare_by_code_point() {
    let s = |x: &str| x.to_string();
    assert!(str_less(&s("Kernel"), &s("Shader")));
    assert!(!str_less(&s("Shader"), &s("Kernel")));
    assert!(str_less(&s("Shader"), &s("ShaderNV")));
    assert!(!str_less(&s("Shader"), &s("Shader")));
    assert!(str_less(&s("Z"), &s("a")));
    assert!(str_less(&s(""), &s("A")));
    assert!(names_less(&vec![], &vec![s("A")]));
    assert!(names_less(&vec![s("A"), s("B")], &vec![s("B")]));
    assert!(names_less(&vec![s("A")], &vec![s("A"), s("B")]));
    assert!(!names_less(&vec![s("A"), s("B")], &vec![s("A"), s("B")]));
}
