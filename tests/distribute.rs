use rand::rngs::StdRng;
use rand::SeedableRng;
use rand_enum::decl::{
    parse_declaration, weight_from_literal, Attribute, DeclBody, Declaration, GenError,
    VariantDecl, WeightLit,
};
use rand_enum::emit::{emit_sampler, push_decimal};
use rand_enum::generate;
use rand_enum::literal::parse_decimal;
use rand_enum::resolve::{resolve_weights, type_of_suffix, IntType};

fn weight(tokens: &str) -> Attribute {
    Attribute::List { path: "weight".to_string(), tokens: tokens.to_string() }
}

fn variant(name: &str, attrs: Vec<Attribute>) -> VariantDecl {
    VariantDecl { name: name.to_string(), attrs }
}

fn weighted(name: &str, w: &str) -> VariantDecl {
    variant(name, vec![weight(w)])
}

fn enum_decl(name: &str, variants: Vec<VariantDecl>) -> Declaration {
    Declaration { name: name.to_string(), body: DeclBody::Enum { variants } }
}

fn rand_path() -> Option<String> {
    Some("rand".to_string())
}

fn colours() -> Declaration {
    enum_decl(
        "Colours",
        vec![weighted("Red", "1"), weighted("Green", "0"), weighted("Blue", "0")],
    )
}

fn counts(decl: &Declaration, trials: usize, seed: u64) -> Vec<usize> {
    let g = generate(decl, rand_path()).unwrap();
    let mut rng = StdRng::seed_from_u64(seed);
    let mut seen = vec![0usize; g.resolved.variants.len()];
    for _ in 0..trials {
        let i = g.resolved.sample_index(&mut rng).unwrap();
        seen[i] += 1;
    }
    seen
}

#[test]
fn test_get_rand_colour() {
    let g = generate(&colours(), rand_path()).unwrap();
    let mut rng = StdRng::seed_from_u64(1);
    let i = g.resolved.sample_index(&mut rng).unwrap();
    assert_eq!(g.resolved.variants[i].name, "Red");
}

#[test]
fn only_positive_weight_is_ever_drawn() {
    let seen = counts(&colours(), 10_000, 7);
    assert_eq!(seen, vec![10_000, 0, 0]);
}

#[test]
fn frequencies_follow_weights() {
    let decl = enum_decl("L", vec![weighted("A", "2"), weighted("B", "3"), weighted("C", "5")]);
    let seen = counts(&decl, 100_000, 42);
    let expected = [20_000i64, 30_000, 50_000];
    for k in 0..3 {
        assert!((seen[k] as i64 - expected[k]).abs() <= 1_000, "{:?}", seen);
    }
}

#[test]
fn all_zero_weights_fail() {
    let decl = enum_decl("Z", vec![weighted("X", "0"), weighted("Y", "0")]);
    assert_eq!(generate(&decl, rand_path()), Err(GenError::AllWeightsZero));
}

#[test]
fn empty_enum_has_no_positive_weight() {
    let decl = enum_decl("E", vec![]);
    assert_eq!(generate(&decl, rand_path()), Err(GenError::AllWeightsZero));
}

#[test]
fn explicit_one_is_reported_as_redundant() {
    let decl = enum_decl("D", vec![weighted("A", "1"), variant("B", vec![]), weighted("C", "4")]);
    let g = generate(&decl, rand_path()).unwrap();
    assert_eq!(g.resolved.redundant, vec![0]);
    assert_eq!(g.resolved.variants[0].weight, 1);
    assert_eq!(g.resolved.variants[1].weight, 1);
    assert_eq!(g.resolved.variants[2].weight, 4);
}

#[test]
fn omitted_weight_equals_written_one() {
    let omitted = enum_decl("O", vec![variant("A", vec![]), weighted("B", "3")]);
    let written = enum_decl("O", vec![weighted("A", "1"), weighted("B", "3")]);
    let a = generate(&omitted, rand_path()).unwrap();
    let b = generate(&written, rand_path()).unwrap();
    assert_eq!(a.code, b.code);
    assert_eq!(a.resolved.variants, b.resolved.variants);
    assert_eq!(a.resolved.weight_type, b.resolved.weight_type);
    assert!(a.resolved.redundant.is_empty());
    assert_eq!(b.resolved.redundant, vec![0]);
}

#[test]
fn empty_weight_argument_is_malformed() {
    let decl = enum_decl("M", vec![variant("A", vec![]), weighted("B", "")]);
    assert_eq!(
        generate(&decl, rand_path()),
        Err(GenError::MalformedWeightAnnotation { variant: 1, attr: 0 })
    );
}

#[test]
fn two_weight_arguments_are_malformed() {
    let decl = enum_decl("M", vec![weighted("A", "1, 2")]);
    assert_eq!(
        generate(&decl, rand_path()),
        Err(GenError::MalformedWeightAnnotation { variant: 0, attr: 0 })
    );
}

#[test]
fn non_numeric_weight_is_malformed() {
    let decl = enum_decl("M", vec![weighted("A", "heavy")]);
    assert_eq!(
        generate(&decl, rand_path()),
        Err(GenError::MalformedWeightAnnotation { variant: 0, attr: 0 })
    );
}

#[test]
fn negative_weight_is_malformed() {
    let decl = enum_decl("M", vec![weighted("A", "2"), weighted("B", "-1")]);
    assert_eq!(
        generate(&decl, rand_path()),
        Err(GenError::MalformedWeightAnnotation { variant: 1, attr: 0 })
    );
}

#[test]
fn non_list_attribute_is_unsupported() {
    let decl = enum_decl(
        "U",
        vec![variant("A", vec![weight("2"), Attribute::Path { path: "weight".to_string() }])],
    );
    assert_eq!(
        generate(&decl, rand_path()),
        Err(GenError::UnsupportedAnnotationShape { variant: 0, attr: 1 })
    );
    let decl = enum_decl(
        "U",
        vec![variant("A", vec![Attribute::NameValue { path: "doc".to_string() }])],
    );
    assert_eq!(
        generate(&decl, rand_path()),
        Err(GenError::UnsupportedAnnotationShape { variant: 0, attr: 0 })
    );
}

#[test]
fn struct_is_not_a_variant_type() {
    let decl = Declaration { name: "S".to_string(), body: DeclBody::Struct };
    assert_eq!(generate(&decl, rand_path()), Err(GenError::NotAVariantType));
    let decl = Declaration { name: "S".to_string(), body: DeclBody::Union };
    assert_eq!(parse_declaration(&decl), Err(GenError::NotAVariantType));
}

#[test]
fn missing_rand_crate_fails_first() {
    let decl = Declaration { name: "S".to_string(), body: DeclBody::Struct };
    assert_eq!(generate(&decl, None), Err(GenError::ExternalCrateUnresolvable));
}

#[test]
fn other_list_attributes_are_unsupported() {
    let other = Attribute::List { path: "serde".to_string(), tokens: "rename = \"x\"".to_string() };
    let decl = enum_decl("W", vec![variant("A", vec![weight("3"), other, weight("7")])]);
    assert_eq!(
        parse_declaration(&decl),
        Err(GenError::UnsupportedAnnotationShape { variant: 0, attr: 1 })
    );
    let foo = Attribute::List { path: "foo".to_string(), tokens: "x".to_string() };
    let decl = enum_decl("E", vec![variant("A", vec![foo])]);
    assert_eq!(
        generate(&decl, rand_path()),
        Err(GenError::UnsupportedAnnotationShape { variant: 0, attr: 0 })
    );
}

#[test]
fn second_weight_attribute_fails() {
    let decl = enum_decl("W", vec![weighted("A", "2"), variant("B", vec![weight("3"), weight("7")])]);
    assert_eq!(
        generate(&decl, rand_path()),
        Err(GenError::DuplicateWeightAnnotation { variant: 1, attr: 1 })
    );
}

#[test]
fn literal_to_weight() {
    let w = weight_from_literal(Some(("42".to_string(), "u16".to_string())), 3, 1).unwrap();
    assert_eq!(w, WeightLit { value: 42, suffix: "u16".to_string(), attr: 1 });
    assert_eq!(
        weight_from_literal(None, 3, 1),
        Err(GenError::MalformedWeightAnnotation { variant: 3, attr: 1 })
    );
    assert_eq!(
        weight_from_literal(Some(("-5".to_string(), String::new())), 0, 0),
        Err(GenError::MalformedWeightAnnotation { variant: 0, attr: 0 })
    );
}

#[test]
fn all_zero_is_reported_before_suffix_clash() {
    let decl = enum_decl("Z", vec![weighted("X", "0u8"), weighted("Y", "0i64")]);
    assert_eq!(generate(&decl, rand_path()), Err(GenError::AllWeightsZero));
}

#[test]
fn literal_forms_are_read_by_value() {
    let decl = enum_decl("H", vec![weighted("A", "0x10"), weighted("B", "1_000"), weighted("C", "0b11")]);
    let g = generate(&decl, rand_path()).unwrap();
    let w: Vec<u128> = g.resolved.variants.iter().map(|v| v.weight).collect();
    assert_eq!(w, vec![16, 1000, 3]);
}

#[test]
fn suffix_fixes_weight_type() {
    let decl = enum_decl("T", vec![variant("A", vec![]), weighted("B", "2u8"), weighted("C", "3")]);
    let g = generate(&decl, rand_path()).unwrap();
    assert_eq!(g.resolved.weight_type, IntType::U8);
    assert!(g.code.contains("(T::A, 1u8), (T::B, 2u8), (T::C, 3u8), "));
}

#[test]
fn default_weight_type_is_i32() {
    let decl = enum_decl("T", vec![weighted("A", "2")]);
    let g = generate(&decl, rand_path()).unwrap();
    assert_eq!(g.resolved.weight_type, IntType::I32);
}

#[test]
fn conflicting_suffixes_fail() {
    let decl = enum_decl("T", vec![weighted("A", "2u8"), weighted("B", "2u8"), weighted("C", "3i64")]);
    assert_eq!(generate(&decl, rand_path()), Err(GenError::ConflictingWeightType { variant: 2, attr: 0 }));
}

#[test]
fn unknown_suffix_is_malformed() {
    let decl = enum_decl("T", vec![weighted("A", "2foo")]);
    assert_eq!(
        generate(&decl, rand_path()),
        Err(GenError::MalformedWeightAnnotation { variant: 0, attr: 0 })
    );
}

#[test]
fn emitted_code_is_exact() {
    let decl = enum_decl("Colours", vec![weighted("Red", "1"), weighted("Green", "0")]);
    let g = generate(&decl, Some("rand".to_string())).unwrap();
    let expected = "impl rand::distributions::Distribution<Colours> for rand::distributions::Standard {\n    fn sample<__R: rand::Rng + ?Sized>(&self, rng: &mut __R) -> Colours {\n        let mut items = vec![(Colours::Red, 1i32), (Colours::Green, 0i32), ];\n        let weight_dist = rand::distributions::WeightedIndex::new(items.iter().map(|(_, weight)| weight)).unwrap();\n        let index = rand::distributions::Distribution::sample(&weight_dist, rng);\n        items.swap_remove(index).0\n    }\n}\n";
    assert_eq!(g.code, expected);
    assert_eq!(emit_sampler("rand", "Colours", &g.resolved), expected);
}

#[test]
fn emitted_code_uses_found_crate_path() {
    let g = generate(&colours(), Some("crate".to_string())).unwrap();
    assert!(g.code.starts_with("impl crate::distributions::Distribution<Colours> for crate::distributions::Standard {"));
}

#[test]
fn reordering_moves_identity_not_weight() {
    let first = enum_decl("P", vec![weighted("A", "1"), weighted("B", "0"), weighted("C", "3")]);
    let second = enum_decl("P", vec![weighted("C", "3"), weighted("A", "1"), weighted("B", "0")]);
    let r1 = resolve_weights(&parse_declaration(&first).unwrap()).unwrap();
    let r2 = resolve_weights(&parse_declaration(&second).unwrap()).unwrap();
    assert_eq!(r2.variants[0], r1.variants[2]);
    assert_eq!(r2.variants[1], r1.variants[0]);
    assert_eq!(r2.variants[2], r1.variants[1]);
    let s1 = counts(&first, 40_000, 3);
    let s2 = counts(&second, 40_000, 3);
    assert_eq!(s1[1], 0);
    assert_eq!(s2[2], 0);
    assert!((s1[0] as i64 - s2[1] as i64).abs() <= 800);
    assert!((s1[2] as i64 - s2[0] as i64).abs() <= 800);
}

#[test]
fn decimal_parsing() {
    assert_eq!(parse_decimal(&"0".to_string()), Some(0));
    assert_eq!(parse_decimal(&"1207".to_string()), Some(1207));
    assert_eq!(parse_decimal(&"".to_string()), None);
    assert_eq!(parse_decimal(&"12a".to_string()), None);
    assert_eq!(parse_decimal(&u128::MAX.to_string()), Some(u128::MAX));
    assert_eq!(parse_decimal(&"340282366920938463463374607431768211456".to_string()), None);
}

#[test]
fn decimal_writing() {
    let mut s = "w=".to_string();
    push_decimal(&mut s, 0);
    assert_eq!(s, "w=0");
    let mut s = String::new();
    push_decimal(&mut s, 9081726354);
    assert_eq!(s, "9081726354");
    let mut s = String::new();
    push_decimal(&mut s, u128::MAX);
    assert_eq!(s, u128::MAX.to_string());
}

#[test]
fn suffix_names() {
    assert_eq!(type_of_suffix(&"usize".to_string()), Some(IntType::Usize));
    assert_eq!(type_of_suffix(&"i128".to_string()), Some(IntType::I128));
    assert_eq!(type_of_suffix(&"f32".to_string()), None);
    assert_eq!(IntType::U16.name(), "u16");
}

#[test]
fn overflowing_total_cannot_be_sampled() {
    let decl = enum_decl(
        "B",
        vec![weighted("A", "340282366920938463463374607431768211455"), weighted("B", "1")],
    );
    let g = generate(&decl, rand_path()).unwrap();
    let mut rng = StdRng::seed_from_u64(5);
    assert_eq!(g.resolved.sample_index(&mut rng), None);
}
