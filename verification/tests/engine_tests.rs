use genere::GenError;
use genere::Gender;
use genere::Generator;

/// Memoization: every `{x}` reference inside one run yields the same text,
/// whatever the seed picked.
#[test]
fn memoized_references_are_identical() {
    let mut gen = Generator::new();
    gen.add("x", &["a", "b", "c"]).unwrap();
    gen.add("main", &["{x}{x}{x}{x}{x}{x}"]).unwrap();
    for seed in 0..32u64 {
        let s = gen.instantiate_from_seed("main", seed).unwrap();
        let cs: Vec<char> = s.chars().collect();
        assert_eq!(cs.len(), 6);
        assert!(cs.iter().all(|c| *c == cs[0]));
    }
}

/// Fresh draws: `{{x}}` re-draws independently, so over enough seeds two
/// references differ at least once.
#[test]
fn fresh_references_can_differ() {
    let mut gen = Generator::new();
    gen.add("x", &["a", "b"]).unwrap();
    gen.add("main", &["{{x}}{{x}}{{x}}{{x}}{{x}}{{x}}{{x}}{{x}}"]).unwrap();
    let mut saw_difference = false;
    for seed in 0..64u64 {
        let s = gen.instantiate_from_seed("main", seed).unwrap();
        let cs: Vec<char> = s.chars().collect();
        assert_eq!(cs.len(), 8);
        if cs.iter().any(|c| *c != cs[0]) {
            saw_difference = true;
        }
    }
    assert!(saw_difference);
}

/// A fresh draw starts from the pre-seeded values, not from the enclosing
/// run's memo: a pre-seeded symbol has empty content in both.
#[test]
fn fresh_draw_starts_from_preseeded_values() {
    let mut gen = Generator::new();
    gen.add("x", &["never drawn"]).unwrap();
    gen.set_gender("x", Gender::Male);
    gen.add("main", &["<{x}|{{x}}>"]).unwrap();
    assert_eq!(&gen.instantiate("main").unwrap(), "<|>");
}

/// Determinism across distinct seeds too: each seed always maps to the
/// same output.
#[test]
fn seeded_runs_are_reproducible() {
    let mut gen = Generator::new();
    gen.add("name", &["John", "Johana", "Vivienne", "Eric"]).unwrap();
    gen.add("class", &["mage", "warrior", "thief"]).unwrap();
    gen.add("main", &["{name} the {class} and {{name}} the {{class}}"]).unwrap();
    for seed in 0..16u64 {
        let a = gen.instantiate_from_seed("main", seed).unwrap();
        let b = gen.instantiate_from_seed("main", seed).unwrap();
        assert_eq!(a, b);
    }
}

/// The documented gender-propagation scenario: never a cross-combination.
#[test]
fn gender_propagation() {
    let json = r#"
{
   "hero": ["John[m]", "Joan[f]"],
   "job[hero]": ["wizard/witch"],
   "main[hero]": ["{hero}. He/She is a {job}."]
}"#;
    let mut gen = Generator::new();
    gen.add_json(json).unwrap();
    for seed in 0..16u64 {
        let result = gen.instantiate_from_seed("main", seed).unwrap();
        assert!(
            &result == "John. He is a wizard." || &result == "Joan. She is a witch.",
            "unexpected combination: {}",
            result
        );
    }
    let result = gen.instantiate("main").unwrap();
    assert!(&result == "John. He is a wizard." || &result == "Joan. She is a witch.");
}

/// Median-point arity: two joined parts.
#[test]
fn median_point_two_parts() {
    let mut gen = Generator::new();
    gen.add("who", &["[m]"]).unwrap();
    gen.add("main[who]", &["ami·e"]).unwrap();
    assert_eq!(&gen.instantiate("main").unwrap(), "ami");
    gen.add("who", &["[f]"]).unwrap();
    assert_eq!(&gen.instantiate("main").unwrap(), "amie");
    gen.add("who", &["[n]"]).unwrap();
    assert_eq!(&gen.instantiate("main").unwrap(), "ami/amie");
}

/// Median-point arity: three joined parts.
#[test]
fn median_point_three_parts() {
    let mut gen = Generator::new();
    gen.add("who", &["[m]"]).unwrap();
    gen.add("main[who]", &["sorci·er·ère"]).unwrap();
    assert_eq!(&gen.instantiate("main").unwrap(), "sorcier");
    gen.add("who", &["[f]"]).unwrap();
    assert_eq!(&gen.instantiate("main").unwrap(), "sorcière");
    gen.add("who", &["[n]"]).unwrap();
    assert_eq!(&gen.instantiate("main").unwrap(), "sorcier/sorcière");
}

/// Median-point arity: four joined parts, the last shared by both forms.
#[test]
fn median_point_four_parts() {
    let mut gen = Generator::new();
    gen.add("who", &["[m]"]).unwrap();
    gen.add("main[who]", &["travailleu·r·se·s"]).unwrap();
    assert_eq!(&gen.instantiate("main").unwrap(), "travailleurs");
    gen.add("who", &["[f]"]).unwrap();
    assert_eq!(&gen.instantiate("main").unwrap(), "travailleuses");
    gen.add("who", &["[n]"]).unwrap();
    assert_eq!(&gen.instantiate("main").unwrap(), "travailleurs/travailleuses");
}

/// The slash form without a neutral branch reconstructs itself under a
/// neutral gender; an explicit third branch is used instead.
#[test]
fn slash_neutral_fallback() {
    let mut gen = Generator::new();
    gen.add("main", &["il/elle"]).unwrap();
    assert_eq!(&gen.instantiate("main").unwrap(), "il/elle");
    gen.add("other", &["il/elle/iel"]).unwrap();
    assert_eq!(&gen.instantiate("other").unwrap(), "iel");
}

/// A symbol defined with no candidate resolves to empty text.
#[test]
fn empty_candidate_list() {
    let mut gen = Generator::new();
    gen.add("e", &[]).unwrap();
    assert_eq!(&gen.instantiate("e").unwrap(), "");
}

/// Redefining a symbol overwrites the earlier rule.
#[test]
fn redefinition_overwrites() {
    let mut gen = Generator::new();
    gen.add("x", &["old"]).unwrap();
    gen.add("x", &["new"]).unwrap();
    assert_eq!(&gen.instantiate("x").unwrap(), "new");
}

#[test]
fn unknown_symbol_error() {
    let gen = Generator::new();
    let e = gen.instantiate("nope").unwrap_err();
    assert!(matches!(e, GenError::UnknownSymbol(_)));
}

#[test]
fn cyclic_dependency_error() {
    let mut gen = Generator::new();
    gen.add("a[b]", &["Foo"]).unwrap();
    gen.add("b[a]", &["Bar"]).unwrap();
    let e = gen.instantiate("a").unwrap_err();
    assert!(matches!(e, GenError::CyclicDependency(_)));
}

#[test]
fn multiple_gender_markers_error() {
    let mut gen = Generator::new();
    gen.add("x", &["John[m][f]"]).unwrap();
    let e = gen.instantiate("x").unwrap_err();
    assert!(matches!(e, GenError::MultipleGenderMarkers(_, _)));
}

/// A fresh reference that re-enters its own symbol never terminates in
/// spirit; the engine's budget refuses it instead of overflowing.
#[test]
fn recursion_limit_error() {
    let mut gen = Generator::new();
    gen.add("a", &["{{a}}"]).unwrap();
    let e = gen.instantiate("a").unwrap_err();
    assert!(matches!(e, GenError::RecursionLimit(_)));
}

#[test]
fn malformed_table_error() {
    let mut gen = Generator::new();
    let e = gen.add_json("this is not a table").unwrap_err();
    assert!(matches!(e, GenError::MalformedTable));
    let e = gen.add_json(r#"{"x": "not an array"}"#).unwrap_err();
    assert!(matches!(e, GenError::MalformedTable));
}

/// Loading a table from JSON feeds the same engine as direct definition.
#[test]
fn add_json_then_instantiate() {
    let json = r#"
{
   "greeting": ["hello"],
   "main": ["{greeting} world"]
}"#;
    let mut gen = Generator::new();
    gen.add_json(json).unwrap();
    assert_eq!(&gen.instantiate("main").unwrap(), "hello world");
}

/// Escaped syntax characters never trigger a rewrite pass: the sentinel
/// tokens they become collide with no reference or gender-form pattern,
/// and decoding restores them in the final output.
#[test]
fn escaped_characters_survive_instantiation() {
    let mut gen = Generator::new();
    gen.add("x", &["~{a~} ~[b~] a~/b c~·d ~~"]).unwrap();
    assert_eq!(&gen.instantiate("x").unwrap(), "{a} [b] a/b c·d ~");
}

/// Text with reserved characters but no escape marker is untouched by the
/// codec round trip.
#[test]
fn codec_identity_without_marker() {
    let s = String::from("a[b]{c}/d·e f");
    let out = Generator::post_process(Generator::pre_process(s.clone()));
    assert_eq!(s, out);
}
