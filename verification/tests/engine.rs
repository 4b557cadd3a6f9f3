use enum2str::has_only_unit_variants;
use enum2str::Arity;
use enum2str::CaseSpec;
use enum2str::EnumSpec;
use enum2str::EnumValue;
use enum2str::GenError;

fn unit_case(tag: &str) -> CaseSpec {
    CaseSpec {
        tag: tag.to_string(),
        arity: Arity::Unit,
        override_template: None,
        has_explicit_attribute: false,
    }
}

fn unit_case_override(tag: &str, template: &str) -> CaseSpec {
    CaseSpec {
        tag: tag.to_string(),
        arity: Arity::Unit,
        override_template: Some(template.to_string()),
        has_explicit_attribute: true,
    }
}

fn positional_case_override(tag: &str, count: usize, template: &str) -> CaseSpec {
    CaseSpec {
        tag: tag.to_string(),
        arity: Arity::Positional { count },
        override_template: Some(template.to_string()),
        has_explicit_attribute: true,
    }
}

fn named_case_override(tag: &str, fields: &[&str], template: &str) -> CaseSpec {
    CaseSpec {
        tag: tag.to_string(),
        arity: Arity::Named { fields: fields.iter().map(|f| f.to_string()).collect() },
        override_template: Some(template.to_string()),
        has_explicit_attribute: true,
    }
}

fn value(case: usize, args: &[&str]) -> EnumValue {
    EnumValue { case, args: args.iter().map(|a| a.to_string()).collect() }
}

fn color_spec() -> EnumSpec {
    EnumSpec {
        name: "Color".to_string(),
        cases: vec![unit_case("Green"), unit_case_override("Red", "Burgundy")],
    }
}

fn ambiguous_spec() -> EnumSpec {
    EnumSpec {
        name: "Signal".to_string(),
        cases: vec![
            unit_case_override("Stop", "X"),
            unit_case_override("Halt", "X"),
            unit_case("Go"),
        ],
    }
}

#[test]
fn validate_accepts_examples() {
    assert!(color_spec().validate().is_ok());
    assert!(ambiguous_spec().validate().is_ok());
    let shape = EnumSpec {
        name: "Shape".to_string(),
        cases: vec![positional_case_override("Circle", 1, "Circle with radius: {}")],
    };
    assert!(shape.validate().is_ok());
    let tagged = EnumSpec {
        name: "Tagged".to_string(),
        cases: vec![named_case_override("Pair", &["id", "label"], "{label}:{id}")],
    };
    assert!(tagged.validate().is_ok());
}

#[test]
fn validate_rejects_duplicate_tag() {
    let e = EnumSpec {
        name: "E".to_string(),
        cases: vec![unit_case("A"), unit_case("A")],
    };
    assert!(matches!(e.validate(), Err(GenError::DuplicateTag { .. })));
}

#[test]
fn validate_rejects_inconsistent_attribute() {
    let mut c = unit_case("A");
    c.has_explicit_attribute = true;
    let e = EnumSpec { name: "E".to_string(), cases: vec![c] };
    assert!(matches!(e.validate(), Err(GenError::InconsistentAttribute { .. })));
}

#[test]
fn validate_rejects_duplicate_field() {
    let e = EnumSpec {
        name: "E".to_string(),
        cases: vec![named_case_override("A", &["x", "x"], "{x}")],
    };
    assert!(matches!(e.validate(), Err(GenError::DuplicateField { .. })));
}

#[test]
fn validate_rejects_malformed_positional_template() {
    let e = EnumSpec {
        name: "E".to_string(),
        cases: vec![positional_case_override("A", 1, "}{}")],
    };
    assert!(matches!(e.validate(), Err(GenError::MalformedTemplate { .. })));
}

#[test]
fn validate_rejects_malformed_named_template() {
    let e = EnumSpec {
        name: "E".to_string(),
        cases: vec![named_case_override("A", &["x"], "{x}{")],
    };
    assert!(matches!(e.validate(), Err(GenError::MalformedTemplate { .. })));
}

#[test]
fn validate_rejects_placeholder_count_mismatch() {
    let e = EnumSpec {
        name: "E".to_string(),
        cases: vec![positional_case_override("A", 2, "only one: {}")],
    };
    assert!(matches!(e.validate(), Err(GenError::PlaceholderCountMismatch { .. })));
}

#[test]
fn validate_rejects_named_placeholder_in_positional() {
    let e = EnumSpec {
        name: "E".to_string(),
        cases: vec![positional_case_override("A", 2, "{a}{}")],
    };
    assert!(matches!(
        e.validate(),
        Err(GenError::NamedPlaceholderInPositional { .. })
    ));
}

#[test]
fn validate_rejects_unknown_placeholder() {
    let e = EnumSpec {
        name: "E".to_string(),
        cases: vec![named_case_override("A", &["x"], "{y}")],
    };
    assert!(matches!(e.validate(), Err(GenError::UnknownPlaceholder { .. })));
}

#[test]
fn validate_rejects_duplicate_placeholder() {
    let e = EnumSpec {
        name: "E".to_string(),
        cases: vec![named_case_override("A", &["x"], "{x}~{x}")],
    };
    assert!(matches!(e.validate(), Err(GenError::DuplicatePlaceholder { .. })));
}

#[test]
fn unit_default_renders_tag_and_parses_back() {
    let e = color_spec();
    let v = value(0, &[]);
    assert_eq!(e.render(&v), "Green");
    assert_eq!(e.parse("Green").unwrap(), v);
}

#[test]
fn unit_override_renders_text_and_parses_back() {
    let e = color_spec();
    let v = value(1, &[]);
    assert_eq!(e.render(&v), "Burgundy");
    assert_eq!(e.parse("Burgundy").unwrap(), v);
}

#[test]
fn unique_templates_round_trip_and_unknown_fails() {
    let e = color_spec();
    for case in 0..2 {
        let v = value(case, &[]);
        assert_eq!(e.parse(&e.render(&v)).unwrap(), v);
    }
    assert!(e.parse("Red").is_err());
    assert!(e.parse("").is_err());
}

#[test]
fn names_ignore_overrides() {
    let e = ambiguous_spec();
    assert_eq!(e.names(), vec!["Stop".to_string(), "Halt".to_string(), "Go".to_string()]);
}

#[test]
fn template_is_unsubstituted_for_every_shape() {
    let color = color_spec();
    assert_eq!(color.template(&value(0, &[])), "Green");
    assert_eq!(color.template(&value(1, &[])), "Burgundy");
    let shape = EnumSpec {
        name: "Shape".to_string(),
        cases: vec![positional_case_override("Circle", 1, "Circle with radius: {}")],
    };
    assert_eq!(shape.template(&value(0, &["9"])), "Circle with radius: {}");
    let tagged = EnumSpec {
        name: "Tagged".to_string(),
        cases: vec![named_case_override("Pair", &["id", "label"], "{label}:{id}")],
    };
    assert_eq!(tagged.template(&value(0, &["7", "k"])), "{label}:{id}");
}

#[test]
fn positional_default_template_is_placeholder() {
    let e = EnumSpec {
        name: "Wrapper".to_string(),
        cases: vec![CaseSpec {
            tag: "Item".to_string(),
            arity: Arity::Positional { count: 1 },
            override_template: None,
            has_explicit_attribute: false,
        }],
    };
    assert_eq!(e.template(&value(0, &["payload"])), "{}");
    assert_eq!(e.render(&value(0, &["payload"])), "payload");
}

#[test]
fn positional_arguments_follow_declared_order() {
    let e = EnumSpec {
        name: "Pairing".to_string(),
        cases: vec![positional_case_override("Two", 2, "{} then {}")],
    };
    let v = value(0, &["first", "second"]);
    assert_eq!(e.render(&v), "first then second");
    assert_eq!(e.arguments(&v), vec!["first".to_string(), "second".to_string()]);
}

#[test]
fn positional_without_marker_exposes_no_arguments() {
    let e = EnumSpec {
        name: "Opaque".to_string(),
        cases: vec![positional_case_override("Fixed", 3, "constant label")],
    };
    let v = value(0, &["1", "2", "3"]);
    assert_eq!(e.render(&v), "constant label");
    assert_eq!(e.arguments(&v).len(), 0);
}

#[test]
fn named_binding_follows_occurrence_order() {
    let e = EnumSpec {
        name: "Badge".to_string(),
        cases: vec![named_case_override("Unique", &["id", "label"], "Unique - {label}_{id}")],
    };
    let v = value(0, &["3", "x"]);
    assert_eq!(e.render(&v), "Unique - x_3");
    assert_eq!(e.arguments(&v), vec!["x".to_string(), "3".to_string()]);
}

#[test]
fn named_without_placeholders_is_constant_label() {
    let e = EnumSpec {
        name: "Paint".to_string(),
        cases: vec![named_case_override("Custom", &["_red"], "Custom Color")],
    };
    let v = value(0, &["8"]);
    assert_eq!(e.render(&v), "Custom Color");
    assert_eq!(e.arguments(&v).len(), 0);
}

#[test]
fn named_with_no_fields_parses_by_template() {
    let e = EnumSpec {
        name: "Marker".to_string(),
        cases: vec![named_case_override("Empty", &[], "the empty one")],
    };
    assert_eq!(e.render(&value(0, &[])), "the empty one");
    assert_eq!(e.parse("the empty one").unwrap(), value(0, &[]));
}

#[test]
fn circle_example_end_to_end() {
    let shape = EnumSpec {
        name: "Shape".to_string(),
        cases: vec![positional_case_override("Circle", 1, "Circle with radius: {}")],
    };
    let v = value(0, &["2"]);
    assert_eq!(shape.render(&v), "Circle with radius: 2");
    assert_eq!(shape.template(&v), "Circle with radius: {}");
    assert_eq!(shape.arguments(&v), vec!["2".to_string()]);
}

#[test]
fn parse_error_names_enum_and_input() {
    let e = color_spec();
    let err = e.parse("NotAColor").unwrap_err();
    assert_eq!(err.message(), "Invalid Color variant: NotAColor");
}

#[test]
fn parse_prefers_earlier_case_on_shared_key() {
    let e = ambiguous_spec();
    assert_eq!(e.parse("X").unwrap(), value(0, &[]));
}

#[test]
fn unit_only_detection() {
    assert!(has_only_unit_variants(&color_spec()));
    let shape = EnumSpec {
        name: "Shape".to_string(),
        cases: vec![positional_case_override("Circle", 1, "Circle with radius: {}")],
    };
    assert!(!has_only_unit_variants(&shape));
}

#[test]
fn duplicate_strings_report_template_and_tags() {
    let groups = ambiguous_spec().find_duplicate_strings();
    assert_eq!(groups.len(), 1);
    assert_eq!(groups[0].text, "X");
    assert_eq!(groups[0].tags, vec!["Stop".to_string(), "Halt".to_string()]);
    assert_eq!(color_spec().find_duplicate_strings().len(), 0);
}

#[test]
fn ambiguous_conversion_fails_for_every_input() {
    let e = ambiguous_spec();
    let expected = "Ambiguous string representation. The following strings are used by \
                    multiple variants: 'X' (used by Stop, Halt)";
    assert_eq!(e.try_from_text("X").unwrap_err(), expected);
    assert_eq!(e.try_from_text("Go").unwrap_err(), expected);
    assert_eq!(e.try_from_text("anything").unwrap_err(), expected);
}

#[test]
fn unambiguous_conversion_delegates_to_parse() {
    let e = color_spec();
    assert_eq!(e.try_from_text("Green").unwrap(), value(0, &[]));
    assert_eq!(e.try_from_text("Burgundy").unwrap(), value(1, &[]));
    assert_eq!(
        e.try_from_text("Red").unwrap_err(),
        "Invalid Color variant: Red"
    );
}

#[test]
fn empty_enum_has_no_names_and_rejects_everything() {
    let e = EnumSpec { name: "Empty".to_string(), cases: vec![] };
    assert!(e.validate().is_ok());
    assert_eq!(e.names().len(), 0);
    assert!(e.parse("").is_err());
    assert_eq!(e.parse("x").unwrap_err().message(), "Invalid Empty variant: x");
}

#[test]
fn empty_override_renders_empty_and_parses() {
    let e = EnumSpec {
        name: "Blank".to_string(),
        cases: vec![unit_case_override("Nothing", "")],
    };
    assert_eq!(e.render(&value(0, &[])), "");
    assert_eq!(e.parse("").unwrap(), value(0, &[]));
}
