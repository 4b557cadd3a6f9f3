use enum2str::Arity;
use enum2str::CaseSpec;
use enum2str::EnumSpec;
use enum2str::EnumValue;

fn unit_case(tag: &str) -> CaseSpec {
    CaseSpec {
        tag: tag.to_string(),
        arity: Arity::Unit,
        override_template: None,
        has_explicit_attribute: false,
    }
}

fn unit_case_override(tag: &str, template: &str) -> CaseSpec {
    CaseSpec {
        tag: tag.to_string(),
        arity: Arity::Unit,
        override_template: Some(template.to_string()),
        has_explicit_attribute: true,
    }
}

fn positional_case(tag: &str, count: usize) -> CaseSpec {
    CaseSpec {
        tag: tag.to_string(),
        arity: Arity::Positional { count },
        override_template: None,
        has_explicit_attribute: false,
    }
}

fn positional_case_override(tag: &str, count: usize, template: &str) -> CaseSpec {
    CaseSpec {
        tag: tag.to_string(),
        arity: Arity::Positional { count },
        override_template: Some(template.to_string()),
        has_explicit_attribute: true,
    }
}

fn named_case(tag: &str, fields: &[&str]) -> CaseSpec {
    CaseSpec {
        tag: tag.to_string(),
        arity: Arity::Named { fields: fields.iter().map(|f| f.to_string()).collect() },
        override_template: None,
        has_explicit_attribute: false,
    }
}

fn named_case_override(tag: &str, fields: &[&str], template: &str) -> CaseSpec {
    CaseSpec {
        tag: tag.to_string(),
        arity: Arity::Named { fields: fields.iter().map(|f| f.to_string()).collect() },
        override_template: Some(template.to_string()),
        has_explicit_attribute: true,
    }
}

fn value(case: usize, args: &[&str]) -> EnumValue {
    EnumValue { case, args: args.iter().map(|a| a.to_string()).collect() }
}

/// Green, Red override "Burgundy", Blue { _hue }, Custom { _red, _green,
/// _blue } override "Custom Color", Unique { id, label } override
/// "Unique - {label}_{id}".
fn color_spec() -> EnumSpec {
    EnumSpec {
        name: "Color".to_string(),
        cases: vec![
            unit_case("Green"),
            unit_case_override("Red", "Burgundy"),
            named_case("Blue", &["_hue"]),
            named_case_override("Custom", &["_red", "_green", "_blue"], "Custom Color"),
            named_case_override("Unique", &["id", "label"], "Unique - {label}_{id}"),
        ],
    }
}

/// Generic(String), Complex(Color, Shape) override "Color: {}. Shape: {}.".
fn object_spec() -> EnumSpec {
    EnumSpec {
        name: "Object".to_string(),
        cases: vec![
            positional_case("Generic", 1),
            positional_case_override("Complex", 2, "Color: {}. Shape: {}."),
        ],
    }
}

/// Circle(u8) override "Circle with radius: {}".
fn shape_spec() -> EnumSpec {
    EnumSpec {
        name: "Shape".to_string(),
        cases: vec![positional_case_override("Circle", 1, "Circle with radius: {}")],
    }
}

/// SomeValue(u32) override "SomeString" (no placeholder).
fn special_spec() -> EnumSpec {
    EnumSpec {
        name: "SpecialEnum".to_string(),
        cases: vec![positional_case_override("SomeValue", 1, "SomeString")],
    }
}

#[test]
fn color_variant_names() {
    assert_eq!(
        color_spec().names(),
        vec![
            "Green".to_string(),
            "Red".to_string(),
            "Blue".to_string(),
            "Custom".to_string(),
            "Unique".to_string(),
        ]
    );
}

#[test]
fn object_variant_names() {
    assert_eq!(
        object_spec().names(),
        vec!["Generic".to_string(), "Complex".to_string()]
    );
}

#[test]
fn plain_to_string() {
    assert_eq!(color_spec().render(&value(2, &["3"])), "Blue");
}

#[test]
fn custom_to_string() {
    assert_eq!(color_spec().render(&value(3, &["8", "7", "6"])), "Custom Color");
}

#[test]
fn unique_to_string() {
    assert_eq!(
        color_spec().render(&value(4, &["3", "unique_color"])),
        "Unique - unique_color_3",
    );
}

#[test]
fn unit_to_string() {
    assert_eq!(color_spec().render(&value(0, &[])), "Green");
}

#[test]
fn unit_override_string() {
    assert_eq!(color_spec().render(&value(1, &[])), "Burgundy");
}

#[test]
fn unnamed_to_string() {
    assert_eq!(object_spec().render(&value(0, &["Hello!"])), "Hello!");
}

#[test]
fn nested_to_string() {
    let color_text = color_spec().render(&value(0, &[]));
    let shape_text = shape_spec().render(&value(0, &["2"]));
    let complex = EnumValue { case: 1, args: vec![color_text, shape_text] };
    assert_eq!(
        object_spec().render(&complex),
        "Color: Green. Shape: Circle with radius: 2."
    );
}

#[test]
fn custom_template() {
    assert_eq!(color_spec().template(&value(3, &["1", "2", "3"])), "Custom Color");
}

#[test]
fn unit_template() {
    assert_eq!(color_spec().template(&value(0, &[])), "Green");
}

#[test]
fn unit_override_template() {
    assert_eq!(color_spec().template(&value(1, &[])), "Burgundy");
}

#[test]
fn unnamed_template() {
    assert_eq!(shape_spec().template(&value(0, &["2"])), "Circle with radius: {}");
}

#[test]
fn nested_template() {
    let complex = value(1, &["Green", "Circle with radius: 2"]);
    assert_eq!(object_spec().template(&complex), "Color: {}. Shape: {}.");
}

#[test]
fn unit_args() {
    assert_eq!(color_spec().arguments(&value(0, &[])).len(), 0);
}

#[test]
fn unnamed_args() {
    assert_eq!(
        object_spec().arguments(&value(0, &["Hello!"])),
        vec!["Hello!".to_string()]
    );
}

#[test]
fn custom_args() {
    assert_eq!(
        color_spec().arguments(&value(4, &["3", "unique_color"])).len(),
        2
    );
}

#[test]
fn complex_args() {
    let color_text = color_spec().render(&value(0, &[]));
    let shape_text = shape_spec().render(&value(0, &["2"]));
    let complex = EnumValue { case: 1, args: vec![color_text, shape_text] };
    assert_eq!(
        object_spec().arguments(&complex),
        vec!["Green", "Circle with radius: 2"],
    );
}

#[test]
fn special_string() {
    assert_eq!(special_spec().render(&value(0, &["100"])), "SomeString");
}

#[test]
fn special_template() {
    assert_eq!(special_spec().template(&value(0, &["100"])), "SomeString");
}

#[test]
fn special_args() {
    assert_eq!(special_spec().arguments(&value(0, &["100"])).len(), 0);
}

#[test]
fn test_from_str() {
    let color = color_spec();
    let green_text = color.render(&value(0, &[]));
    assert_eq!(color.parse(&green_text).unwrap(), value(0, &[]));
    assert_eq!(color.parse("Burgundy").unwrap(), value(1, &[]));
    let special = special_spec();
    let special_text = special.render(&value(0, &["1"]));
    assert!(special.parse(&special_text).is_err());
    assert!(color.parse("NotAColor").is_err());
}
