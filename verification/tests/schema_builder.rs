use backend_registry::settings::schema::Schema;
use backend_registry::settings::schema::SchemaBuilder;
use backend_registry::settings::schema::SchemaDefinitionError;
use backend_registry::settings::schema::SettingKind;
use backend_registry::settings::schema::SettingValue;

fn sample() -> Schema {
    SchemaBuilder::new("sample")
        .declare_bool("fast", "Go fast", "Prefers speed over size.", false)
        .unwrap()
        .declare_enum(
            "opt_level",
            "Optimization level",
            "How hard to optimize.",
            &["none", "speed", "speed_and_size"],
            "speed",
        )
        .unwrap()
        .declare_num("probes", "Probe count", "How many probes to emit.", 12)
        .unwrap()
        .build()
}

#[test]
fn an_empty_builder_builds_an_empty_schema() {
    let schema = SchemaBuilder::new("bare").build();
    assert_eq!(schema.target(), "bare");
    assert_eq!(schema.len(), 0);
    assert_eq!(schema.find("anything"), None);
}

#[test]
fn declarations_keep_their_order_and_their_parts() {
    let schema = sample();
    assert_eq!(schema.target(), "sample");
    assert_eq!(schema.len(), 3);

    let fast = schema.descriptor(0);
    assert_eq!(fast.name, "fast");
    assert_eq!(fast.summary, "Go fast");
    assert_eq!(fast.description, "Prefers speed over size.");
    assert!(matches!(fast.kind, SettingKind::Bool));
    assert_eq!(fast.default, SettingValue::Bool(false));

    let level = schema.descriptor(1);
    assert_eq!(level.name, "opt_level");
    match &level.kind {
        SettingKind::Enum(choices) => {
            assert_eq!(choices, &vec!["none".to_string(), "speed".to_string(), "speed_and_size".to_string()]);
        }
        _ => panic!("opt_level is enumerated"),
    }
    assert_eq!(level.default, SettingValue::Enum(1));

    let probes = schema.descriptor(2);
    assert_eq!(probes.name, "probes");
    assert!(matches!(probes.kind, SettingKind::Num));
    assert_eq!(probes.default, SettingValue::Num(12));
}

#[test]
fn find_gives_the_position_of_a_declared_name() {
    let schema = sample();
    assert_eq!(schema.find("fast"), Some(0));
    assert_eq!(schema.find("opt_level"), Some(1));
    assert_eq!(schema.find("probes"), Some(2));
    assert_eq!(schema.find("Fast"), None);
    assert_eq!(schema.find(""), None);
}

#[test]
fn an_empty_name_is_refused() {
    let refused = SchemaBuilder::new("t").declare_bool("", "s", "d", true);
    assert!(matches!(refused, Err(SchemaDefinitionError::EmptyName)));
    let refused = SchemaBuilder::new("t").declare_num("", "s", "d", 1);
    assert!(matches!(refused, Err(SchemaDefinitionError::EmptyName)));
    let refused = SchemaBuilder::new("t").declare_enum("", "s", "d", &["a"], "a");
    assert!(matches!(refused, Err(SchemaDefinitionError::EmptyName)));
}

#[test]
fn a_name_declared_twice_is_refused() {
    let builder = SchemaBuilder::new("t").declare_bool("fast", "s", "d", true).unwrap();
    match builder.declare_num("fast", "s", "d", 3) {
        Err(SchemaDefinitionError::DuplicateName(name)) => assert_eq!(name, "fast"),
        other => panic!("expected a duplicate name, got {:?}", other),
    }
    let builder = SchemaBuilder::new("t").declare_bool("fast", "s", "d", true).unwrap();
    match builder.declare_enum("fast", "s", "d", &[], "x") {
        Err(SchemaDefinitionError::DuplicateName(name)) => assert_eq!(name, "fast"),
        other => panic!("the name is checked before the choices, got {:?}", other),
    }
}

#[test]
fn an_enumerated_setting_needs_a_choice() {
    match SchemaBuilder::new("t").declare_enum("level", "s", "d", &[], "none") {
        Err(SchemaDefinitionError::NoChoices(name)) => assert_eq!(name, "level"),
        other => panic!("expected no choices, got {:?}", other),
    }
}

#[test]
fn an_enumerated_setting_takes_at_most_256_choices() {
    let texts: Vec<String> = (0..257).map(|i| format!("c{}", i)).collect();
    let many: Vec<&str> = texts.iter().map(|s| s.as_str()).collect();
    match SchemaBuilder::new("t").declare_enum("level", "s", "d", &many, "c0") {
        Err(SchemaDefinitionError::TooManyChoices(name)) => assert_eq!(name, "level"),
        other => panic!("expected too many choices, got {:?}", other),
    }
    let schema = SchemaBuilder::new("t")
        .declare_enum("level", "s", "d", &many[..256], "c255")
        .unwrap()
        .build();
    assert_eq!(schema.descriptor(0).default, SettingValue::Enum(255));
}

#[test]
fn the_first_repeated_choice_is_reported() {
    match SchemaBuilder::new("t").declare_enum("level", "s", "d", &["a", "b", "c", "b", "a"], "a") {
        Err(SchemaDefinitionError::DuplicateChoice(name, choice)) => {
            assert_eq!(name, "level");
            assert_eq!(choice, "b");
        }
        other => panic!("expected a duplicate choice, got {:?}", other),
    }
}

#[test]
fn the_default_must_be_a_choice() {
    match SchemaBuilder::new("t").declare_enum("level", "s", "d", &["none", "speed"], "size") {
        Err(SchemaDefinitionError::UnknownDefault(name, default)) => {
            assert_eq!(name, "level");
            assert_eq!(default, "size");
        }
        other => panic!("expected an unknown default, got {:?}", other),
    }
}

#[test]
fn a_copy_of_a_schema_is_the_same_schema() {
    let schema = sample();
    let copy = schema.clone();
    assert!(schema == copy);
    assert!(copy == schema);
    assert_eq!(copy.len(), 3);
    assert_eq!(copy.descriptor(1).name, "opt_level");
}

#[test]
fn schemas_that_differ_in_any_part_are_told_apart() {
    let base = sample();
    let other_target = SchemaBuilder::new("other")
        .declare_bool("fast", "Go fast", "Prefers speed over size.", false)
        .unwrap()
        .build();
    assert!(base != other_target);

    let a = SchemaBuilder::new("t").declare_bool("x", "s", "d", false).unwrap().build();
    let b = SchemaBuilder::new("t").declare_bool("x", "s", "d", true).unwrap().build();
    let c = SchemaBuilder::new("t").declare_bool("x", "s", "other", false).unwrap().build();
    let d = SchemaBuilder::new("t").declare_num("x", "s", "d", 0).unwrap().build();
    let e = SchemaBuilder::new("t").declare_enum("x", "s", "d", &["p", "q"], "p").unwrap().build();
    let f = SchemaBuilder::new("t").declare_enum("x", "s", "d", &["p", "r"], "p").unwrap().build();
    assert!(a == a.clone());
    assert!(a != b);
    assert!(a != c);
    assert!(a != d);
    assert!(d != e);
    assert!(e != f);
    assert!(e == e.clone());
}
