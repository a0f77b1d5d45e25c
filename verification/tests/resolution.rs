use backend_registry::isa::z80::settings::define;
use std::collections::hash_map::DefaultHasher;
use std::hash::Hash;
use std::hash::Hasher;
use backend_registry::settings::flags::resolve;
use backend_registry::settings::flags::ConfigError;
use backend_registry::settings::flags::FlagSet;
use backend_registry::settings::schema::Schema;
use backend_registry::settings::schema::SchemaBuilder;
use backend_registry::settings::schema::SettingKind;
use backend_registry::settings::schema::SettingValue;
use backend_registry::settings::value::parse_bool;
use backend_registry::settings::value::parse_value;
use backend_registry::settings::value::InvalidReason;

fn shared_schema() -> Schema {
    SchemaBuilder::new("shared")
        .declare_enum(
            "opt_level",
            "Optimization level",
            "How hard to optimize.",
            &["none", "speed", "speed_and_size"],
            "none",
        )
        .unwrap()
        .declare_bool("enable_verifier", "Run the verifier", "Checks the function first.", true)
        .unwrap()
        .declare_num("probestack_size_log2", "Probe size", "The log2 of the probe size.", 12)
        .unwrap()
        .build()
}

fn values(flags: &FlagSet) -> Vec<SettingValue> {
    flags.entries().into_iter().map(|e| e.value).collect()
}

#[test]
fn without_overrides_every_setting_has_its_default() {
    let schema = shared_schema();
    let flags = resolve(&schema, &[]).unwrap();
    assert_eq!(
        values(&flags),
        vec![SettingValue::Enum(0), SettingValue::Bool(true), SettingValue::Num(12)]
    );
    let z80 = define();
    let flags = resolve(&z80, &[]).unwrap();
    let mut k = 0;
    while k < z80.len() {
        assert_eq!(flags.value(k), z80.descriptor(k).default);
        k += 1;
    }
    assert_eq!(flags.entries().len(), 9);
}

#[test]
fn overrides_replace_defaults_and_leave_the_rest() {
    let schema = shared_schema();
    let flags = resolve(
        &schema,
        &[("probestack_size_log2", "16"), ("opt_level", "speed_and_size")],
    )
    .unwrap();
    assert_eq!(
        values(&flags),
        vec![SettingValue::Enum(2), SettingValue::Bool(true), SettingValue::Num(16)]
    );
}

#[test]
fn resolution_ignores_the_order_of_overrides() {
    let schema = shared_schema();
    let a = [("opt_level", "speed"), ("enable_verifier", "off"), ("probestack_size_log2", "3")];
    let b = [("probestack_size_log2", "3"), ("opt_level", "speed"), ("enable_verifier", "off")];
    let c = [("enable_verifier", "off"), ("probestack_size_log2", "3"), ("opt_level", "speed")];
    let fa = resolve(&schema, &a).unwrap();
    let fb = resolve(&schema, &b).unwrap();
    let fc = resolve(&schema, &c).unwrap();
    assert!(fa == fb);
    assert!(fb == fc);
    assert_eq!(fa.hash_key(), fb.hash_key());
    assert_eq!(fa.hash_key(), fc.hash_key());
    assert_eq!(fa.hash_key(), vec![1, 0, 3]);
    assert_eq!(fa.to_text(), fc.to_text());
}

#[test]
fn a_repeated_override_changes_nothing() {
    let schema = shared_schema();
    let once = resolve(&schema, &[("opt_level", "speed")]).unwrap();
    let twice = resolve(&schema, &[("opt_level", "speed"), ("opt_level", "speed")]).unwrap();
    assert!(once == twice);
    let words = resolve(&schema, &[("enable_verifier", "no"), ("enable_verifier", "0")]).unwrap();
    assert_eq!(words.get_bool("enable_verifier"), false);
    let numbers = resolve(&schema, &[("probestack_size_log2", "7"), ("probestack_size_log2", "07")])
        .unwrap();
    assert_eq!(numbers.get_num("probestack_size_log2"), 7);
}

#[test]
fn overrides_that_contradict_one_another_are_refused_in_any_order() {
    let schema = shared_schema();
    match resolve(&schema, &[("opt_level", "speed"), ("opt_level", "none")]) {
        Err(ConfigError::InvalidValue(name, reason)) => {
            assert_eq!(name, "opt_level");
            assert_eq!(reason, InvalidReason::Conflict);
        }
        other => panic!("expected a conflict, got {:?}", other),
    }
    match resolve(&schema, &[("opt_level", "none"), ("enable_verifier", "1"), ("opt_level", "speed")]) {
        Err(ConfigError::InvalidValue(name, reason)) => {
            assert_eq!(name, "opt_level");
            assert_eq!(reason, InvalidReason::Conflict);
        }
        other => panic!("expected a conflict, got {:?}", other),
    }
}

#[test]
fn an_unknown_setting_is_refused_under_its_name() {
    for schema in [shared_schema(), define(), SchemaBuilder::new("bare").build()] {
        match resolve(&schema, &[("nonexistent_setting", "true")]) {
            Err(ConfigError::UnknownSetting(name)) => assert_eq!(name, "nonexistent_setting"),
            other => panic!("expected an unknown setting, got {:?}", other),
        }
    }
}

#[test]
fn a_text_that_is_no_boolean_is_refused_for_a_boolean_setting() {
    let schema = define();
    match resolve(&schema, &[("has_djnz", "not_a_bool")]) {
        Err(ConfigError::InvalidValue(name, reason)) => {
            assert_eq!(name, "has_djnz");
            assert_eq!(reason, InvalidReason::NotABool);
        }
        other => panic!("expected an invalid value, got {:?}", other),
    }
    for text in ["", "TRUE", "True", "2", "t", "yes ", "01"] {
        assert!(matches!(
            resolve(&schema, &[("has_djnz", text)]),
            Err(ConfigError::InvalidValue(_, InvalidReason::NotABool))
        ));
    }
}

#[test]
fn a_text_that_is_no_choice_is_refused_for_an_enumerated_setting() {
    let schema = shared_schema();
    match resolve(&schema, &[("opt_level", "fastest")]) {
        Err(ConfigError::InvalidValue(name, reason)) => {
            assert_eq!(name, "opt_level");
            assert_eq!(reason, InvalidReason::NotAChoice);
        }
        other => panic!("expected an invalid value, got {:?}", other),
    }
    assert!(matches!(
        resolve(&schema, &[("opt_level", "1")]),
        Err(ConfigError::InvalidValue(_, InvalidReason::NotAChoice))
    ));
}

#[test]
fn a_text_that_is_no_number_is_refused_for_a_numeric_setting() {
    let schema = shared_schema();
    for text in ["256", "-1", "twelve", "", "1.5"] {
        match resolve(&schema, &[("probestack_size_log2", text)]) {
            Err(ConfigError::InvalidValue(name, reason)) => {
                assert_eq!(name, "probestack_size_log2");
                assert_eq!(reason, InvalidReason::NotANumber);
            }
            other => panic!("expected an invalid value, got {:?}", other),
        }
    }
}

#[test]
fn the_first_refused_override_decides_the_error() {
    let schema = shared_schema();
    assert!(matches!(
        resolve(&schema, &[("opt_level", "bad"), ("missing", "1")]),
        Err(ConfigError::InvalidValue(_, InvalidReason::NotAChoice))
    ));
    match resolve(&schema, &[("opt_level", "speed"), ("missing", "1"), ("opt_level", "bad")]) {
        Err(ConfigError::UnknownSetting(name)) => assert_eq!(name, "missing"),
        other => panic!("expected an unknown setting, got {:?}", other),
    }
}

#[test]
fn boolean_words_are_read() {
    for word in ["true", "on", "yes", "1"] {
        assert_eq!(parse_bool(word), Some(true));
    }
    for word in ["false", "off", "no", "0"] {
        assert_eq!(parse_bool(word), Some(false));
    }
    for word in ["", "True", "ON", "y", "n", "10", "truee"] {
        assert_eq!(parse_bool(word), None);
    }
}

#[test]
fn values_are_read_by_kind() {
    assert_eq!(parse_value(&SettingKind::Bool, "on"), Ok(SettingValue::Bool(true)));
    assert_eq!(parse_value(&SettingKind::Bool, "7"), Err(InvalidReason::NotABool));
    assert_eq!(parse_value(&SettingKind::Num, "7"), Ok(SettingValue::Num(7)));
    assert_eq!(parse_value(&SettingKind::Num, "on"), Err(InvalidReason::NotANumber));
    let kind = SettingKind::Enum(vec!["a".to_string(), "b".to_string(), "on".to_string()]);
    assert_eq!(parse_value(&kind, "a"), Ok(SettingValue::Enum(0)));
    assert_eq!(parse_value(&kind, "on"), Ok(SettingValue::Enum(2)));
    assert_eq!(parse_value(&kind, "c"), Err(InvalidReason::NotAChoice));
}

#[test]
fn typed_accessors_give_the_resolved_values() {
    let schema = shared_schema();
    let flags = resolve(&schema, &[("opt_level", "speed"), ("enable_verifier", "false")]).unwrap();
    assert_eq!(flags.get_enum("opt_level"), "speed");
    assert_eq!(flags.get_bool("enable_verifier"), false);
    assert_eq!(flags.get_num("probestack_size_log2"), 12);
    assert_eq!(flags.value_of("opt_level"), Some(SettingValue::Enum(1)));
    assert_eq!(flags.value_of("enable_verifier"), Some(SettingValue::Bool(false)));
    assert_eq!(flags.value_of("probestack_size_log2"), Some(SettingValue::Num(12)));
    assert_eq!(flags.value_of("missing"), None);
    assert!(*flags.schema() == schema);
}

#[test]
fn entries_name_every_setting_with_value_and_description() {
    let schema = shared_schema();
    let flags = resolve(&schema, &[("probestack_size_log2", "200")]).unwrap();
    let entries = flags.entries();
    let names: Vec<&str> = entries.iter().map(|e| e.name.as_str()).collect();
    assert_eq!(names, vec!["opt_level", "enable_verifier", "probestack_size_log2"]);
    assert_eq!(entries[2].value, SettingValue::Num(200));
    assert_eq!(entries.len(), 3);
    assert_eq!(entries[0].value, SettingValue::Enum(0));
    assert_eq!(entries[0].description, "How hard to optimize.");
    assert_eq!(entries[1].value, SettingValue::Bool(true));
    assert_eq!(entries[1].description, "Checks the function first.");
    assert_eq!(entries[2].description, "The log2 of the probe size.");
}

#[test]
fn the_hash_key_has_one_byte_for_each_setting() {
    let schema = shared_schema();
    let flags = resolve(&schema, &[]).unwrap();
    assert_eq!(flags.hash_key(), vec![0, 1, 12]);
    let flags = resolve(
        &schema,
        &[("opt_level", "speed_and_size"), ("enable_verifier", "no"), ("probestack_size_log2", "255")],
    )
    .unwrap();
    assert_eq!(flags.hash_key(), vec![2, 0, 255]);
    let z80 = resolve(&define(), &[("has_djnz", "off"), ("has_sm83_extended_instructions", "on")])
        .unwrap();
    assert_eq!(z80.hash_key(), vec![1, 1, 1, 1, 0, 1, 0, 1, 0]);
}

#[test]
fn flag_sets_with_the_same_key_are_the_same() {
    let schema = shared_schema();
    let a = resolve(&schema, &[("opt_level", "speed")]).unwrap();
    let b = resolve(&schema, &[("opt_level", "speed"), ("enable_verifier", "true")]).unwrap();
    let c = resolve(&schema, &[("opt_level", "none")]).unwrap();
    assert_eq!(a.hash_key(), b.hash_key());
    assert!(a == b);
    assert_ne!(a.hash_key(), c.hash_key());
    assert!(a != c);
    let other = resolve(&define(), &[]).unwrap();
    assert!(a != other);
}

fn hash_of(flags: &FlagSet) -> u64 {
    let mut hasher = DefaultHasher::new();
    flags.hash(&mut hasher);
    hasher.finish()
}

#[test]
fn equal_flag_sets_hash_alike() {
    let schema = shared_schema();
    let a = resolve(&schema, &[("opt_level", "speed"), ("probestack_size_log2", "3")]).unwrap();
    let b = resolve(&schema, &[("probestack_size_log2", "3"), ("opt_level", "speed")]).unwrap();
    let c = resolve(&schema, &[("probestack_size_log2", "4"), ("opt_level", "speed")]).unwrap();
    assert_eq!(a, b);
    assert_eq!(hash_of(&a), hash_of(&b));
    assert_eq!(hash_of(&a), hash_of(&a.clone()));
    assert_ne!(a, c);
    assert_ne!(hash_of(&a), hash_of(&c));
}

#[test]
fn a_flag_set_is_shown_line_by_line() {
    let schema = shared_schema();
    let flags = resolve(&schema, &[("opt_level", "speed"), ("probestack_size_log2", "9")]).unwrap();
    assert_eq!(
        flags.to_text(),
        "[shared]\nopt_level = speed\nenable_verifier = true\nprobestack_size_log2 = 9\n"
    );
    let bare = resolve(&SchemaBuilder::new("bare").build(), &[]).unwrap();
    assert_eq!(bare.to_text(), "[bare]\n");
}

#[test]
fn a_flag_set_spelled_out_as_overrides_resolves_to_itself() {
    let schema = shared_schema();
    let flags = resolve(
        &schema,
        &[("opt_level", "speed_and_size"), ("enable_verifier", "off"), ("probestack_size_log2", "200")],
    )
    .unwrap();
    let spelled = flags.to_overrides();
    assert_eq!(
        spelled,
        vec![
            ("opt_level".to_string(), "speed_and_size".to_string()),
            ("enable_verifier".to_string(), "false".to_string()),
            ("probestack_size_log2".to_string(), "200".to_string()),
        ]
    );
    let borrowed: Vec<(&str, &str)> = spelled.iter().map(|(n, v)| (n.as_str(), v.as_str())).collect();
    let again = resolve(&schema, &borrowed).unwrap();
    assert_eq!(flags, again);
    assert_eq!(flags.hash_key(), again.hash_key());

    let defaults = resolve(&define(), &[]).unwrap();
    let spelled = defaults.to_overrides();
    assert_eq!(spelled.len(), 9);
    assert_eq!(spelled[4], ("has_djnz".to_string(), "true".to_string()));
    assert_eq!(spelled[8], ("has_z80n_extended_instructions".to_string(), "false".to_string()));
    let borrowed: Vec<(&str, &str)> = spelled.iter().map(|(n, v)| (n.as_str(), v.as_str())).collect();
    assert_eq!(resolve(&define(), &borrowed).unwrap(), defaults);
}
