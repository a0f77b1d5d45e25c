use backend_registry::isa::contract::OwnedTargetIsa;
use backend_registry::isa::contract::TargetIsa;
use backend_registry::isa::registry::builtin_targets;
use backend_registry::isa::registry::IsaBuilder;
use backend_registry::isa::registry::RegistrationError;
use backend_registry::isa::registry::Registry;
use backend_registry::isa::triple::TargetTriple;
use backend_registry::isa::z80::isa_builder;
use backend_registry::isa::z80::settings::define;
use backend_registry::isa::z80::Z80Constructor;
use backend_registry::ir::Type;
use backend_registry::settings::flags::resolve;
use backend_registry::settings::flags::ConfigError;
use backend_registry::settings::flags::FlagSet;
use backend_registry::settings::schema::SchemaBuilder;
use backend_registry::settings::schema::SettingValue;
use backend_registry::settings::value::InvalidReason;

fn shared_flags() -> FlagSet {
    let schema = SchemaBuilder::new("shared")
        .declare_bool("enable_verifier", "Run the verifier", "Checks the function first.", true)
        .unwrap()
        .build();
    resolve(&schema, &[]).unwrap()
}

fn triple(architecture: &str) -> TargetTriple {
    TargetTriple::new(architecture, "unknown", "unknown", "unknown")
}

fn same_through_the_contract(a: &OwnedTargetIsa, b: &OwnedTargetIsa) {
    assert_eq!(a.isa.name(), b.isa.name());
    assert_eq!(a.isa.triple().to_text(), b.isa.triple().to_text());
    assert!(a.isa.flags() == b.isa.flags());
    assert_eq!(a.isa.isa_flags_hash_key(), b.isa.isa_flags_hash_key());
    let fa = a.isa.isa_flags();
    let fb = b.isa.isa_flags();
    assert_eq!(fa.len(), fb.len());
    for (x, y) in fa.iter().zip(fb.iter()) {
        assert_eq!(x, y);
    }
    assert_eq!(a.isa.has_native_fma(), b.isa.has_native_fma());
    assert_eq!(a.isa.has_round(), b.isa.has_round());
    assert_eq!(
        a.isa.has_x86_blendv_lowering(Type { code: 1 }),
        b.isa.has_x86_blendv_lowering(Type { code: 1 })
    );
    assert_eq!(a.isa.has_x86_pshufb_lowering(), b.isa.has_x86_pshufb_lowering());
    assert_eq!(a.isa.has_x86_pmulhrsw_lowering(), b.isa.has_x86_pmulhrsw_lowering());
    assert_eq!(a.isa.has_x86_pmaddubsw_lowering(), b.isa.has_x86_pmaddubsw_lowering());
    assert_eq!(a.isa.default_argument_extension(), b.isa.default_argument_extension());
    assert_eq!(a.isa.function_alignment(), b.isa.function_alignment());
    assert_eq!(a.isa.page_size_align_log2(), b.isa.page_size_align_log2());
}

#[test]
fn an_empty_registry_supports_no_target() {
    let registry = Registry::new();
    assert!(registry.targets().is_empty());
    match registry.lookup(&triple("z80")) {
        Err(e) => assert_eq!(e.target, "z80"),
        Ok(_) => panic!("nothing is registered"),
    }
}

#[test]
fn the_builtin_registry_knows_the_z80() {
    let registry = builtin_targets();
    assert_eq!(registry.targets(), vec!["z80"]);
    let pending = registry.lookup(&triple("z80")).ok().unwrap();
    assert_eq!(pending.triple.architecture, "z80");
    assert!(pending.schema() == define());
}

#[test]
fn an_unregistered_target_is_unsupported() {
    let registry = builtin_targets();
    for architecture in ["x86_64", "z180", "Z80", "", "z80 "] {
        match registry.lookup(&triple(architecture)) {
            Err(e) => assert_eq!(e.target, architecture),
            Ok(_) => panic!("{} is not registered", architecture),
        }
    }
}

#[test]
fn lookup_goes_by_the_architecture_alone() {
    let registry = builtin_targets();
    let spectrum = TargetTriple::new("z80", "sinclair", "none", "elf");
    let pending = registry.lookup(&spectrum).ok().unwrap();
    assert_eq!(pending.triple.vendor, "sinclair");
    assert_eq!(pending.triple.operating_system, "none");
    assert_eq!(pending.triple.environment, "elf");
    let isa = pending.finish(shared_flags(), &[]).unwrap();
    assert_eq!(isa.isa.triple().to_text(), "z80-sinclair-none-elf");
}

#[test]
fn registering_an_identifier_twice_is_refused() {
    let mut registry = Registry::new();
    assert_eq!(registry.register("z80", isa_builder()), Ok(()));
    assert_eq!(
        registry.register("z80", isa_builder()),
        Err(RegistrationError::DuplicateTarget("z80".to_string()))
    );
}

#[test]
fn a_refused_registration_leaves_the_registry_as_it_was() {
    let mut registry = Registry::new();
    registry.register("z80", isa_builder()).unwrap();
    registry.register("z180", isa_builder()).unwrap();
    assert!(registry.register("z80", isa_builder()).is_err());
    assert!(registry.register("z180", isa_builder()).is_err());
    assert_eq!(registry.targets(), vec!["z80", "z180"]);
    let pending = registry.lookup(&triple("z80")).ok().unwrap();
    assert_eq!(pending.schema(), define());
    let isa = pending.finish(shared_flags(), &[("has_djnz", "off")]).unwrap();
    assert_eq!(isa.isa.isa_flags_hash_key(), vec![1, 1, 1, 1, 0, 1, 0, 0, 0]);
    assert_eq!(registry.register("sm83", isa_builder()), Ok(()));
    assert_eq!(registry.targets(), vec!["z80", "z180", "sm83"]);
}

#[test]
fn several_targets_are_found_each_under_its_identifier() {
    let mut registry = Registry::new();
    registry.register("z80", isa_builder()).unwrap();
    registry.register("z180", IsaBuilder { constructor: Box::new(Z80Constructor) }).unwrap();
    assert_eq!(registry.targets(), vec!["z80", "z180"]);
    assert_eq!(registry.lookup(&triple("z80")).ok().unwrap().schema().len(), 9);
    let pending = registry.lookup(&triple("z180")).ok().unwrap();
    assert_eq!(pending.triple.architecture, "z180");
    assert_eq!(pending.schema().target(), "z80");
    let isa = pending.finish(shared_flags(), &[("has_z180_extended_instructions", "on")]).unwrap();
    assert_eq!(isa.isa.triple().architecture, "z180");
    assert_eq!(isa.isa.isa_flags_hash_key(), vec![1, 1, 1, 1, 1, 1, 1, 0, 0]);
    assert!(registry.lookup(&triple("sm83")).is_err());
}

#[test]
fn a_builder_gives_the_schema_of_its_constructor() {
    let builder = isa_builder();
    assert_eq!(builder.setup(), define());
    let other = IsaBuilder { constructor: Box::new(Z80Constructor) };
    assert_eq!(other.setup(), define());
}

#[test]
fn finish_binds_the_overrides_and_the_triple() {
    let registry = builtin_targets();
    let pending = registry.lookup(&triple("z80")).ok().unwrap();
    let isa = pending
        .finish(shared_flags(), &[("has_djnz", "false"), ("has_z180_extended_instructions", "yes")])
        .unwrap();
    assert_eq!(isa.isa.name(), "z80");
    assert_eq!(isa.isa.triple().architecture, "z80");
    assert!(*isa.isa.flags() == shared_flags());
    let flags = isa.isa.isa_flags();
    assert_eq!(flags.len(), 9);
    assert_eq!(flags[4].name, "has_djnz");
    assert_eq!(flags[4].value, SettingValue::Bool(false));
    assert_eq!(flags[6].name, "has_z180_extended_instructions");
    assert_eq!(flags[6].value, SettingValue::Bool(true));
    assert!(!isa.isa.has_native_fma());
}

#[test]
fn finish_refuses_bad_overrides_before_anything_is_built() {
    let registry = builtin_targets();
    match registry.lookup(&triple("z80")).ok().unwrap().finish(shared_flags(), &[("nonexistent_setting", "true")]) {
        Err(ConfigError::UnknownSetting(name)) => assert_eq!(name, "nonexistent_setting"),
        _ => panic!("expected an unknown setting"),
    }
    match registry.lookup(&triple("z80")).ok().unwrap().finish(shared_flags(), &[("has_djnz", "not_a_bool")]) {
        Err(ConfigError::InvalidValue(name, reason)) => {
            assert_eq!(name, "has_djnz");
            assert_eq!(reason, InvalidReason::NotABool);
        }
        _ => panic!("expected an invalid value"),
    }
}

#[test]
fn backends_of_one_configuration_cannot_be_told_apart() {
    let registry = builtin_targets();
    let a = registry
        .lookup(&triple("z80"))
        .ok()
        .unwrap()
        .finish(shared_flags(), &[("has_djnz", "off"), ("has_sm83_extended_instructions", "on")])
        .unwrap();
    let b = registry
        .lookup(&triple("z80"))
        .ok()
        .unwrap()
        .finish(shared_flags(), &[("has_sm83_extended_instructions", "on"), ("has_djnz", "off")])
        .unwrap();
    same_through_the_contract(&a, &b);
    let c = registry.lookup(&triple("z80")).ok().unwrap().finish(shared_flags(), &[]).unwrap();
    assert_ne!(a.isa.isa_flags_hash_key(), c.isa.isa_flags_hash_key());
}

#[test]
fn a_triple_is_read_from_text() {
    let parsed = TargetTriple::parse("z80-unknown-none").unwrap();
    assert_eq!(parsed.architecture, "z80");
    assert_eq!(parsed.vendor, "unknown");
    assert_eq!(parsed.operating_system, "none");
    assert_eq!(parsed.environment, "unknown");
    let linux = TargetTriple::parse("x86_64-unknown-linux-gnu").unwrap();
    assert_eq!(linux.architecture, "x86_64");
    assert_eq!(linux.operating_system, "linux");
    assert_eq!(linux.environment, "gnu");
    assert_eq!(linux.to_text(), "x86_64-unknown-linux-gnu");
    assert!(TargetTriple::parse("not a triple").is_none());
    assert!(TargetTriple::parse("").is_none());
    assert_eq!(TargetTriple::parse("z180").unwrap().architecture, "z180");
}

#[test]
fn a_target_is_looked_up_by_the_text_of_its_triple() {
    let registry = builtin_targets();
    let pending = registry.lookup_by_name("z80-unknown-none").ok().unwrap();
    assert_eq!(pending.triple.architecture, "z80");
    assert_eq!(pending.triple.operating_system, "none");
    let isa = pending.finish(shared_flags(), &[]).unwrap();
    assert_eq!(isa.isa.triple().to_text(), "z80-unknown-none-unknown");
    match registry.lookup_by_name("x86_64-unknown-linux-gnu") {
        Err(e) => assert_eq!(e.target, "x86_64"),
        Ok(_) => panic!("x86_64 is not registered"),
    }
    match registry.lookup_by_name("no-such-target") {
        Err(e) => assert_eq!(e.target, "no-such-target"),
        Ok(_) => panic!("the text is no triple"),
    }
}

#[test]
fn a_triple_is_copied_and_shown() {
    let t = TargetTriple::new("z80", "zilog", "cpm", "none");
    let copy = t.clone();
    assert_eq!(copy.architecture, "z80");
    assert_eq!(copy.vendor, "zilog");
    assert_eq!(copy.operating_system, "cpm");
    assert_eq!(copy.environment, "none");
    assert_eq!(t.to_text(), "z80-zilog-cpm-none");
}
