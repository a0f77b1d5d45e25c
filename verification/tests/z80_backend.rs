use backend_registry::ir::ArgumentExtension;
use backend_registry::ir::DominatorTree;
use backend_registry::ir::Function;
use backend_registry::ir::Type;
use backend_registry::isa::contract::TargetIsa;
use backend_registry::isa::triple::TargetTriple;
use backend_registry::isa::unwind::RegisterMappingError;
use backend_registry::isa::unwind::UnwindInfoKind;
use backend_registry::isa::z80::isa_constructor;
use backend_registry::isa::z80::settings::define;
use backend_registry::isa::z80::Z80Backend;
use backend_registry::machinst::CompiledCode;
use backend_registry::machinst::Reg;
use backend_registry::result::CodegenError;
use backend_registry::settings::flags::resolve;
use backend_registry::settings::flags::FlagSet;
use backend_registry::settings::schema::SchemaBuilder;
use backend_registry::settings::schema::SettingKind;
use backend_registry::settings::schema::SettingValue;
use cranelift_control::ControlPlane;

fn shared_flags() -> FlagSet {
    let schema = SchemaBuilder::new("shared")
        .declare_enum("opt_level", "Optimization level", "How hard to optimize.", &["none", "speed"], "none")
        .unwrap()
        .build();
    resolve(&schema, &[]).unwrap()
}

fn z80_triple() -> TargetTriple {
    TargetTriple::new("z80", "unknown", "none", "unknown")
}

fn backend(overrides: &[(&str, &str)]) -> Z80Backend {
    Z80Backend::new_with_flags(z80_triple(), shared_flags(), resolve(&define(), overrides).unwrap())
}

#[test]
fn the_z80_schema_declares_its_nine_settings_in_order() {
    let schema = define();
    assert_eq!(schema.target(), "z80");
    assert_eq!(schema.len(), 9);
    let expected = [
        ("has_index_registers", true),
        ("has_shadow_registers", true),
        ("has_sign_parity_overflow_flags", true),
        ("has_ed_prefixed_instructions", true),
        ("has_djnz", true),
        ("has_z80_undocumented_instructions", true),
        ("has_z180_extended_instructions", false),
        ("has_sm83_extended_instructions", false),
        ("has_z80n_extended_instructions", false),
    ];
    for (k, (name, default)) in expected.iter().enumerate() {
        let d = schema.descriptor(k);
        assert_eq!(d.name, *name);
        assert!(matches!(d.kind, SettingKind::Bool));
        assert_eq!(d.default, SettingValue::Bool(*default));
        assert_eq!(schema.find(name), Some(k));
    }
}

#[test]
fn the_z80_schema_carries_its_documentation() {
    let schema = define();
    let djnz = schema.descriptor(4);
    assert_eq!(djnz.summary, "Has DJNZ instruction");
    assert_eq!(
        djnz.description,
        "DJNZ (Decrement and Jump if Not Zero) instruction that decrements the B register and jumps to a specified address if the result is not zero."
    );
    let sm83 = schema.descriptor(7);
    assert_eq!(sm83.summary, "Has SM83 extended instructions (e.g., SWAP, HL+, etc.)");
    assert_eq!(
        sm83.description,
        "Extended instructions specific to the Sharp SM83 (Game Boy) processor\n* SWAP r (swap nibbles in a register)\n* HL-, HL+ (autoincrement HL register)\n* ADD SP dd (add signed displacement to SP register)"
    );
    assert_eq!(
        schema.descriptor(0).summary,
        "Has IX / IY index registers and indirect addressing using displacement (DD, FD prefixed instructions)"
    );
}

#[test]
fn a_z80_backend_keeps_its_configuration() {
    let b = backend(&[("has_djnz", "false")]);
    assert_eq!(b.name(), "z80");
    assert_eq!(b.triple().architecture, "z80");
    assert_eq!(b.triple().operating_system, "none");
    assert!(*b.flags() == shared_flags());
    let flags = b.isa_flags();
    assert_eq!(flags.len(), 9);
    assert_eq!(flags[4].name, "has_djnz");
    assert_eq!(flags[4].value, SettingValue::Bool(false));
    assert_eq!(flags[4].description, define().descriptor(4).description);
    assert_eq!(flags[0].value, SettingValue::Bool(true));
    assert_eq!(
        flags[0].description,
        "16-bit index registers used for indirect addressing with displacement."
    );
    assert_eq!(b.isa_flags_hash_key(), vec![1, 1, 1, 1, 0, 1, 0, 0, 0]);
}

#[test]
fn absent_capabilities_are_answered_with_false() {
    let b = backend(&[]);
    assert!(!b.has_native_fma());
    assert!(!b.has_round());
    assert!(!b.has_x86_blendv_lowering(Type { code: 0x96 }));
    assert!(!b.has_x86_blendv_lowering(Type { code: 0 }));
    assert!(!b.has_x86_pshufb_lowering());
    assert!(!b.has_x86_pmulhrsw_lowering());
    assert!(!b.has_x86_pmaddubsw_lowering());
    assert_eq!(b.default_argument_extension(), ArgumentExtension::Unextended);
    assert_eq!(b.function_alignment(), None);
    assert_eq!(b.page_size_align_log2(), None);
    assert_eq!(b.dynamic_vector_bytes(Type { code: 0x100 }), None);
    assert_eq!(b.pretty_print_reg(Reg { index: 0 }, 1), None);
    assert_eq!(b.pretty_print_reg(Reg { index: 7 }, 2), None);
}

#[test]
fn capabilities_do_not_depend_on_the_flags() {
    let all_on = backend(&[
        ("has_z180_extended_instructions", "on"),
        ("has_sm83_extended_instructions", "on"),
        ("has_z80n_extended_instructions", "on"),
    ]);
    assert!(!all_on.has_native_fma());
    assert!(!all_on.has_round());
    assert_eq!(all_on.default_argument_extension(), ArgumentExtension::Unextended);
}

#[test]
fn compiling_reports_the_function_that_cannot_be_lowered() {
    let b = backend(&[]);
    let func = Function { name: "main".to_string() };
    let domtree = DominatorTree { immediate_dominators: vec![None, Some(0)] };
    let mut plane = ControlPlane::default();
    match b.compile_function(&func, &domtree, true, &mut plane) {
        Err(CodegenError::Unsupported { target, function }) => {
            assert_eq!(target, "z80");
            assert_eq!(function, "main");
        }
        Ok(_) => panic!("the z80 backend lowers nothing"),
    }
}

#[test]
fn compilations_do_not_interfere() {
    let b = backend(&[]);
    let first = Function { name: "first".to_string() };
    let second = Function { name: "second".to_string() };
    let domtree = DominatorTree { immediate_dominators: vec![] };
    let mut plane = ControlPlane::default();
    let mut names = Vec::new();
    for func in [&first, &second, &first, &second, &second, &first] {
        match b.compile_function(func, &domtree, false, &mut plane) {
            Err(CodegenError::Unsupported { function, .. }) => names.push(function),
            Ok(_) => panic!("the z80 backend lowers nothing"),
        }
    }
    assert_eq!(names, vec!["first", "second", "first", "second", "second", "first"]);
    assert!(!b.has_native_fma());
    assert_eq!(b.name(), "z80");
}

#[test]
fn unwinding_is_absent_not_failed() {
    let b = backend(&[]);
    let code = CompiledCode { buffer: vec![0xc9], relocations: vec![], disassembly: None };
    for kind in [UnwindInfoKind::NoInfo, UnwindInfoKind::SystemV, UnwindInfoKind::Windows] {
        assert!(matches!(b.emit_unwind_info(&code, kind), Ok(None)));
    }
    assert!(b.create_systemv_cie().is_none());
    assert_eq!(
        b.map_regalloc_reg_to_dwarf(Reg { index: 3 }),
        Err(RegisterMappingError::UnsupportedArchitecture)
    );
}

#[test]
fn disassembly_is_absent_not_failed() {
    let b = backend(&[]);
    assert!(matches!(b.to_capstone(), Ok(None)));
}

#[test]
fn a_z80_backend_is_shown_in_debug_form_on_one_line() {
    let b = backend(&[]);
    let text = b.to_text();
    assert_eq!(
        text,
        "Z80Backend { name: \"z80\", triple: TargetTriple { architecture: \"z80\", vendor: \"unknown\", operating_system: \"none\", environment: \"unknown\" }, flags: \"[shared]\\nopt_level = none\\n\" }"
    );
    assert!(!text.contains('\n'));
}

#[test]
fn object_emission_is_absent_not_failed() {
    let b = backend(&[]);
    assert!(b.text_section_builder(0).is_none());
    assert!(b.text_section_builder(3).is_none());
}

#[test]
fn the_constructor_gives_the_backend_behind_the_contract() {
    let flags = resolve(&define(), &[("has_index_registers", "no")]).unwrap();
    let owned = isa_constructor(z80_triple(), shared_flags(), flags);
    assert_eq!(owned.isa.name(), "z80");
    assert_eq!(owned.isa.triple().to_text(), "z80-unknown-none-unknown");
    assert_eq!(owned.isa.isa_flags_hash_key(), vec![0, 1, 1, 1, 1, 1, 0, 0, 0]);
    assert!(!owned.isa.has_native_fma());
    let wrapped = backend(&[]).wrapped();
    assert_eq!(wrapped.isa.isa_flags_hash_key(), vec![1, 1, 1, 1, 1, 1, 0, 0, 0]);
}

fn shared_between_threads<T: Send + Sync>() {}

#[test]
fn backends_and_registries_can_be_shared_between_threads() {
    shared_between_threads::<Z80Backend>();
    shared_between_threads::<backend_registry::isa::contract::OwnedTargetIsa>();
    shared_between_threads::<backend_registry::isa::registry::Registry>();
    shared_between_threads::<FlagSet>();
    shared_between_threads::<backend_registry::settings::schema::Schema>();
}
