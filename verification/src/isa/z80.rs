//! The Z80 family backend.

pub mod settings;

use vstd::prelude::*;
use vstd::string::StringExecFns;
use crate::ir::ArgumentExtension;
use crate::ir::DominatorTree;
use crate::ir::Function;
use crate::ir::FunctionView;
use crate::ir::Type;
use crate::isa::contract::FunctionAlignment;
use crate::isa::contract::IsaSurface;
use crate::isa::contract::OwnedTargetIsa;
use crate::isa::contract::TargetIsa;
use crate::isa::registry::BackendConstructor;
use crate::isa::registry::IsaBuilder;
use crate::isa::triple::TargetTriple;
use crate::isa::triple::TripleView;
use crate::isa::unwind::RegisterMappingError;
use crate::isa::unwind::UnwindInfo;
use crate::isa::unwind::UnwindInfoKind;
use crate::isa::z80::settings::define;
use crate::isa::z80::settings::z80_schema;
use crate::machinst::CompiledCode;
use crate::machinst::CompiledCodeView;
use crate::machinst::OwnedTextSectionBuilder;
use crate::machinst::Reg;
use crate::result::CodegenError;
use crate::result::CodegenErrorView;
use crate::settings::flags::FlagEntry;
use crate::settings::flags::FlagSet;
use crate::settings::flags::FlagSetView;
use crate::settings::schema::Schema;
use crate::settings::schema::SchemaView;
use crate::text::debug_text;
use crate::text::push_debug;

verus! {

/// The backend of the Z80 family: an 8-bit target without floating point,
/// vectors, stack unwinding or a disassembler.
pub struct Z80Backend {
    triple: TargetTriple,
    flags: FlagSet,
    z80_flags: FlagSet,
}

/// What the contract shows of a Z80 backend with the given configuration.
/// Whatever the flags, every capability that the core may ask for is
/// absent, and arguments are passed unextended.
pub open spec fn z80_surface(
    triple: TripleView,
    shared_flags: FlagSetView,
    z80_flags: FlagSetView,
) -> IsaSurface {
    IsaSurface {
        name: "z80"@,
        triple,
        shared_flags,
        target_flags: z80_flags,
        native_fma: false,
        round: false,
        x86_blendv_lowering: Set::empty(),
        x86_pshufb_lowering: false,
        x86_pmulhrsw_lowering: false,
        x86_pmaddubsw_lowering: false,
        argument_extension: ArgumentExtension::Unextended,
        function_alignment: None,
        page_size_align_log2: None,
        dynamic_vector_bytes: Map::empty(),
        register_names: Map::empty(),
        text_sections: false,
        unwinding: false,
        disassembly: false,
    }
}

/// What a Z80 backend gives for a compilation, whatever its
/// configuration: it has no lowering pipeline, so no function can be
/// lowered, and the error names the function.
pub open spec fn z80_lowering(func: FunctionView) -> Result<CompiledCodeView, CodegenErrorView> {
    Err(CodegenErrorView::Unsupported { target: "z80"@, function: func.name })
}

/// How a Z80 backend is shown as text: the name of the type and, between
/// braces, the fields `name`, `triple` and `flags`, each in its debug form.
/// The flags are the text of the shared flags, whose debug form is quoted
/// and escaped, so that the whole is one line.
///
/// The triple is written as this crate's [`TargetTriple`]. The debug text
/// of a `target_lexicon` triple names the variants of that crate's enums,
/// which cannot be had back from the four components.
pub open spec fn z80_text(triple: TripleView, shared_flags: FlagSetView) -> Seq<char> {
    "Z80Backend { name: "@ + debug_text("z80"@) + ", triple: "@ + triple.debug_text()
        + ", flags: "@ + debug_text(shared_flags.text()) + " }"@
}

impl Z80Backend {
    #[verifier::type_invariant]
    spec fn valid(self) -> bool {
        self.z80_flags@.schema == z80_schema()
    }

    /// A Z80 backend for the triple, with the shared flags and a flag set
    /// of the Z80 schema.
    pub fn new_with_flags(triple: TargetTriple, flags: FlagSet, z80_flags: FlagSet) -> (backend:
        Z80Backend)
        requires
            z80_flags@.schema == z80_schema(),
        ensures
            backend.surface() == z80_surface(triple@, flags@, z80_flags@),
    {
        Z80Backend { triple, flags, z80_flags }
    }

    /// The backend behind the contract, its concrete type forgotten.
    pub fn wrapped(self) -> (isa: OwnedTargetIsa)
        ensures
            isa.surface() == self.surface(),
            forall|
                func: FunctionView,
                dominators: Seq<Option<u32>>,
                want_disasm: bool,
                plane: cranelift_control::ControlPlane,
            | #[trigger] isa.isa.lowering(func, dominators, want_disasm, plane) == z80_lowering(func),
    {
        OwnedTargetIsa { isa: Box::new(self) }
    }

    /// The backend as text.
    pub fn to_text(&self) -> (text: String)
        ensures
            text@ == z80_text(self.surface().triple, self.surface().shared_flags),
    {
        let mut text = String::new();
        text.append("Z80Backend { name: ");
        push_debug(&mut text, "z80");
        text.append(", triple: ");
        text.append(self.triple.to_debug_text().as_str());
        text.append(", flags: ");
        push_debug(&mut text, self.flags.to_text().as_str());
        text.append(" }");
        assert(text@ =~= z80_text(self.triple@, self.flags@));
        text
    }
}

impl TargetIsa for Z80Backend {
    closed spec fn surface(&self) -> IsaSurface {
        z80_surface(self.triple@, self.flags@, self.z80_flags@)
    }

    open spec fn lowering(
        &self,
        func: FunctionView,
        dominators: Seq<Option<u32>>,
        want_disasm: bool,
        plane: cranelift_control::ControlPlane,
    ) -> Result<CompiledCodeView, CodegenErrorView> {
        z80_lowering(func)
    }

    fn name(&self) -> (name: &'static str)
        ensures
            name@ == "z80"@,
    {
        "z80"
    }

    fn triple(&self) -> (triple: &TargetTriple) {
        &self.triple
    }

    fn flags(&self) -> (flags: &FlagSet) {
        &self.flags
    }

    fn isa_flags(&self) -> (entries: Vec<FlagEntry>)
        ensures
            self.surface().target_flags.schema == z80_schema(),
    {
        proof {
            use_type_invariant(self);
        }
        self.z80_flags.entries()
    }

    fn isa_flags_hash_key(&self) -> (key: Vec<u8>) {
        self.z80_flags.hash_key()
    }

    fn compile_function(
        &self,
        func: &Function,
        domtree: &DominatorTree,
        want_disasm: bool,
        ctrl_plane: &mut cranelift_control::ControlPlane,
    ) -> (compiled: Result<CompiledCode, CodegenError>)
        ensures
            compiled is Err,
            *final(ctrl_plane) == *old(ctrl_plane),
    {
        Err(CodegenError::Unsupported { target: "z80".to_owned(), function: func.name.clone() })
    }

    fn text_section_builder(&self, num_labeled_funcs: usize) -> (builder: Option<
        OwnedTextSectionBuilder,
    >)
        ensures
            builder is None,
    {
        None
    }

    fn function_alignment(&self) -> (alignment: Option<FunctionAlignment>)
        ensures
            alignment is None,
    {
        None
    }

    fn page_size_align_log2(&self) -> (log2: Option<u8>)
        ensures
            log2 is None,
    {
        None
    }

    fn dynamic_vector_bytes(&self, dyn_ty: Type) -> (bytes: Option<u32>)
        ensures
            bytes is None,
    {
        None
    }

    fn pretty_print_reg(&self, reg: Reg, size: u8) -> (name: Option<String>)
        ensures
            name is None,
    {
        None
    }

    fn has_native_fma(&self) -> (present: bool)
        ensures
            !present,
    {
        false
    }

    fn has_round(&self) -> (present: bool)
        ensures
            !present,
    {
        false
    }

    fn has_x86_blendv_lowering(&self, ty: Type) -> (present: bool)
        ensures
            !present,
    {
        false
    }

    fn has_x86_pshufb_lowering(&self) -> (present: bool)
        ensures
            !present,
    {
        false
    }

    fn has_x86_pmulhrsw_lowering(&self) -> (present: bool)
        ensures
            !present,
    {
        false
    }

    fn has_x86_pmaddubsw_lowering(&self) -> (present: bool)
        ensures
            !present,
    {
        false
    }

    fn default_argument_extension(&self) -> (extension: ArgumentExtension)
        ensures
            extension == ArgumentExtension::Unextended,
    {
        ArgumentExtension::Unextended
    }

    fn emit_unwind_info(&self, result: &CompiledCode, kind: UnwindInfoKind) -> (info: Result<
        Option<UnwindInfo>,
        CodegenError,
    >)
        ensures
            info matches Ok(None),
    {
        Ok(None)
    }

    fn create_systemv_cie(&self) -> (entry: Option<gimli::write::CommonInformationEntry>)
        ensures
            entry is None,
    {
        None
    }

    fn map_regalloc_reg_to_dwarf(&self, reg: Reg) -> (number: Result<u16, RegisterMappingError>)
        ensures
            number == Err::<u16, RegisterMappingError>(RegisterMappingError::UnsupportedArchitecture),
    {
        Err(RegisterMappingError::UnsupportedArchitecture)
    }

    fn to_capstone(&self) -> (disassembler: Result<Option<capstone::Capstone>, capstone::Error>)
        ensures
            disassembler matches Ok(None),
    {
        Ok(None)
    }
}

/// Makes the Z80 backend for a triple, the shared flags and a flag set of
/// the Z80 schema.
pub fn isa_constructor(triple: TargetTriple, shared_flags: FlagSet, isa_flags: FlagSet) -> (isa:
    OwnedTargetIsa)
    requires
        isa_flags@.schema == z80_schema(),
    ensures
        isa.surface() == z80_surface(triple@, shared_flags@, isa_flags@),
        forall|
            func: FunctionView,
            dominators: Seq<Option<u32>>,
            want_disasm: bool,
            plane: cranelift_control::ControlPlane,
        | #[trigger] isa.isa.lowering(func, dominators, want_disasm, plane) == z80_lowering(func),
{
    let backend = Z80Backend::new_with_flags(triple, shared_flags, isa_flags);
    backend.wrapped()
}

/// What the Z80 family brings to a registry: its schema and the
/// constructor of its backend.
pub struct Z80Constructor;

impl BackendConstructor for Z80Constructor {
    open spec fn schema(&self) -> SchemaView {
        z80_schema()
    }

    open spec fn surface_of(
        &self,
        triple: TripleView,
        shared_flags: FlagSetView,
        isa_flags: FlagSetView,
    ) -> IsaSurface {
        z80_surface(triple, shared_flags, isa_flags)
    }

    open spec fn lowering_of(
        &self,
        triple: TripleView,
        shared_flags: FlagSetView,
        isa_flags: FlagSetView,
        func: FunctionView,
        dominators: Seq<Option<u32>>,
        want_disasm: bool,
        plane: cranelift_control::ControlPlane,
    ) -> Result<CompiledCodeView, CodegenErrorView> {
        z80_lowering(func)
    }

    fn setup(&self) -> (schema: Schema) {
        define()
    }

    fn construct(&self, triple: TargetTriple, shared_flags: FlagSet, isa_flags: FlagSet) -> (isa:
        OwnedTargetIsa) {
        isa_constructor(triple, shared_flags, isa_flags)
    }
}

/// The builder of Z80 backends: the Z80 constructor, which provides the
/// Z80 schema.
pub fn isa_builder() -> (builder: IsaBuilder)
    ensures
        builder.schema() == z80_schema(),
        forall|triple: TripleView, shared_flags: FlagSetView, isa_flags: FlagSetView|
            #[trigger] builder.constructor.surface_of(triple, shared_flags, isa_flags)
                == z80_surface(triple, shared_flags, isa_flags),
        forall|
            triple: TripleView,
            shared_flags: FlagSetView,
            isa_flags: FlagSetView,
            func: FunctionView,
            dominators: Seq<Option<u32>>,
            want_disasm: bool,
            plane: cranelift_control::ControlPlane,
        | #[trigger]
            builder.constructor.lowering_of(
                triple,
                shared_flags,
                isa_flags,
                func,
                dominators,
                want_disasm,
                plane,
            ) == z80_lowering(func),
{
    IsaBuilder { constructor: Box::new(Z80Constructor) }
}

} // verus!
