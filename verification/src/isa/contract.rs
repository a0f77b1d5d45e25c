//! The capability contract: what the compiler core may ask of any backend.

use vstd::prelude::*;
use crate::ir::ArgumentExtension;
use crate::ir::DominatorTree;
use crate::ir::Function;
use crate::ir::FunctionView;
use crate::ir::Type;
use crate::isa::triple::TargetTriple;
use crate::isa::triple::TripleView;
use crate::isa::unwind::RegisterMappingError;
use crate::isa::unwind::UnwindInfo;
use crate::isa::unwind::UnwindInfoKind;
use crate::machinst::CompiledCode;
use crate::machinst::CompiledCodeView;
use crate::machinst::OwnedTextSectionBuilder;
use crate::machinst::Reg;
use crate::result::outcome_view;
use crate::result::CodegenError;
use crate::result::CodegenErrorView;
use crate::settings::flags::entry_views;
use crate::settings::flags::FlagEntry;
use crate::settings::flags::FlagSet;
use crate::settings::flags::FlagSetView;

verus! {

/// `cranelift_control::ControlPlane`, the source of the decisions that
/// perturb a compilation. The proofs see nothing inside it: the contract
/// hands it through to the backend.
#[verifier::external_type_specification]
#[verifier::external_body]
pub struct ExControlPlane(cranelift_control::ControlPlane);

/// `gimli::write::CommonInformationEntry`, the head of a run of call frame
/// records. The proofs see nothing inside it.
#[verifier::external_type_specification]
#[verifier::external_body]
pub struct ExCommonInformationEntry(gimli::write::CommonInformationEntry);

/// `capstone::Capstone`, a disassembler. The proofs see nothing inside
/// it.
#[verifier::external_type_specification]
#[verifier::external_body]
pub struct ExCapstone(capstone::Capstone);

/// `capstone::Error`, the error of setting a disassembler up. The proofs
/// see nothing inside it.
#[verifier::external_type_specification]
#[verifier::external_body]
pub struct ExCapstoneError(capstone::Error);

/// The alignment of a function's first byte, as powers of two in bytes.
#[derive(Clone, Copy, Debug, PartialEq, Eq, Structural)]
pub struct FunctionAlignment {
    /// What the target needs.
    pub minimum: u32,
    /// What the target runs best with.
    pub preferred: u32,
}

/// All that the compiler core can see of a backend through the queries of
/// the contract: two backends with the same surface cannot be told apart
/// by them.
pub struct IsaSurface {
    pub name: Seq<char>,
    pub triple: TripleView,
    pub shared_flags: FlagSetView,
    pub target_flags: FlagSetView,
    pub native_fma: bool,
    pub round: bool,
    /// The value types for which the blend-by-variable lowering exists.
    pub x86_blendv_lowering: Set<Type>,
    pub x86_pshufb_lowering: bool,
    pub x86_pmulhrsw_lowering: bool,
    pub x86_pmaddubsw_lowering: bool,
    pub argument_extension: ArgumentExtension,
    pub function_alignment: Option<FunctionAlignment>,
    pub page_size_align_log2: Option<u8>,
    /// The size in bytes of each dynamic vector type that the target has.
    pub dynamic_vector_bytes: Map<Type, u32>,
    /// The name of each register, at each size in bytes, that the target
    /// has a name for.
    pub register_names: Map<(Reg, u8), Seq<char>>,
    /// Whether the target lays machine code out in text sections.
    pub text_sections: bool,
    /// Whether the target has a model of stack unwinding.
    pub unwinding: bool,
    /// Whether the target has a disassembler.
    pub disassembly: bool,
}

/// The contract that every backend meets.
///
/// A backend is configured once and never changes: every method takes it
/// by shared reference, and what a method returns is a function of the
/// backend and of the arguments of that call. A backend can therefore be
/// shared between threads, which the bounds ask of every implementation.
pub trait TargetIsa: Send + Sync {
    /// What the queries of the contract show of this backend.
    spec fn surface(&self) -> IsaSurface;

    /// What compiling a function gives, from the function, its dominator
    /// tree, whether a disassembly is wanted and the control plane as it is
    /// handed in.
    spec fn lowering(
        &self,
        func: FunctionView,
        dominators: Seq<Option<u32>>,
        want_disasm: bool,
        plane: cranelift_control::ControlPlane,
    ) -> Result<CompiledCodeView, CodegenErrorView>;

    /// The name of the target.
    fn name(&self) -> (name: &'static str)
        ensures
            name@ == self.surface().name,
    ;

    /// The triple that the backend was built for.
    fn triple(&self) -> (triple: &TargetTriple)
        ensures
            triple@ == self.surface().triple,
    ;

    /// The flags that all targets share.
    fn flags(&self) -> (flags: &FlagSet)
        ensures
            flags@ == self.surface().shared_flags,
    ;

    /// Every setting of the target's own flag set with its value and its
    /// description: none is left out.
    fn isa_flags(&self) -> (entries: Vec<FlagEntry>)
        ensures
            entry_views(entries@) == self.surface().target_flags.entries(),
    ;

    /// The hash key of the target's own flag set.
    fn isa_flags_hash_key(&self) -> (key: Vec<u8>)
        ensures
            key@ == self.surface().target_flags.hash_key(),
    ;

    /// Compiles one function.
    ///
    /// The outcome depends on the backend and on the arguments of this call
    /// alone. The control plane chooses among lowerings that are all valid:
    /// it decides neither whether the function can be lowered nor, where it
    /// cannot, what the error is. An error names the target and the
    /// function, and a disassembly comes only where it was asked for.
    fn compile_function(
        &self,
        func: &Function,
        domtree: &DominatorTree,
        want_disasm: bool,
        ctrl_plane: &mut cranelift_control::ControlPlane,
    ) -> (compiled: Result<CompiledCode, CodegenError>)
        ensures
            outcome_view(compiled) == self.lowering(
                func@,
                domtree.immediate_dominators@,
                want_disasm,
                *old(ctrl_plane),
            ),
            forall|other: cranelift_control::ControlPlane|
                (#[trigger] self.lowering(
                    func@,
                    domtree.immediate_dominators@,
                    want_disasm,
                    other,
                )) is Ok <==> compiled is Ok,
            forall|other: cranelift_control::ControlPlane|
                compiled is Err ==> #[trigger] self.lowering(
                    func@,
                    domtree.immediate_dominators@,
                    want_disasm,
                    other,
                ) == outcome_view(compiled),
            compiled matches Err(e) ==> e@ == (CodegenErrorView::Unsupported {
                target: self.surface().name,
                function: func@.name,
            }),
            compiled matches Ok(code) ==> (code.disassembly is Some ==> want_disasm),
    ;

    /// A builder that lays the code of the given number of labeled
    /// functions out in a text section. A target that does not lay code
    /// out in sections has none, which is no error.
    fn text_section_builder(&self, num_labeled_funcs: usize) -> (builder: Option<
        OwnedTextSectionBuilder,
    >)
        ensures
            !self.surface().text_sections ==> builder is None,
    ;

    /// The alignment that the target asks of functions, if it asks any.
    fn function_alignment(&self) -> (alignment: Option<FunctionAlignment>)
        ensures
            alignment == self.surface().function_alignment,
    ;

    /// The binary logarithm of the alignment of memory pages, if the target
    /// has pages.
    fn page_size_align_log2(&self) -> (log2: Option<u8>)
        ensures
            log2 == self.surface().page_size_align_log2,
    ;

    /// The size in bytes of a dynamic vector type, if the target has the
    /// type.
    fn dynamic_vector_bytes(&self, dyn_ty: Type) -> (bytes: Option<u32>)
        ensures
            bytes == if self.surface().dynamic_vector_bytes.dom().contains(dyn_ty) {
                Some(self.surface().dynamic_vector_bytes[dyn_ty])
            } else {
                None
            },
    ;

    /// The name of a register at a size in bytes, if the target has a name
    /// for it.
    fn pretty_print_reg(&self, reg: Reg, size: u8) -> (name: Option<String>)
        ensures
            match name {
                Some(text) => self.surface().register_names.dom().contains((reg, size)) && text@
                    == self.surface().register_names[(reg, size)],
                None => !self.surface().register_names.dom().contains((reg, size)),
            },
    ;

    /// Whether the target has a fused multiply-add instruction.
    fn has_native_fma(&self) -> (present: bool)
        ensures
            present == self.surface().native_fma,
    ;

    /// Whether the target has rounding instructions.
    fn has_round(&self) -> (present: bool)
        ensures
            present == self.surface().round,
    ;

    /// Whether the blend-by-variable lowering exists for the value type.
    fn has_x86_blendv_lowering(&self, ty: Type) -> (present: bool)
        ensures
            present == self.surface().x86_blendv_lowering.contains(ty),
    ;

    /// Whether the byte-shuffle lowering exists.
    fn has_x86_pshufb_lowering(&self) -> (present: bool)
        ensures
            present == self.surface().x86_pshufb_lowering,
    ;

    /// Whether the rounding high-multiply lowering exists.
    fn has_x86_pmulhrsw_lowering(&self) -> (present: bool)
        ensures
            present == self.surface().x86_pmulhrsw_lowering,
    ;

    /// Whether the multiply-and-add-bytes lowering exists.
    fn has_x86_pmaddubsw_lowering(&self) -> (present: bool)
        ensures
            present == self.surface().x86_pmaddubsw_lowering,
    ;

    /// How the target's calling convention widens narrow integer arguments.
    fn default_argument_extension(&self) -> (extension: ArgumentExtension)
        ensures
            extension == self.surface().argument_extension,
    ;

    /// The unwind information of compiled code. A target without a model
    /// of unwinding has none to give, which is no error.
    fn emit_unwind_info(&self, result: &CompiledCode, kind: UnwindInfoKind) -> (info: Result<
        Option<UnwindInfo>,
        CodegenError,
    >)
        ensures
            !self.surface().unwinding ==> info matches Ok(None),
            info matches Err(e) ==> e@ is Unsupported && e@->target == self.surface().name,
    ;

    /// The common information entry of System V call frames. A target
    /// without a model of unwinding has none.
    fn create_systemv_cie(&self) -> (entry: Option<gimli::write::CommonInformationEntry>)
        ensures
            !self.surface().unwinding ==> entry is None,
    ;

    /// The number of a register in the debug information.
    fn map_regalloc_reg_to_dwarf(&self, reg: Reg) -> (number: Result<u16, RegisterMappingError>)
        ensures
            !self.surface().unwinding ==> number == Err::<u16, RegisterMappingError>(
                RegisterMappingError::UnsupportedArchitecture,
            ),
    ;

    /// A disassembler for the target's machine code. A target without one
    /// answers with `Ok(None)`, which is no error.
    fn to_capstone(&self) -> (disassembler: Result<Option<capstone::Capstone>, capstone::Error>)
        ensures
            !self.surface().disassembly ==> disassembler matches Ok(None),
    ;
}

/// A backend of any target, owned and ready to use.
pub struct OwnedTargetIsa {
    pub isa: Box<dyn TargetIsa>,
}

impl OwnedTargetIsa {
    /// What the queries of the contract show of the backend.
    pub open spec fn surface(&self) -> IsaSurface {
        self.isa.surface()
    }
}

} // verus!
