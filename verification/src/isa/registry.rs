//! The registry of targets and the two-step construction of a backend:
//! look the target up, then finish with the flags.

use vstd::prelude::*;
use crate::ir::FunctionView;
use crate::isa::contract::IsaSurface;
use crate::isa::contract::OwnedTargetIsa;
use crate::isa::triple::lexicon_triple;
use crate::isa::triple::TargetTriple;
use crate::isa::triple::TripleView;
use crate::isa::z80::isa_builder;
use crate::isa::z80::settings::z80_schema;
use crate::isa::z80::z80_lowering;
use crate::isa::z80::z80_surface;
use crate::machinst::CompiledCodeView;
use crate::result::CodegenErrorView;
use crate::settings::flags::override_texts;
use crate::settings::flags::resolution;
use crate::settings::flags::resolve;
use crate::settings::flags::ConfigError;
use crate::settings::flags::ConfigErrorView;
use crate::settings::flags::FlagSet;
use crate::settings::flags::FlagSetView;
use crate::settings::laws::lemma_resolution_ignores_order;
use crate::settings::schema::Schema;
use crate::settings::schema::SchemaView;
use crate::settings::schema::SettingValue;
use crate::text::str_eq;

verus! {

/// What a target brings to a registry: the schema of its settings and the
/// constructor of its backends. A constructor holds no state that changes,
/// so that a registry can be read from any thread.
pub trait BackendConstructor: Send + Sync {
    /// The schema of the target's settings.
    spec fn schema(&self) -> SchemaView;

    /// The surface of the backend that the constructor makes from the
    /// given configuration.
    spec fn surface_of(
        &self,
        triple: TripleView,
        shared_flags: FlagSetView,
        isa_flags: FlagSetView,
    ) -> IsaSurface;

    /// What the backend that the constructor makes from the given
    /// configuration gives for a compilation.
    spec fn lowering_of(
        &self,
        triple: TripleView,
        shared_flags: FlagSetView,
        isa_flags: FlagSetView,
        func: FunctionView,
        dominators: Seq<Option<u32>>,
        want_disasm: bool,
        plane: cranelift_control::ControlPlane,
    ) -> Result<CompiledCodeView, CodegenErrorView>;

    /// Provides the schema of the target's settings.
    fn setup(&self) -> (schema: Schema)
        ensures
            schema@ == self.schema(),
    ;

    /// Makes a backend from a triple, the shared flags and a flag set of
    /// the target's own schema. What the contract shows of the backend and
    /// what it compiles a function to are fixed by the configuration, and
    /// the configuration is what it was made from.
    fn construct(&self, triple: TargetTriple, shared_flags: FlagSet, isa_flags: FlagSet) -> (isa:
        OwnedTargetIsa)
        requires
            isa_flags@.schema == self.schema(),
        ensures
            isa.surface() == self.surface_of(triple@, shared_flags@, isa_flags@),
            isa.surface().triple == triple@,
            isa.surface().shared_flags == shared_flags@,
            isa.surface().target_flags == isa_flags@,
            forall|
                func: FunctionView,
                dominators: Seq<Option<u32>>,
                want_disasm: bool,
                plane: cranelift_control::ControlPlane,
            | #[trigger]
                isa.isa.lowering(func, dominators, want_disasm, plane) == self.lowering_of(
                    triple@,
                    shared_flags@,
                    isa_flags@,
                    func,
                    dominators,
                    want_disasm,
                    plane,
                ),
    ;
}

/// All that is needed to build the backends of one target: the
/// constructor, which also provides the schema of the target's settings.
/// The flag sets that a builder hands to its constructor are resolved from
/// that schema.
pub struct IsaBuilder {
    pub constructor: Box<dyn BackendConstructor>,
}

impl IsaBuilder {
    /// The schema of the target's settings.
    pub open spec fn schema(&self) -> SchemaView {
        self.constructor.schema()
    }

    /// The schema of the target's settings, as its constructor provides
    /// it.
    pub fn setup(&self) -> (schema: Schema)
        ensures
            schema@ == self.schema(),
    {
        self.constructor.setup()
    }

    /// The flag set that a list of overrides which resolves gives.
    pub open spec fn resolved_flags(&self, overrides: Seq<(Seq<char>, Seq<char>)>) -> FlagSetView {
        FlagSetView { schema: self.schema(), values: resolution(self.schema(), overrides)->Ok_0 }
    }

    /// The surface of the backend that this builder makes for a triple,
    /// shared flags and a list of overrides that resolves.
    pub open spec fn built_surface(
        &self,
        triple: TripleView,
        shared_flags: FlagSetView,
        overrides: Seq<(Seq<char>, Seq<char>)>,
    ) -> IsaSurface {
        self.constructor.surface_of(triple, shared_flags, self.resolved_flags(overrides))
    }

    /// What the backend that this builder makes for a triple, shared flags
    /// and a list of overrides that resolves gives for a compilation.
    pub open spec fn built_lowering(
        &self,
        triple: TripleView,
        shared_flags: FlagSetView,
        overrides: Seq<(Seq<char>, Seq<char>)>,
        func: FunctionView,
        dominators: Seq<Option<u32>>,
        want_disasm: bool,
        plane: cranelift_control::ControlPlane,
    ) -> Result<CompiledCodeView, CodegenErrorView> {
        self.constructor.lowering_of(
            triple,
            shared_flags,
            self.resolved_flags(overrides),
            func,
            dominators,
            want_disasm,
            plane,
        )
    }
}

/// A builder bound to the triple that was looked up: the schema can be
/// read before anything is constructed.
pub struct PendingBuilder<'a> {
    pub triple: TargetTriple,
    pub builder: &'a IsaBuilder,
}

impl<'a> PendingBuilder<'a> {
    /// The schema of the target's settings, to read before anything is
    /// constructed.
    pub fn schema(&self) -> (schema: Schema)
        ensures
            schema@ == self.builder.schema(),
    {
        self.builder.setup()
    }

    /// Resolves the target's flag set from the overrides and constructs
    /// the backend.
    ///
    /// The overrides are refused as [`resolve`] refuses them, before
    /// anything is constructed. Otherwise the backend is the one that the
    /// target's constructor makes from the triple, the shared flags and the
    /// flag set resolved from the target's schema.
    pub fn finish(self, shared_flags: FlagSet, overrides: &[(&str, &str)]) -> (finished: Result<
        OwnedTargetIsa,
        ConfigError,
    >)
        ensures
            match finished {
                Ok(isa) => {
                    &&& resolution(self.builder.schema(), override_texts(overrides@)) is Ok
                    &&& isa.surface() == self.builder.built_surface(
                        self.triple@,
                        shared_flags@,
                        override_texts(overrides@),
                    )
                    &&& isa.surface().triple == self.triple@
                    &&& isa.surface().shared_flags == shared_flags@
                    &&& isa.surface().target_flags == self.builder.resolved_flags(
                        override_texts(overrides@),
                    )
                    &&& forall|
                        func: FunctionView,
                        dominators: Seq<Option<u32>>,
                        want_disasm: bool,
                        plane: cranelift_control::ControlPlane,
                    | #[trigger]
                        isa.isa.lowering(func, dominators, want_disasm, plane)
                            == self.builder.built_lowering(
                            self.triple@,
                            shared_flags@,
                            override_texts(overrides@),
                            func,
                            dominators,
                            want_disasm,
                            plane,
                        )
                },
                Err(e) => resolution(self.builder.schema(), override_texts(overrides@)) == Err::<
                    Seq<SettingValue>,
                    ConfigErrorView,
                >(e@),
            },
    {
        let PendingBuilder { triple, builder } = self;
        let setup = builder.setup();
        match resolve(&setup, overrides) {
            Err(e) => Err(e),
            Ok(isa_flags) => {
                assert(isa_flags@ =~= builder.resolved_flags(override_texts(overrides@)));
                Ok(builder.constructor.construct(triple, shared_flags, isa_flags))
            },
        }
    }
}

/// One target of a registry: the identifier it answers to and its builder.
pub struct RegistryEntry {
    pub target: String,
    pub builder: IsaBuilder,
}

/// Whether an entry answers to the identifier.
pub open spec fn registers(entries: Seq<RegistryEntry>, target: Seq<char>) -> bool {
    exists|i: int| 0 <= i < entries.len() && (#[trigger] entries[i]).target@ == target
}

/// The position of the entry that answers to the identifier, where there
/// is one.
pub open spec fn entry_of(entries: Seq<RegistryEntry>, target: Seq<char>) -> int {
    choose|i: int| 0 <= i < entries.len() && (#[trigger] entries[i]).target@ == target
}

/// Whether no two entries answer to the same identifier.
pub open spec fn unambiguous(entries: Seq<RegistryEntry>) -> bool {
    forall|i: int, j: int|
        0 <= i < j < entries.len() ==> (#[trigger] entries[i]).target@ != (
        #[trigger] entries[j]).target@
}

/// Why a target was not registered.
#[derive(Debug, PartialEq, Eq)]
pub enum RegistrationError {
    /// An entry answers to this identifier already.
    DuplicateTarget(String),
}

/// No entry answers to the identifier of the requested target.
#[derive(Debug, PartialEq, Eq)]
pub struct UnsupportedTargetError {
    pub target: String,
}

/// The table of targets. It is filled once, entry by entry, and then only
/// read; no two of its entries answer to the same identifier.
pub struct Registry {
    entries: Vec<RegistryEntry>,
}

impl View for Registry {
    type V = Seq<RegistryEntry>;

    closed spec fn view(&self) -> Seq<RegistryEntry> {
        self.entries@
    }
}

impl Registry {
    #[verifier::type_invariant]
    spec fn valid(self) -> bool {
        unambiguous(self@)
    }

    /// A registry without entries.
    pub fn new() -> (registry: Registry)
        ensures
            registry@ == Seq::<RegistryEntry>::empty(),
    {
        Registry { entries: Vec::new() }
    }

    /// The position of the entry that answers to the identifier.
    fn find(&self, target: &str) -> (found: Option<usize>)
        ensures
            unambiguous(self@),
            match found {
                Some(i) => registers(self@, target@) && i == entry_of(self@, target@),
                None => !registers(self@, target@),
            },
    {
        proof {
            use_type_invariant(self);
        }
        let mut i: usize = 0;
        while i < self.entries.len()
            invariant
                i <= self.entries.len(),
                unambiguous(self@),
                self@ == self.entries@,
                forall|j: int| 0 <= j < i ==> (#[trigger] self.entries[j]).target@ != target@,
            decreases self.entries.len() - i,
        {
            if str_eq(self.entries[i].target.as_str(), target) {
                proof {
                    let at = entry_of(self@, target@);
                    assert(self@[i as int].target@ == target@);
                    if at < i {
                        assert(self@[at].target@ != self@[i as int].target@);
                    } else if at > i {
                        assert(self@[i as int].target@ != self@[at].target@);
                    }
                }
                return Some(i);
            }
            i += 1;
        }
        None
    }

    /// Adds a target under an identifier.
    ///
    /// An identifier that an entry answers to already is refused, so that
    /// no lookup ever finds two entries. A refused registration leaves the
    /// registry as it was.
    pub fn register(&mut self, target: &str, builder: IsaBuilder) -> (registered: Result<
        (),
        RegistrationError,
    >)
        ensures
            match registered {
                Ok(_) => !registers(old(self)@, target@) && final(self)@.len() == old(self)@.len()
                    + 1 && final(self)@.drop_last() == old(self)@ && final(self)@.last().target@
                    == target@ && final(self)@.last().builder == builder,
                Err(RegistrationError::DuplicateTarget(name)) => registers(old(self)@, target@)
                    && name@ == target@ && final(self)@ == old(self)@,
            },
    {
        match self.find(target) {
            Some(_) => Err(RegistrationError::DuplicateTarget(target.to_owned())),
            None => {
                let ghost before = self@;
                let mut taken = Registry::new();
                std::mem::swap(self, &mut taken);
                let Registry { entries } = taken;
                let mut entries = entries;
                entries.push(RegistryEntry { target: target.to_owned(), builder });
                proof {
                    assert(entries@.drop_last() =~= before);
                    assert forall|i: int, j: int| 0 <= i < j < entries.len() implies (
                    #[trigger] entries[i]).target@ != (#[trigger] entries[j]).target@ by {
                        assert(entries[i] == before[i]);
                        if j < before.len() {
                            assert(entries[j] == before[j]);
                        }
                    }
                }
                *self = Registry { entries };
                Ok(())
            },
        }
    }

    /// Looks up the target of a triple by the triple's identifier.
    ///
    /// The lookup succeeds exactly when an entry answers to the
    /// identifier. The builder it gives is that entry's, bound to the
    /// triple.
    pub fn lookup(&self, triple: &TargetTriple) -> (found: Result<
        PendingBuilder<'_>,
        UnsupportedTargetError,
    >)
        ensures
            unambiguous(self@),
            match found {
                Ok(pending) => registers(self@, triple@.identifier()) && pending.triple@ == triple@
                    && *pending.builder == self@[entry_of(self@, triple@.identifier())].builder,
                Err(e) => !registers(self@, triple@.identifier()) && e.target@
                    == triple@.identifier(),
            },
    {
        match self.find(triple.architecture.as_str()) {
            Some(i) => Ok(PendingBuilder { triple: triple.clone(), builder: &self.entries[i].builder }),
            None => Err(UnsupportedTargetError { target: triple.architecture.clone() }),
        }
    }

    /// Looks up the target that a text names: the text is read as a triple
    /// and the triple looked up.
    ///
    /// A text that is no triple names no target.
    pub fn lookup_by_name(&self, text: &str) -> (found: Result<
        PendingBuilder<'_>,
        UnsupportedTargetError,
    >)
        ensures
            match found {
                Ok(pending) => lexicon_triple(text@) matches Some(triple) && registers(
                    self@,
                    triple.identifier(),
                ) && pending.triple@ == triple && *pending.builder == self@[entry_of(
                    self@,
                    triple.identifier(),
                )].builder,
                Err(e) => match lexicon_triple(text@) {
                    Some(triple) => !registers(self@, triple.identifier()) && e.target@
                        == triple.identifier(),
                    None => e.target@ == text@,
                },
            },
    {
        match TargetTriple::parse(text) {
            Some(triple) => self.lookup(&triple),
            None => Err(UnsupportedTargetError { target: text.to_owned() }),
        }
    }

    /// The identifiers that the entries answer to, in the order in which
    /// they were registered.
    pub fn targets(&self) -> (targets: Vec<String>)
        ensures
            targets.len() == self@.len(),
            forall|i: int| 0 <= i < targets.len() ==> (#[trigger] targets[i])@ == self@[i].target@,
    {
        let mut targets: Vec<String> = Vec::new();
        let mut i: usize = 0;
        while i < self.entries.len()
            invariant
                i <= self.entries.len(),
                targets.len() == i,
                forall|j: int| 0 <= j < i ==> (#[trigger] targets[j])@ == self.entries[j].target@,
            decreases self.entries.len() - i,
        {
            targets.push(self.entries[i].target.clone());
            i += 1;
        }
        targets
    }
}

/// The registry of the targets that this crate brings: the Z80 family,
/// under the identifier `z80`.
pub fn builtin_targets() -> (registry: Registry)
    ensures
        registry@.len() == 1,
        registry@[0].target@ == "z80"@,
        registry@[0].builder.schema() == z80_schema(),
        forall|triple: TripleView, shared_flags: FlagSetView, isa_flags: FlagSetView|
            #[trigger] registry@[0].builder.constructor.surface_of(triple, shared_flags, isa_flags)
                == z80_surface(triple, shared_flags, isa_flags),
        forall|
            triple: TripleView,
            shared_flags: FlagSetView,
            isa_flags: FlagSetView,
            func: FunctionView,
            dominators: Seq<Option<u32>>,
            want_disasm: bool,
            plane: cranelift_control::ControlPlane,
        | #[trigger]
            registry@[0].builder.constructor.lowering_of(
                triple,
                shared_flags,
                isa_flags,
                func,
                dominators,
                want_disasm,
                plane,
            ) == z80_lowering(func),
{
    let mut registry = Registry::new();
    let registered = registry.register("z80", isa_builder());
    assert(registered is Ok);
    assert(registry@[0] == registry@.last());
    registry
}

/// At most one entry of a registry answers to an identifier.
pub proof fn lemma_at_most_one_entry(entries: Seq<RegistryEntry>, target: Seq<char>, i: int, j: int)
    requires
        unambiguous(entries),
        0 <= i < entries.len(),
        0 <= j < entries.len(),
        entries[i].target@ == target,
        entries[j].target@ == target,
    ensures
        i == j,
{
    if i < j {
        assert(entries[i].target@ != entries[j].target@);
    } else if j < i {
        assert(entries[j].target@ != entries[i].target@);
    }
}

/// Two backends that one builder makes for the same triple, the same
/// shared flags and the same overrides, given in any order, show the same
/// surface and compile every function to the same outcome: nothing in the
/// contract tells them apart.
pub proof fn lemma_same_configuration_same_backend(
    builder: IsaBuilder,
    triple: TripleView,
    shared_flags: FlagSetView,
    first: Seq<(Seq<char>, Seq<char>)>,
    second: Seq<(Seq<char>, Seq<char>)>,
)
    requires
        builder.schema().well_formed(),
        first.to_multiset() == second.to_multiset(),
        resolution(builder.schema(), first) is Ok,
    ensures
        resolution(builder.schema(), second) is Ok,
        builder.built_surface(triple, shared_flags, first) == builder.built_surface(
            triple,
            shared_flags,
            second,
        ),
        forall|
            func: FunctionView,
            dominators: Seq<Option<u32>>,
            want_disasm: bool,
            plane: cranelift_control::ControlPlane,
        | #[trigger]
            builder.built_lowering(
                triple,
                shared_flags,
                first,
                func,
                dominators,
                want_disasm,
                plane,
            ) == builder.built_lowering(
                triple,
                shared_flags,
                second,
                func,
                dominators,
                want_disasm,
                plane,
            ),
{
    lemma_resolution_ignores_order(builder.schema(), first, second);
}

} // verus!
