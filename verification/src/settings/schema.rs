//! Setting descriptors, the schema that orders them, and the builder that
//! checks each declaration.

use vstd::prelude::*;
use vstd::std_specs::cmp::PartialEqSpecImpl;
use crate::text::str_eq;
use crate::text::texts;

verus! {

/// The value that a setting is bound to.
///
/// An enumerated setting holds the index of the chosen entry in its
/// descriptor's list of choices.
#[derive(Clone, Copy, Debug, PartialEq, Eq, Hash, Structural)]
pub enum SettingValue {
    Bool(bool),
    Enum(u8),
    Num(u8),
}

/// The kind of value that a setting takes.
#[derive(Debug, Eq, Hash)]
pub enum SettingKind {
    /// `true` or `false`.
    Bool,
    /// One of the listed choices.
    Enum(Vec<String>),
    /// A number from 0 to 255.
    Num,
}

/// The mathematical model of a [`SettingKind`].
pub enum KindView {
    Bool,
    Enum(Seq<Seq<char>>),
    Num,
}

impl View for SettingKind {
    type V = KindView;

    open spec fn view(&self) -> KindView {
        match self {
            SettingKind::Bool => KindView::Bool,
            SettingKind::Enum(choices) => KindView::Enum(texts(choices@)),
            SettingKind::Num => KindView::Num,
        }
    }
}

/// One declared setting: its identifiers, its documentation, its kind and
/// the value it has when nothing overrides it.
#[derive(Debug, Eq, Hash)]
pub struct Descriptor {
    pub name: String,
    pub summary: String,
    pub description: String,
    pub kind: SettingKind,
    pub default: SettingValue,
}

/// The mathematical model of a [`Descriptor`].
pub struct DescriptorView {
    pub name: Seq<char>,
    pub summary: Seq<char>,
    pub description: Seq<char>,
    pub kind: KindView,
    pub default: SettingValue,
}

impl View for Descriptor {
    type V = DescriptorView;

    open spec fn view(&self) -> DescriptorView {
        DescriptorView {
            name: self.name@,
            summary: self.summary@,
            description: self.description@,
            kind: self.kind@,
            default: self.default,
        }
    }
}

/// The models of a run of descriptors, in order.
pub open spec fn descriptors(settings: Seq<Descriptor>) -> Seq<DescriptorView> {
    Seq::new(settings.len(), |i: int| settings[i]@)
}

/// Whether no text occurs twice.
pub open spec fn all_distinct(items: Seq<Seq<char>>) -> bool {
    forall|i: int, j: int| 0 <= i < j < items.len() ==> items[i] != items[j]
}

/// Whether `value` is a value of kind `kind`.
pub open spec fn value_fits(kind: KindView, value: SettingValue) -> bool {
    match (kind, value) {
        (KindView::Bool, SettingValue::Bool(_)) => true,
        (KindView::Enum(choices), SettingValue::Enum(index)) => index < choices.len(),
        (KindView::Num, SettingValue::Num(_)) => true,
        _ => false,
    }
}

/// An enumerated kind offers between 1 and 256 choices, no two alike.
pub open spec fn kind_well_formed(kind: KindView) -> bool {
    kind matches KindView::Enum(choices) ==> 1 <= choices.len() <= 256 && all_distinct(choices)
}

/// A descriptor is named, its kind is well formed and its default is a value
/// of that kind.
pub open spec fn descriptor_well_formed(d: DescriptorView) -> bool {
    &&& d.name.len() > 0
    &&& kind_well_formed(d.kind)
    &&& value_fits(d.kind, d.default)
}

/// The mathematical model of a schema and of a schema under construction:
/// the target it belongs to and its descriptors in declaration order.
pub struct SchemaView {
    pub target: Seq<char>,
    pub settings: Seq<DescriptorView>,
}

impl SchemaView {
    /// Whether a setting of this name is declared.
    pub open spec fn declares(self, name: Seq<char>) -> bool {
        exists|k: int| 0 <= k < self.settings.len() && #[trigger] self.settings[k].name == name
    }

    /// The position of the setting of this name, where one is declared.
    pub open spec fn position(self, name: Seq<char>) -> int {
        choose|k: int| 0 <= k < self.settings.len() && #[trigger] self.settings[k].name == name
    }

    /// Every descriptor is well formed and no name is declared twice.
    pub open spec fn well_formed(self) -> bool {
        &&& forall|k: int|
            0 <= k < self.settings.len() ==> descriptor_well_formed(#[trigger] self.settings[k])
        &&& forall|i: int, j: int|
            0 <= i < j < self.settings.len() ==> (#[trigger] self.settings[i]).name != (
            #[trigger] self.settings[j]).name
    }

    /// The default of every setting, in declaration order.
    pub open spec fn defaults(self) -> Seq<SettingValue> {
        Seq::new(self.settings.len(), |k: int| self.settings[k].default)
    }
}

/// In a well-formed schema a name is declared at one position only.
pub proof fn lemma_position_is_unique(schema: SchemaView, name: Seq<char>, k: int)
    requires
        schema.well_formed(),
        0 <= k < schema.settings.len(),
        schema.settings[k].name == name,
    ensures
        schema.declares(name),
        schema.position(name) == k,
{
    let p = schema.position(name);
    if p < k {
        assert(schema.settings[p].name != schema.settings[k].name);
    } else if k < p {
        assert(schema.settings[k].name != schema.settings[p].name);
    }
}

/// Why a declaration was refused.
#[derive(Debug, PartialEq, Eq)]
pub enum SchemaDefinitionError {
    /// The setting has no name.
    EmptyName,
    /// A setting of this name is already declared.
    DuplicateName(String),
    /// The enumerated setting of this name offers no choice.
    NoChoices(String),
    /// The enumerated setting of this name offers more than 256 choices.
    TooManyChoices(String),
    /// The enumerated setting of this name lists this choice twice.
    DuplicateChoice(String, String),
    /// The default of the enumerated setting of this name is none of its
    /// choices.
    UnknownDefault(String, String),
}

/// The mathematical model of a [`SchemaDefinitionError`].
pub enum DefinitionErrorView {
    EmptyName,
    DuplicateName(Seq<char>),
    NoChoices(Seq<char>),
    TooManyChoices(Seq<char>),
    DuplicateChoice(Seq<char>, Seq<char>),
    UnknownDefault(Seq<char>, Seq<char>),
}

impl View for SchemaDefinitionError {
    type V = DefinitionErrorView;

    open spec fn view(&self) -> DefinitionErrorView {
        match self {
            SchemaDefinitionError::EmptyName => DefinitionErrorView::EmptyName,
            SchemaDefinitionError::DuplicateName(name) => DefinitionErrorView::DuplicateName(name@),
            SchemaDefinitionError::NoChoices(name) => DefinitionErrorView::NoChoices(name@),
            SchemaDefinitionError::TooManyChoices(name) => DefinitionErrorView::TooManyChoices(
                name@,
            ),
            SchemaDefinitionError::DuplicateChoice(name, choice) => {
                DefinitionErrorView::DuplicateChoice(name@, choice@)
            },
            SchemaDefinitionError::UnknownDefault(name, default) => {
                DefinitionErrorView::UnknownDefault(name@, default@)
            },
        }
    }
}

/// Whether the entry at `j` repeats an earlier one.
pub open spec fn repeats_earlier(items: Seq<Seq<char>>, j: int) -> bool {
    exists|i: int| 0 <= i < j && #[trigger] items[i] == items[j]
}

/// The position of the first entry that repeats an earlier one, where there
/// is one.
pub open spec fn first_repeat(items: Seq<Seq<char>>) -> int {
    choose|j: int|
        0 <= j < items.len() && #[trigger] repeats_earlier(items, j) && forall|k: int|
            0 <= k < j ==> !#[trigger] repeats_earlier(items, k)
}

/// The position of `item` among `items`, where it occurs.
pub open spec fn index_of(items: Seq<Seq<char>>, item: Seq<char>) -> int {
    choose|i: int| 0 <= i < items.len() && #[trigger] items[i] == item
}

/// What the name of a new setting is refused for, if anything: it is empty, or
/// the schema declares it already.
pub open spec fn name_refusal(schema: SchemaView, name: Seq<char>) -> Option<DefinitionErrorView> {
    if name.len() == 0 {
        Some(DefinitionErrorView::EmptyName)
    } else if schema.declares(name) {
        Some(DefinitionErrorView::DuplicateName(name))
    } else {
        None
    }
}

/// What a list of choices with its default is refused for, if anything. The
/// checks come in this order: no choice, too many, a repeated choice (the
/// first that repeats an earlier one is reported), a default that is no
/// choice.
pub open spec fn choices_refusal(
    name: Seq<char>,
    choices: Seq<Seq<char>>,
    default: Seq<char>,
) -> Option<DefinitionErrorView> {
    if choices.len() == 0 {
        Some(DefinitionErrorView::NoChoices(name))
    } else if choices.len() > 256 {
        Some(DefinitionErrorView::TooManyChoices(name))
    } else if !all_distinct(choices) {
        Some(DefinitionErrorView::DuplicateChoice(name, choices[first_repeat(choices)]))
    } else if !choices.contains(default) {
        Some(DefinitionErrorView::UnknownDefault(name, default))
    } else {
        None
    }
}

/// The schema with one more descriptor at its end.
pub open spec fn extended(schema: SchemaView, d: DescriptorView) -> SchemaView {
    SchemaView { target: schema.target, settings: schema.settings.push(d) }
}

/// The outcome of declaring a boolean or a numeric setting.
pub open spec fn declaration(schema: SchemaView, d: DescriptorView) -> Result<
    SchemaView,
    DefinitionErrorView,
> {
    match name_refusal(schema, d.name) {
        Some(refusal) => Err(refusal),
        None => Ok(extended(schema, d)),
    }
}

/// The outcome of declaring an enumerated setting: the name is checked
/// first, then the choices.
pub open spec fn enum_declaration(
    schema: SchemaView,
    name: Seq<char>,
    summary: Seq<char>,
    description: Seq<char>,
    choices: Seq<Seq<char>>,
    default: Seq<char>,
) -> Result<SchemaView, DefinitionErrorView> {
    match name_refusal(schema, name) {
        Some(refusal) => Err(refusal),
        None => match choices_refusal(name, choices, default) {
            Some(refusal) => Err(refusal),
            None => Ok(
                extended(
                    schema,
                    DescriptorView {
                        name,
                        summary,
                        description,
                        kind: KindView::Enum(choices),
                        default: SettingValue::Enum(index_of(choices, default) as u8),
                    },
                ),
            ),
        },
    }
}

/// Adding a well-formed descriptor under a fresh name keeps a schema well
/// formed.
proof fn lemma_extended_well_formed(schema: SchemaView, d: DescriptorView)
    requires
        schema.well_formed(),
        descriptor_well_formed(d),
        !schema.declares(d.name),
    ensures
        extended(schema, d).well_formed(),
{
    let bigger = extended(schema, d);
    assert forall|k: int| 0 <= k < bigger.settings.len() implies descriptor_well_formed(
        #[trigger] bigger.settings[k],
    ) by {
        if k < schema.settings.len() {
            assert(bigger.settings[k] == schema.settings[k]);
        }
    }
    assert forall|i: int, j: int| 0 <= i < j < bigger.settings.len() implies (
    #[trigger] bigger.settings[i]).name != (#[trigger] bigger.settings[j]).name by {
        assert(bigger.settings[i] == schema.settings[i]);
        if j < schema.settings.len() {
            assert(bigger.settings[j] == schema.settings[j]);
        } else {
            assert(schema.settings[i].name == schema.settings[i].name);
        }
    }
}

/// Finds the descriptor of the given name.
fn find_setting(settings: &Vec<Descriptor>, name: &str) -> (found: Option<usize>)
    ensures
        match found {
            Some(k) => k < settings.len() && settings[k as int].name@ == name@,
            None => forall|k: int| 0 <= k < settings.len() ==> settings[k].name@ != name@,
        },
{
    let mut k: usize = 0;
    while k < settings.len()
        invariant
            k <= settings.len(),
            forall|j: int| 0 <= j < k ==> settings[j].name@ != name@,
        decreases settings.len() - k,
    {
        if str_eq(settings[k].name.as_str(), name) {
            return Some(k);
        }
        k += 1;
    }
    None
}

/// Finds the first entry that holds `item`.
pub fn find_text(items: &Vec<String>, item: &str) -> (found: Option<usize>)
    ensures
        match found {
            Some(i) => i < items.len() && items[i as int]@ == item@ && forall|j: int|
                0 <= j < i ==> items[j]@ != item@,
            None => !texts(items@).contains(item@),
        },
{
    let mut i: usize = 0;
    while i < items.len()
        invariant
            i <= items.len(),
            forall|j: int| 0 <= j < i ==> items[j]@ != item@,
        decreases items.len() - i,
    {
        if str_eq(items[i].as_str(), item) {
            return Some(i);
        }
        i += 1;
    }
    proof {
        if texts(items@).contains(item@) {
            let j = choose|j: int| 0 <= j < texts(items@).len() && texts(items@)[j] == item@;
            assert(items[j]@ != item@);
        }
    }
    None
}

/// Copies a list of texts into owned strings.
fn owned_texts(items: &[&str]) -> (copies: Vec<String>)
    ensures
        copies.len() == items.len(),
        forall|i: int| 0 <= i < items.len() ==> (#[trigger] copies[i])@ == items[i]@,
{
    let mut copies: Vec<String> = Vec::new();
    let mut i: usize = 0;
    while i < items.len()
        invariant
            i <= items.len(),
            copies.len() == i,
            forall|j: int| 0 <= j < i ==> (#[trigger] copies[j])@ == items[j]@,
        decreases items.len() - i,
    {
        copies.push(items[i].to_owned());
        i += 1;
    }
    copies
}

/// The views of a run of borrowed texts.
pub open spec fn slices(items: Seq<&str>) -> Seq<Seq<char>> {
    Seq::new(items.len(), |i: int| items[i]@)
}

/// Looks for the first choice that repeats an earlier one.
fn find_repeat(choices: &Vec<String>) -> (found: Option<usize>)
    ensures
        match found {
            Some(j) => j < choices.len() && !all_distinct(texts(choices@)) && first_repeat(
                texts(choices@),
            ) == j,
            None => all_distinct(texts(choices@)),
        },
{
    let ghost items = texts(choices@);
    let mut j: usize = 0;
    while j < choices.len()
        invariant
            j <= choices.len(),
            items == texts(choices@),
            forall|k: int| 0 <= k < j ==> !#[trigger] repeats_earlier(items, k),
        decreases choices.len() - j,
    {
        let mut i: usize = 0;
        while i < j
            invariant
                i <= j,
                j < choices.len(),
                items == texts(choices@),
                forall|k: int| 0 <= k < j ==> !#[trigger] repeats_earlier(items, k),
                forall|h: int| 0 <= h < i ==> items[h] != items[j as int],
            decreases j - i,
        {
            if str_eq(choices[i].as_str(), choices[j].as_str()) {
                proof {
                    assert(items[i as int] == items[j as int]);
                    assert(repeats_earlier(items, j as int));
                    let first = first_repeat(items);
                    assert(0 <= first < items.len() && repeats_earlier(items, first) && forall|
                        k: int,
                    | 0 <= k < first ==> !#[trigger] repeats_earlier(items, k));
                    if first < j {
                        assert(!repeats_earlier(items, first));
                    } else if first > j {
                        assert(!repeats_earlier(items, j as int));
                    }
                }
                return Some(j);
            }
            i += 1;
        }
        assert(!repeats_earlier(items, j as int));
        j += 1;
    }
    proof {
        assert forall|a: int, b: int| 0 <= a < b < items.len() implies items[a] != items[b] by {
            assert(!repeats_earlier(items, b));
        }
    }
    None
}

/// A schema under construction.
///
/// Declarations are checked as they are made, so what has been declared is
/// well formed at every step.
#[derive(Debug)]
pub struct SchemaBuilder {
    target: String,
    settings: Vec<Descriptor>,
}

impl View for SchemaBuilder {
    type V = SchemaView;

    closed spec fn view(&self) -> SchemaView {
        SchemaView { target: self.target@, settings: descriptors(self.settings@) }
    }
}

impl SchemaBuilder {
    #[verifier::type_invariant]
    spec fn valid(self) -> bool {
        self@.well_formed()
    }

    /// Starts the schema of the named target, with no setting declared.
    pub fn new(target: &str) -> (builder: SchemaBuilder)
        ensures
            builder@ == (SchemaView { target: target@, settings: Seq::empty() }),
    {
        let builder = SchemaBuilder { target: target.to_owned(), settings: Vec::new() };
        assert(builder@.settings =~= Seq::empty());
        builder
    }

    /// Checks the name of a new setting.
    fn check_name(&self, name: &str) -> (checked: Result<(), SchemaDefinitionError>)
        ensures
            self@.well_formed(),
            match checked {
                Ok(_) => name_refusal(self@, name@) is None,
                Err(e) => name_refusal(self@, name@) == Some(e@),
            },
    {
        proof {
            use_type_invariant(self);
        }
        if name.is_empty() {
            return Err(SchemaDefinitionError::EmptyName);
        }
        match find_setting(&self.settings, name) {
            Some(k) => {
                assert(self@.settings[k as int].name == name@);
                Err(SchemaDefinitionError::DuplicateName(name.to_owned()))
            },
            None => {
                assert(!self@.declares(name@)) by {
                    if self@.declares(name@) {
                        let k = self@.position(name@);
                        assert(self.settings[k].name@ != name@);
                    }
                }
                Ok(())
            },
        }
    }

    /// Appends a checked descriptor.
    fn with(self, d: Descriptor) -> (builder: SchemaBuilder)
        requires
            self@.well_formed(),
            descriptor_well_formed(d@),
            !self@.declares(d@.name),
        ensures
            builder@ == extended(self@, d@),
    {
        let ghost before = self@;
        let SchemaBuilder { target, settings } = self;
        let mut settings = settings;
        settings.push(d);
        proof {
            lemma_extended_well_formed(before, d@);
            assert(descriptors(settings@) =~= before.settings.push(d@));
        }
        SchemaBuilder { target, settings }
    }

    /// Declares a boolean setting.
    ///
    /// The declaration is refused where the name is empty or already
    /// declared; otherwise the setting is appended.
    pub fn declare_bool(self, name: &str, summary: &str, description: &str, default: bool) -> (declared:
        Result<SchemaBuilder, SchemaDefinitionError>)
        ensures
            match declared {
                Ok(builder) => declaration(
                    self@,
                    DescriptorView {
                        name: name@,
                        summary: summary@,
                        description: description@,
                        kind: KindView::Bool,
                        default: SettingValue::Bool(default),
                    },
                ) == Ok::<SchemaView, DefinitionErrorView>(builder@),
                Err(e) => declaration(
                    self@,
                    DescriptorView {
                        name: name@,
                        summary: summary@,
                        description: description@,
                        kind: KindView::Bool,
                        default: SettingValue::Bool(default),
                    },
                ) == Err::<SchemaView, DefinitionErrorView>(e@),
            },
    {
        match self.check_name(name) {
            Err(e) => Err(e),
            Ok(_) => {
                let d = Descriptor {
                    name: name.to_owned(),
                    summary: summary.to_owned(),
                    description: description.to_owned(),
                    kind: SettingKind::Bool,
                    default: SettingValue::Bool(default),
                };
                Ok(self.with(d))
            },
        }
    }

    /// Declares a numeric setting, whose values run from 0 to 255.
    ///
    /// The declaration is refused where the name is empty or already
    /// declared; otherwise the setting is appended.
    pub fn declare_num(self, name: &str, summary: &str, description: &str, default: u8) -> (declared:
        Result<SchemaBuilder, SchemaDefinitionError>)
        ensures
            match declared {
                Ok(builder) => declaration(
                    self@,
                    DescriptorView {
                        name: name@,
                        summary: summary@,
                        description: description@,
                        kind: KindView::Num,
                        default: SettingValue::Num(default),
                    },
                ) == Ok::<SchemaView, DefinitionErrorView>(builder@),
                Err(e) => declaration(
                    self@,
                    DescriptorView {
                        name: name@,
                        summary: summary@,
                        description: description@,
                        kind: KindView::Num,
                        default: SettingValue::Num(default),
                    },
                ) == Err::<SchemaView, DefinitionErrorView>(e@),
            },
    {
        match self.check_name(name) {
            Err(e) => Err(e),
            Ok(_) => {
                let d = Descriptor {
                    name: name.to_owned(),
                    summary: summary.to_owned(),
                    description: description.to_owned(),
                    kind: SettingKind::Num,
                    default: SettingValue::Num(default),
                };
                Ok(self.with(d))
            },
        }
    }

    /// Declares an enumerated setting with its choices and the choice it
    /// defaults to.
    ///
    /// The name is checked as for the other kinds. The choices must be
    /// between 1 and 256, no two alike, and `default` one of them.
    pub fn declare_enum(
        self,
        name: &str,
        summary: &str,
        description: &str,
        choices: &[&str],
        default: &str,
    ) -> (declared: Result<SchemaBuilder, SchemaDefinitionError>)
        ensures
            match declared {
                Ok(builder) => enum_declaration(
                    self@,
                    name@,
                    summary@,
                    description@,
                    slices(choices@),
                    default@,
                ) == Ok::<SchemaView, DefinitionErrorView>(builder@),
                Err(e) => enum_declaration(
                    self@,
                    name@,
                    summary@,
                    description@,
                    slices(choices@),
                    default@,
                ) == Err::<SchemaView, DefinitionErrorView>(e@),
            },
    {
        match self.check_name(name) {
            Err(e) => {
                return Err(e);
            },
            Ok(_) => {},
        }
        let owned = owned_texts(choices);
        assert(texts(owned@) =~= slices(choices@));
        if owned.len() == 0 {
            return Err(SchemaDefinitionError::NoChoices(name.to_owned()));
        }
        if owned.len() > 256 {
            return Err(SchemaDefinitionError::TooManyChoices(name.to_owned()));
        }
        match find_repeat(&owned) {
            Some(j) => {
                return Err(
                    SchemaDefinitionError::DuplicateChoice(name.to_owned(), owned[j].clone()),
                );
            },
            None => {},
        }
        match find_text(&owned, default) {
            None => Err(SchemaDefinitionError::UnknownDefault(name.to_owned(), default.to_owned())),
            Some(i) => {
                proof {
                    let items = texts(owned@);
                    assert(items[i as int] == default@);
                    let chosen = index_of(items, default@);
                    if chosen < i {
                        assert(items[chosen] != items[i as int]);
                    } else if chosen > i {
                        assert(items[i as int] != items[chosen]);
                    }
                }
                let d = Descriptor {
                    name: name.to_owned(),
                    summary: summary.to_owned(),
                    description: description.to_owned(),
                    kind: SettingKind::Enum(owned),
                    default: SettingValue::Enum(i as u8),
                };
                Ok(self.with(d))
            },
        }
    }

    /// Ends the construction and hands out the immutable schema.
    pub fn build(self) -> (schema: Schema)
        ensures
            schema@ == self@,
    {
        proof {
            use_type_invariant(&self);
        }
        let SchemaBuilder { target, settings } = self;
        Schema { target, settings }
    }
}

/// An immutable, well-formed schema: the settings of one target in
/// declaration order, each under a name of its own.
#[derive(Debug, Eq, Hash)]
pub struct Schema {
    target: String,
    settings: Vec<Descriptor>,
}

impl View for Schema {
    type V = SchemaView;

    closed spec fn view(&self) -> SchemaView {
        SchemaView { target: self.target@, settings: descriptors(self.settings@) }
    }
}

impl Clone for SettingKind {
    fn clone(&self) -> (copy: SettingKind)
        ensures
            copy@ == self@,
    {
        match self {
            SettingKind::Bool => SettingKind::Bool,
            SettingKind::Num => SettingKind::Num,
            SettingKind::Enum(choices) => {
                let mut copies: Vec<String> = Vec::new();
                let mut i: usize = 0;
                while i < choices.len()
                    invariant
                        i <= choices.len(),
                        copies.len() == i,
                        forall|j: int| 0 <= j < i ==> (#[trigger] copies[j])@ == choices[j]@,
                    decreases choices.len() - i,
                {
                    copies.push(choices[i].clone());
                    i += 1;
                }
                assert(texts(copies@) =~= texts(choices@));
                SettingKind::Enum(copies)
            },
        }
    }
}

/// Whether two lists hold the same texts in the same order.
fn same_texts(a: &Vec<String>, b: &Vec<String>) -> (same: bool)
    ensures
        same == (texts(a@) == texts(b@)),
{
    if a.len() != b.len() {
        assert(texts(a@).len() != texts(b@).len());
        return false;
    }
    let mut i: usize = 0;
    while i < a.len()
        invariant
            i <= a.len(),
            a.len() == b.len(),
            forall|j: int| 0 <= j < i ==> a[j]@ == b[j]@,
        decreases a.len() - i,
    {
        if !str_eq(a[i].as_str(), b[i].as_str()) {
            assert(texts(a@)[i as int] != texts(b@)[i as int]);
            return false;
        }
        i += 1;
    }
    assert(texts(a@) =~= texts(b@));
    true
}

impl PartialEq for SettingKind {
    fn eq(&self, other: &SettingKind) -> (same: bool) {
        match (self, other) {
            (SettingKind::Bool, SettingKind::Bool) => true,
            (SettingKind::Num, SettingKind::Num) => true,
            (SettingKind::Enum(a), SettingKind::Enum(b)) => same_texts(a, b),
            _ => false,
        }
    }
}

impl PartialEqSpecImpl for SettingKind {
    open spec fn obeys_eq_spec() -> bool {
        true
    }

    /// Two kinds are equal when they are the same kind with the same
    /// choices in the same order.
    open spec fn eq_spec(&self, other: &SettingKind) -> bool {
        self@ == other@
    }
}

impl Clone for Descriptor {
    fn clone(&self) -> (copy: Descriptor)
        ensures
            copy@ == self@,
    {
        Descriptor {
            name: self.name.clone(),
            summary: self.summary.clone(),
            description: self.description.clone(),
            kind: self.kind.clone(),
            default: self.default,
        }
    }
}

impl PartialEq for Descriptor {
    fn eq(&self, other: &Descriptor) -> (same: bool) {
        str_eq(self.name.as_str(), other.name.as_str()) && str_eq(
            self.summary.as_str(),
            other.summary.as_str(),
        ) && str_eq(self.description.as_str(), other.description.as_str()) && self.kind
            == other.kind && self.default == other.default
    }
}

impl PartialEqSpecImpl for Descriptor {
    open spec fn obeys_eq_spec() -> bool {
        true
    }

    /// Two descriptors are equal when they are the same in every part.
    open spec fn eq_spec(&self, other: &Descriptor) -> bool {
        self@ == other@
    }
}

impl Clone for Schema {
    fn clone(&self) -> (copy: Schema)
        ensures
            copy@ == self@,
    {
        proof {
            use_type_invariant(self);
        }
        let mut settings: Vec<Descriptor> = Vec::new();
        let mut k: usize = 0;
        while k < self.settings.len()
            invariant
                k <= self.settings.len(),
                settings.len() == k,
                forall|j: int| 0 <= j < k ==> (#[trigger] settings[j])@ == self.settings[j]@,
            decreases self.settings.len() - k,
        {
            settings.push(self.settings[k].clone());
            k += 1;
        }
        assert(descriptors(settings@) =~= descriptors(self.settings@));
        Schema { target: self.target.clone(), settings }
    }
}

impl Schema {
    #[verifier::type_invariant]
    spec fn valid(self) -> bool {
        self@.well_formed()
    }

    /// The name of the target that the schema belongs to.
    pub fn target(&self) -> (target: &str)
        ensures
            target@ == self@.target,
    {
        self.target.as_str()
    }

    /// The number of declared settings.
    pub fn len(&self) -> (n: usize)
        ensures
            n == self@.settings.len(),
            self@.well_formed(),
    {
        proof {
            use_type_invariant(self);
        }
        self.settings.len()
    }

    /// The descriptor at position `k` of the declaration order.
    pub fn descriptor(&self, k: usize) -> (d: &Descriptor)
        requires
            k < self@.settings.len(),
        ensures
            d@ == self@.settings[k as int],
            descriptor_well_formed(d@),
    {
        proof {
            use_type_invariant(self);
            assert(descriptor_well_formed(self@.settings[k as int]));
        }
        &self.settings[k]
    }

    /// The position of the setting of the given name, if one is declared.
    pub fn find(&self, name: &str) -> (found: Option<usize>)
        ensures
            self@.well_formed(),
            match found {
                Some(k) => self@.declares(name@) && k == self@.position(name@),
                None => !self@.declares(name@),
            },
    {
        proof {
            use_type_invariant(self);
        }
        match find_setting(&self.settings, name) {
            Some(k) => {
                proof {
                    lemma_position_is_unique(self@, name@, k as int);
                }
                Some(k)
            },
            None => {
                assert(!self@.declares(name@)) by {
                    if self@.declares(name@) {
                        let k = self@.position(name@);
                        assert(self.settings[k].name@ != name@);
                    }
                }
                None
            },
        }
    }
}

impl PartialEq for Schema {
    fn eq(&self, other: &Schema) -> (same: bool) {
        if !str_eq(self.target.as_str(), other.target.as_str()) {
            return false;
        }
        if self.settings.len() != other.settings.len() {
            assert(self@.settings.len() != other@.settings.len());
            return false;
        }
        let mut k: usize = 0;
        while k < self.settings.len()
            invariant
                k <= self.settings.len(),
                self.settings.len() == other.settings.len(),
                forall|j: int| 0 <= j < k ==> self.settings[j]@ == other.settings[j]@,
            decreases self.settings.len() - k,
        {
            if self.settings[k] != other.settings[k] {
                assert(self@.settings[k as int] != other@.settings[k as int]);
                return false;
            }
            k += 1;
        }
        assert(self@.settings =~= other@.settings);
        true
    }
}

impl PartialEqSpecImpl for Schema {
    open spec fn obeys_eq_spec() -> bool {
        true
    }

    /// Two schemas are equal when they belong to the same target and
    /// declare the same settings in the same order.
    open spec fn eq_spec(&self, other: &Schema) -> bool {
        self@ == other@
    }
}

} // verus!
