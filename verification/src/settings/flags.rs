//! Flag sets: every setting of a schema bound to a value, resolved from the
//! schema's defaults and a list of textual overrides.

use vstd::prelude::*;
use vstd::std_specs::cmp::PartialEqSpecImpl;
use vstd::string::StringExecFns;
use crate::settings::schema::value_fits;
use crate::settings::schema::KindView;
use crate::settings::schema::Schema;
use crate::settings::schema::SchemaView;
use crate::settings::schema::SettingValue;
use crate::settings::value::lemma_parsed_fits;
use crate::settings::value::parse_value;
use crate::settings::value::parsed;
use crate::settings::value::push_value;
use crate::settings::value::value_text;
use crate::settings::value::value_byte;
use crate::settings::value::InvalidReason;

verus! {

/// Why a list of overrides was refused.
#[derive(Debug, PartialEq, Eq)]
pub enum ConfigError {
    /// The schema declares no setting of this name.
    UnknownSetting(String),
    /// The value given for the setting of this name was refused.
    InvalidValue(String, InvalidReason),
}

/// The mathematical model of a [`ConfigError`].
pub enum ConfigErrorView {
    UnknownSetting(Seq<char>),
    InvalidValue(Seq<char>, InvalidReason),
}

impl View for ConfigError {
    type V = ConfigErrorView;

    open spec fn view(&self) -> ConfigErrorView {
        match self {
            ConfigError::UnknownSetting(name) => ConfigErrorView::UnknownSetting(name@),
            ConfigError::InvalidValue(name, reason) => ConfigErrorView::InvalidValue(name@, *reason),
        }
    }
}

/// The models of a list of `(name, value)` overrides.
pub open spec fn override_texts(overrides: Seq<(&str, &str)>) -> Seq<(Seq<char>, Seq<char>)> {
    Seq::new(overrides.len(), |i: int| (overrides[i].0@, overrides[i].1@))
}

/// The kind of the setting of the given name.
pub open spec fn kind_of(schema: SchemaView, name: Seq<char>) -> KindView {
    schema.settings[schema.position(name)].kind
}

/// Whether an override before position `i` binds the same setting as the
/// override at `i` to another value.
pub open spec fn contradicted(
    schema: SchemaView,
    overrides: Seq<(Seq<char>, Seq<char>)>,
    i: int,
) -> bool {
    exists|j: int|
        0 <= j < i && (#[trigger] overrides[j]).0 == overrides[i].0 && parsed(
            kind_of(schema, overrides[i].0),
            overrides[j].1,
        ) != parsed(kind_of(schema, overrides[i].0), overrides[i].1)
}

/// What the override at position `i` is refused for, if anything: its name
/// is not declared, its text is no value of the setting's kind, or an
/// earlier override gave the setting another value.
pub open spec fn refusal(
    schema: SchemaView,
    overrides: Seq<(Seq<char>, Seq<char>)>,
    i: int,
) -> Option<ConfigErrorView> {
    let name = overrides[i].0;
    if !schema.declares(name) {
        Some(ConfigErrorView::UnknownSetting(name))
    } else {
        match parsed(kind_of(schema, name), overrides[i].1) {
            Err(reason) => Some(ConfigErrorView::InvalidValue(name, reason)),
            Ok(_) => if contradicted(schema, overrides, i) {
                Some(ConfigErrorView::InvalidValue(name, InvalidReason::Conflict))
            } else {
                None
            },
        }
    }
}

/// Whether no override is refused.
pub open spec fn accepted(schema: SchemaView, overrides: Seq<(Seq<char>, Seq<char>)>) -> bool {
    forall|i: int| 0 <= i < overrides.len() ==> #[trigger] refusal(schema, overrides, i) is None
}

/// Whether the override at `i` is refused and none before it is.
pub open spec fn refused_first(
    schema: SchemaView,
    overrides: Seq<(Seq<char>, Seq<char>)>,
    i: int,
) -> bool {
    &&& 0 <= i < overrides.len()
    &&& refusal(schema, overrides, i) is Some
    &&& forall|j: int| 0 <= j < i ==> #[trigger] refusal(schema, overrides, j) is None
}

/// The position of the first override that is refused, where one is.
pub open spec fn first_refused(schema: SchemaView, overrides: Seq<(Seq<char>, Seq<char>)>) -> int {
    choose|i: int| refused_first(schema, overrides, i)
}

/// Whether some override names the setting at position `k`.
pub open spec fn overridden(
    schema: SchemaView,
    overrides: Seq<(Seq<char>, Seq<char>)>,
    k: int,
) -> bool {
    exists|i: int| 0 <= i < overrides.len() && (#[trigger] overrides[i]).0 == schema.settings[k].name
}

/// The value that accepted overrides leave the setting at position `k`
/// with: the value of an override that names it, or else its default.
pub open spec fn resolved_value(
    schema: SchemaView,
    overrides: Seq<(Seq<char>, Seq<char>)>,
    k: int,
) -> SettingValue {
    if overridden(schema, overrides, k) {
        let i = choose|i: int|
            0 <= i < overrides.len() && (#[trigger] overrides[i]).0 == schema.settings[k].name;
        match parsed(schema.settings[k].kind, overrides[i].1) {
            Ok(value) => value,
            Err(_) => schema.settings[k].default,
        }
    } else {
        schema.settings[k].default
    }
}

/// The outcome of resolving a schema against a list of overrides.
///
/// Where every override is accepted, each setting has the value that
/// [`resolved_value`] gives, in declaration order. Otherwise the outcome is
/// the refusal of the first override that is refused.
pub open spec fn resolution(schema: SchemaView, overrides: Seq<(Seq<char>, Seq<char>)>) -> Result<
    Seq<SettingValue>,
    ConfigErrorView,
> {
    if accepted(schema, overrides) {
        Ok(Seq::new(schema.settings.len(), |k: int| resolved_value(schema, overrides, k)))
    } else {
        Err(refusal(schema, overrides, first_refused(schema, overrides))->Some_0)
    }
}

/// The mathematical model of a [`FlagSet`]: its schema and the value of
/// each setting, in declaration order.
pub struct FlagSetView {
    pub schema: SchemaView,
    pub values: Seq<SettingValue>,
}

impl FlagSetView {
    /// The schema is well formed and binds each of its settings to a value
    /// of the setting's kind.
    pub open spec fn well_formed(self) -> bool {
        &&& self.schema.well_formed()
        &&& self.values.len() == self.schema.settings.len()
        &&& forall|k: int|
            0 <= k < self.values.len() ==> value_fits(
                self.schema.settings[k].kind,
                #[trigger] self.values[k],
            )
    }

    /// The value of the setting of the given name.
    pub open spec fn value_of(self, name: Seq<char>) -> SettingValue {
        self.values[self.schema.position(name)]
    }

    /// The hash key: one byte for each setting, in declaration order.
    pub open spec fn hash_key(self) -> Seq<u8> {
        Seq::new(self.values.len(), |k: int| value_byte(self.values[k]))
    }

    /// Every setting with its value and its description, in declaration
    /// order.
    pub open spec fn entries(self) -> Seq<(Seq<char>, SettingValue, Seq<char>)> {
        Seq::new(
            self.values.len(),
            |k: int| (self.schema.settings[k].name, self.values[k], self.schema.settings[k].description),
        )
    }

    /// The overrides that spell the flag set out: each setting with the
    /// text of its value, in declaration order.
    pub open spec fn overrides(self) -> Seq<(Seq<char>, Seq<char>)> {
        Seq::new(
            self.values.len(),
            |k: int|
                (
                    self.schema.settings[k].name,
                    value_text(self.schema.settings[k].kind, self.values[k]),
                ),
        )
    }

    /// The line that shows the setting at position `k`: its name, ` = `, its
    /// value and a line feed.
    pub open spec fn line(self, k: int) -> Seq<char> {
        self.schema.settings[k].name + " = "@ + value_text(
            self.schema.settings[k].kind,
            self.values[k],
        ) + "\n"@
    }

    /// The lines of the first `n` settings, one after the other.
    pub open spec fn lines(self, n: nat) -> Seq<char>
        decreases n,
    {
        if n == 0 {
            Seq::empty()
        } else {
            self.lines((n - 1) as nat) + self.line(n - 1)
        }
    }

    /// The flag set as text: the target between square brackets on a line
    /// of its own, then one line for each setting.
    pub open spec fn text(self) -> Seq<char> {
        "["@ + self.schema.target + "]\n"@ + self.lines(self.values.len())
    }
}

/// One setting of a flag set with its value and its description.
#[derive(Debug, PartialEq, Eq)]
pub struct FlagEntry {
    pub name: String,
    pub value: SettingValue,
    pub description: String,
}

/// The models of a run of entries.
pub open spec fn entry_views(entries: Seq<FlagEntry>) -> Seq<(Seq<char>, SettingValue, Seq<char>)> {
    Seq::new(entries.len(), |k: int| (entries[k].name@, entries[k].value, entries[k].description@))
}

/// The models of a run of owned overrides.
pub open spec fn owned_override_texts(overrides: Seq<(String, String)>) -> Seq<
    (Seq<char>, Seq<char>),
> {
    Seq::new(overrides.len(), |i: int| (overrides[i].0@, overrides[i].1@))
}


/// A schema with every one of its settings bound to a value of the
/// setting's kind. It cannot be changed once resolved.
#[derive(Debug, Eq, Hash)]
pub struct FlagSet {
    schema: Schema,
    values: Vec<SettingValue>,
}

impl View for FlagSet {
    type V = FlagSetView;

    closed spec fn view(&self) -> FlagSetView {
        FlagSetView { schema: self.schema@, values: self.values@ }
    }
}

/// The override at `i` is the first refused one if it is refused and none
/// before it is.
proof fn lemma_first_refused(schema: SchemaView, overrides: Seq<(Seq<char>, Seq<char>)>, i: int)
    requires
        refused_first(schema, overrides, i),
    ensures
        !accepted(schema, overrides),
        first_refused(schema, overrides) == i,
{
    let first = first_refused(schema, overrides);
    assert(refused_first(schema, overrides, first));
    if first < i {
        assert(refusal(schema, overrides, first) is None);
    } else if i < first {
        assert(refusal(schema, overrides, i) is None);
    }
}

/// Resolves a schema against a list of `(name, value)` overrides.
///
/// The overrides are taken in order. The first one that names no declared
/// setting, whose text is no value of the setting's kind, or that gives a
/// setting another value than an earlier override did, ends the resolution
/// with its error. Otherwise every setting is bound: to the value that the
/// overrides give it, or to its default.
pub fn resolve(schema: &Schema, overrides: &[(&str, &str)]) -> (resolved: Result<
    FlagSet,
    ConfigError,
>)
    ensures
        match resolved {
            Ok(flags) => flags@.schema == schema@ && flags@.well_formed() && resolution(
                schema@,
                override_texts(overrides@),
            ) == Ok::<Seq<SettingValue>, ConfigErrorView>(flags@.values),
            Err(e) => resolution(schema@, override_texts(overrides@)) == Err::<
                Seq<SettingValue>,
                ConfigErrorView,
            >(e@),
        },
{
    let ghost s = schema@;
    let ghost o = override_texts(overrides@);
    let n = schema.len();
    let mut values: Vec<SettingValue> = Vec::new();
    let mut given: Vec<bool> = Vec::new();
    let mut k: usize = 0;
    while k < n
        invariant
            k <= n,
            n == s.settings.len(),
            s == schema@,
            s.well_formed(),
            values.len() == k,
            given.len() == k,
            forall|h: int| 0 <= h < k ==> !#[trigger] given[h],
            forall|h: int| 0 <= h < k ==> #[trigger] values[h] == s.settings[h].default,
        decreases n - k,
    {
        values.push(schema.descriptor(k).default);
        given.push(false);
        k += 1;
    }
    let mut i: usize = 0;
    while i < overrides.len()
        invariant
            i <= overrides.len(),
            n == s.settings.len(),
            s == schema@,
            s.well_formed(),
            o == override_texts(overrides@),
            values.len() == n,
            given.len() == n,
            forall|j: int| 0 <= j < i ==> #[trigger] refusal(s, o, j) is None,
            forall|h: int|
                0 <= h < n ==> (#[trigger] given[h] <==> exists|j: int|
                    0 <= j < i && (#[trigger] o[j]).0 == s.settings[h].name),
            forall|h: int, j: int|
                0 <= h < n && given[h] && 0 <= j < i && (#[trigger] o[j]).0 == s.settings[h].name
                    ==> parsed(s.settings[h].kind, o[j].1) == Ok::<SettingValue, InvalidReason>(
                    #[trigger] values[h],
                ),
            forall|h: int| 0 <= h < n && !given[h] ==> #[trigger] values[h] == s.settings[h].default,
            forall|h: int| 0 <= h < n ==> value_fits(s.settings[h].kind, #[trigger] values[h]),
        decreases overrides.len() - i,
    {
        let name = overrides[i].0;
        let text = overrides[i].1;
        assert(o[i as int] == (name@, text@));
        match schema.find(name) {
            None => {
                proof {
                    lemma_first_refused(s, o, i as int);
                }
                return Err(ConfigError::UnknownSetting(name.to_owned()));
            },
            Some(at) => {
                let d = schema.descriptor(at);
                assert(s.settings[at as int].name == name@);
                assert(kind_of(s, name@) == d@.kind);
                match parse_value(&d.kind, text) {
                    Err(reason) => {
                        proof {
                            lemma_first_refused(s, o, i as int);
                        }
                        return Err(ConfigError::InvalidValue(name.to_owned(), reason));
                    },
                    Ok(value) => {
                        proof {
                            lemma_parsed_fits(d@.kind, text@);
                        }
                        if given[at] && values[at] != value {
                            proof {
                                let j = choose|j: int|
                                    0 <= j < i && (#[trigger] o[j]).0 == s.settings[at as int].name;
                                assert(parsed(s.settings[at as int].kind, o[j].1) == Ok::<
                                    SettingValue,
                                    InvalidReason,
                                >(values[at as int]));
                                assert(contradicted(s, o, i as int));
                                lemma_first_refused(s, o, i as int);
                            }
                            return Err(
                                ConfigError::InvalidValue(name.to_owned(), InvalidReason::Conflict),
                            );
                        }
                        proof {
                            assert(!contradicted(s, o, i as int)) by {
                                if contradicted(s, o, i as int) {
                                    let j = choose|j: int|
                                        0 <= j < i && (#[trigger] o[j]).0 == o[i as int].0 && parsed(
                                            kind_of(s, o[i as int].0),
                                            o[j].1,
                                        ) != parsed(kind_of(s, o[i as int].0), o[i as int].1);
                                    assert(given[at as int]);
                                    assert(parsed(s.settings[at as int].kind, o[j].1) == Ok::<
                                        SettingValue,
                                        InvalidReason,
                                    >(values[at as int]));
                                }
                            }
                            assert(refusal(s, o, i as int) is None);
                        }
                        let ghost old_values = values@;
                        let ghost old_given = given@;
                        values.set(at, value);
                        given.set(at, true);
                        proof {
                            assert forall|h: int| 0 <= h < n implies (#[trigger] given[h]
                                <==> exists|j: int|
                                0 <= j < i + 1 && (#[trigger] o[j]).0 == s.settings[h].name) by {
                                if h == at {
                                    assert(o[i as int].0 == s.settings[h].name);
                                } else {
                                    assert(s.settings[h].name != s.settings[at as int].name) by {
                                        if h < at {
                                            assert(s.settings[h].name != s.settings[at as int].name);
                                        } else {
                                            assert(s.settings[at as int].name != s.settings[h].name);
                                        }
                                    }
                                    if old_given[h] {
                                        let j = choose|j: int|
                                            0 <= j < i && (#[trigger] o[j]).0 == s.settings[h].name;
                                        assert(0 <= j < i + 1 && o[j].0 == s.settings[h].name);
                                    }
                                    if exists|j: int|
                                        0 <= j < i + 1 && (#[trigger] o[j]).0 == s.settings[h].name {
                                        let j = choose|j: int|
                                            0 <= j < i + 1 && (#[trigger] o[j]).0
                                                == s.settings[h].name;
                                        assert(j != i);
                                        assert(0 <= j < i && o[j].0 == s.settings[h].name);
                                    }
                                }
                            }
                            assert forall|h: int, j: int|
                                0 <= h < n && given[h] && 0 <= j < i + 1 && (#[trigger] o[j]).0
                                    == s.settings[h].name implies parsed(
                                s.settings[h].kind,
                                o[j].1,
                            ) == Ok::<SettingValue, InvalidReason>(#[trigger] values[h]) by {
                                if h == at {
                                    if j < i {
                                        if old_given[h] {
                                            assert(parsed(s.settings[h].kind, o[j].1) == Ok::<
                                                SettingValue,
                                                InvalidReason,
                                            >(old_values[h]));
                                        } else {
                                            assert(o[j].0 == s.settings[h].name);
                                        }
                                    }
                                } else {
                                    assert(s.settings[h].name != s.settings[at as int].name) by {
                                        if h < at {
                                            assert(s.settings[h].name != s.settings[at as int].name);
                                        } else {
                                            assert(s.settings[at as int].name != s.settings[h].name);
                                        }
                                    }
                                    assert(j < i);
                                    assert(old_given[h]);
                                    assert(parsed(s.settings[h].kind, o[j].1) == Ok::<
                                        SettingValue,
                                        InvalidReason,
                                    >(old_values[h]));
                                }
                            }
                        }
                    },
                }
            },
        }
        i += 1;
    }
    proof {
        assert(accepted(s, o));
        let bound = Seq::new(s.settings.len(), |h: int| resolved_value(s, o, h));
        assert forall|h: int| 0 <= h < n implies values@[h] == bound[h] by {
            if overridden(s, o, h) {
                let j = choose|j: int|
                    0 <= j < o.len() && (#[trigger] o[j]).0 == s.settings[h].name;
                assert(given[h]);
                assert(parsed(s.settings[h].kind, o[j].1) == Ok::<SettingValue, InvalidReason>(
                    values[h],
                ));
            } else {
                if given[h] {
                    let j = choose|j: int| 0 <= j < i && (#[trigger] o[j]).0 == s.settings[h].name;
                    assert(0 <= j < o.len() && o[j].0 == s.settings[h].name);
                }
            }
        }
        assert(values@ =~= bound);
    }
    Ok(FlagSet { schema: schema.clone(), values })
}

impl Clone for FlagSet {
    fn clone(&self) -> (copy: FlagSet)
        ensures
            copy@ == self@,
    {
        proof {
            use_type_invariant(self);
        }
        FlagSet { schema: self.schema.clone(), values: self.values.clone() }
    }
}

impl FlagSet {
    #[verifier::type_invariant]
    spec fn valid(self) -> bool {
        self@.well_formed()
    }

    /// The schema that the flag set was resolved from.
    pub fn schema(&self) -> (schema: &Schema)
        ensures
            schema@ == self@.schema,
            self@.well_formed(),
    {
        proof {
            use_type_invariant(self);
        }
        &self.schema
    }

    /// The value of the setting at position `k` of the declaration order.
    pub fn value(&self, k: usize) -> (value: SettingValue)
        requires
            k < self@.values.len(),
        ensures
            value == self@.values[k as int],
            value_fits(self@.schema.settings[k as int].kind, value),
    {
        proof {
            use_type_invariant(self);
        }
        self.values[k]
    }

    /// The value of the setting of the given name, if one is declared.
    pub fn value_of(&self, name: &str) -> (value: Option<SettingValue>)
        ensures
            self@.well_formed(),
            match value {
                Some(v) => self@.schema.declares(name@) && v == self@.value_of(name@) && value_fits(
                    kind_of(self@.schema, name@),
                    v,
                ),
                None => !self@.schema.declares(name@),
            },
    {
        proof {
            use_type_invariant(self);
        }
        match self.schema.find(name) {
            Some(k) => Some(self.values[k]),
            None => None,
        }
    }

    /// The value of the boolean setting of the given name.
    pub fn get_bool(&self, name: &str) -> (value: bool)
        requires
            self@.schema.declares(name@),
            kind_of(self@.schema, name@) is Bool,
        ensures
            self@.value_of(name@) == SettingValue::Bool(value),
    {
        match self.value_of(name) {
            Some(SettingValue::Bool(b)) => b,
            _ => false,
        }
    }

    /// The value of the numeric setting of the given name.
    pub fn get_num(&self, name: &str) -> (value: u8)
        requires
            self@.schema.declares(name@),
            kind_of(self@.schema, name@) is Num,
        ensures
            self@.value_of(name@) == SettingValue::Num(value),
    {
        match self.value_of(name) {
            Some(SettingValue::Num(n)) => n,
            _ => 0,
        }
    }

    /// The chosen entry of the enumerated setting of the given name.
    pub fn get_enum(&self, name: &str) -> (choice: &str)
        requires
            self@.schema.declares(name@),
            kind_of(self@.schema, name@) is Enum,
        ensures
            self@.value_of(name@) matches SettingValue::Enum(index) && index < kind_of(
                self@.schema,
                name@,
            )->Enum_0.len() && choice@ == kind_of(self@.schema, name@)->Enum_0[index as int],
    {
        proof {
            use_type_invariant(self);
        }
        match self.schema.find(name) {
            Some(k) => {
                let d = self.schema.descriptor(k);
                match (&d.kind, self.values[k]) {
                    (crate::settings::schema::SettingKind::Enum(choices), SettingValue::Enum(index)) => {
                        choices[index as usize].as_str()
                    },
                    _ => "",
                }
            },
            None => "",
        }
    }

    /// The hash key of the flag set: one byte for each setting, in
    /// declaration order.
    pub fn hash_key(&self) -> (key: Vec<u8>)
        ensures
            key@ == self@.hash_key(),
    {
        let mut key: Vec<u8> = Vec::new();
        let mut k: usize = 0;
        while k < self.values.len()
            invariant
                k <= self.values.len(),
                key.len() == k,
                forall|h: int| 0 <= h < k ==> #[trigger] key[h] == value_byte(self.values[h]),
            decreases self.values.len() - k,
        {
            let byte: u8 = match self.values[k] {
                SettingValue::Bool(b) => if b {
                    1
                } else {
                    0
                },
                SettingValue::Enum(index) => index,
                SettingValue::Num(n) => n,
            };
            key.push(byte);
            k += 1;
        }
        assert(key@ =~= self@.hash_key());
        key
    }

    /// Every setting with its value and its description, in declaration
    /// order: none is left out.
    pub fn entries(&self) -> (entries: Vec<FlagEntry>)
        ensures
            entry_views(entries@) == self@.entries(),
    {
        proof {
            use_type_invariant(self);
        }
        let mut entries: Vec<FlagEntry> = Vec::new();
        let mut k: usize = 0;
        while k < self.values.len()
            invariant
                k <= self.values.len(),
                self.values.len() == self.schema@.settings.len(),
                entries.len() == k,
                forall|h: int|
                    0 <= h < k ==> (#[trigger] entries[h]).name@ == self.schema@.settings[h].name
                        && entries[h].value == self.values[h] && entries[h].description@
                        == self.schema@.settings[h].description,
            decreases self.values.len() - k,
        {
            let d = self.schema.descriptor(k);
            entries.push(
                FlagEntry {
                    name: d.name.clone(),
                    value: self.values[k],
                    description: d.description.clone(),
                },
            );
            k += 1;
        }
        assert(entry_views(entries@) =~= self@.entries());
        entries
    }

    /// The overrides that spell the flag set out: resolving them against
    /// the schema gives this flag set again.
    pub fn to_overrides(&self) -> (overrides: Vec<(String, String)>)
        ensures
            owned_override_texts(overrides@) == self@.overrides(),
    {
        proof {
            use_type_invariant(self);
        }
        let mut overrides: Vec<(String, String)> = Vec::new();
        let mut k: usize = 0;
        while k < self.values.len()
            invariant
                k <= self.values.len(),
                self@.well_formed(),
                self.values@ == self@.values,
                self.schema@ == self@.schema,
                overrides.len() == k,
                forall|h: int|
                    0 <= h < k ==> (#[trigger] overrides[h]).0@ == self@.schema.settings[h].name
                        && overrides[h].1@ == value_text(
                        self@.schema.settings[h].kind,
                        self@.values[h],
                    ),
            decreases self.values.len() - k,
        {
            let d = self.schema.descriptor(k);
            let mut text = String::new();
            push_value(&mut text, &d.kind, self.values[k]);
            assert(text@ =~= value_text(d@.kind, self.values[k as int]));
            overrides.push((d.name.clone(), text));
            k += 1;
        }
        assert(owned_override_texts(overrides@) =~= self@.overrides());
        overrides
    }

    /// The flag set as text, one line for each setting.
    pub fn to_text(&self) -> (text: String)
        ensures
            text@ == self@.text(),
    {
        proof {
            use_type_invariant(self);
        }
        let mut text = String::new();
        text.append("[");
        text.append(self.schema.target());
        text.append("]\n");
        let ghost head = text@;
        let mut k: usize = 0;
        while k < self.values.len()
            invariant
                k <= self.values.len(),
                self@.well_formed(),
                self.values@ == self@.values,
                self.schema@ == self@.schema,
                text@ == head + self@.lines(k as nat),
            decreases self.values.len() - k,
        {
            let d = self.schema.descriptor(k);
            let ghost before = text@;
            text.append(d.name.as_str());
            text.append(" = ");
            push_value(&mut text, &d.kind, self.values[k]);
            text.append("\n");
            proof {
                assert(text@ =~= before + self@.line(k as int));
                assert(self@.lines((k + 1) as nat) == self@.lines(k as nat) + self@.line(k as int));
                assert(text@ =~= head + self@.lines((k + 1) as nat));
            }
            k += 1;
        }
        assert(head =~= "["@ + self@.schema.target + "]\n"@);
        text
    }
}

impl PartialEq for FlagSet {
    fn eq(&self, other: &FlagSet) -> (same: bool) {
        if self.schema != other.schema {
            return false;
        }
        if self.values.len() != other.values.len() {
            assert(self@.values.len() != other@.values.len());
            return false;
        }
        let mut k: usize = 0;
        while k < self.values.len()
            invariant
                k <= self.values.len(),
                self.values.len() == other.values.len(),
                forall|h: int| 0 <= h < k ==> self.values[h] == other.values[h],
            decreases self.values.len() - k,
        {
            if self.values[k] != other.values[k] {
                assert(self@.values[k as int] != other@.values[k as int]);
                return false;
            }
            k += 1;
        }
        assert(self@.values =~= other@.values);
        true
    }
}

impl PartialEqSpecImpl for FlagSet {
    open spec fn obeys_eq_spec() -> bool {
        true
    }

    /// Two flag sets are equal when they belong to the same schema and
    /// bind every setting to the same value.
    open spec fn eq_spec(&self, other: &FlagSet) -> bool {
        self@ == other@
    }
}

} // verus!

