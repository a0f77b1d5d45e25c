//! What holds of every resolution, whatever the schema and the overrides.

use vstd::prelude::*;
use crate::settings::flags::accepted;
use crate::settings::flags::contradicted;
use crate::settings::flags::first_refused;
use crate::settings::flags::kind_of;
use crate::settings::flags::overridden;
use crate::settings::flags::refusal;
use crate::settings::flags::refused_first;
use crate::settings::flags::resolution;
use crate::settings::flags::resolved_value;
use crate::settings::flags::ConfigErrorView;
use crate::settings::flags::FlagSetView;
use crate::settings::schema::descriptor_well_formed;
use crate::settings::schema::lemma_position_is_unique;
use crate::settings::schema::value_fits;
use crate::settings::schema::SchemaView;
use crate::settings::schema::SettingValue;
use crate::settings::value::bool_word;
use crate::settings::value::lemma_value_byte_injective;
use crate::settings::value::lemma_value_text_is_read_back;
use crate::settings::value::lemma_parsed_fits;
use crate::settings::value::parsed;
use crate::settings::value::value_byte;
use crate::settings::value::InvalidReason;

verus! {

/// Whether every override names a declared setting with a value of its
/// kind, and overrides of one setting agree on its value.
pub open spec fn consistent(schema: SchemaView, overrides: Seq<(Seq<char>, Seq<char>)>) -> bool {
    &&& forall|i: int|
        0 <= i < overrides.len() ==> schema.declares((#[trigger] overrides[i]).0) && parsed(
            kind_of(schema, overrides[i].0),
            overrides[i].1,
        ) is Ok
    &&& forall|i: int, j: int|
        0 <= i < overrides.len() && 0 <= j < overrides.len() && (#[trigger] overrides[i]).0 == (
        #[trigger] overrides[j]).0 ==> parsed(kind_of(schema, overrides[i].0), overrides[i].1)
            == parsed(kind_of(schema, overrides[j].0), overrides[j].1)
}

/// A list of overrides is accepted exactly when it is consistent: whether
/// it resolves depends on which overrides it holds, not on where they stand.
pub proof fn lemma_accepted_iff_consistent(
    schema: SchemaView,
    overrides: Seq<(Seq<char>, Seq<char>)>,
)
    ensures
        accepted(schema, overrides) <==> consistent(schema, overrides),
{
    if accepted(schema, overrides) {
        assert forall|i: int| 0 <= i < overrides.len() implies schema.declares(
            (#[trigger] overrides[i]).0,
        ) && parsed(kind_of(schema, overrides[i].0), overrides[i].1) is Ok by {
            assert(refusal(schema, overrides, i) is None);
        }
        assert forall|i: int, j: int|
            0 <= i < overrides.len() && 0 <= j < overrides.len() && (#[trigger] overrides[i]).0 == (
            #[trigger] overrides[j]).0 implies parsed(
            kind_of(schema, overrides[i].0),
            overrides[i].1,
        ) == parsed(kind_of(schema, overrides[j].0), overrides[j].1) by {
            if i < j {
                assert(refusal(schema, overrides, j) is None);
                assert(!contradicted(schema, overrides, j));
            } else if j < i {
                assert(refusal(schema, overrides, i) is None);
                assert(!contradicted(schema, overrides, i));
            }
        }
    }
    if consistent(schema, overrides) {
        assert forall|i: int| 0 <= i < overrides.len() implies #[trigger] refusal(
            schema,
            overrides,
            i,
        ) is None by {
            assert(schema.declares(overrides[i].0));
            if contradicted(schema, overrides, i) {
                let j = choose|j: int|
                    0 <= j < i && (#[trigger] overrides[j]).0 == overrides[i].0 && parsed(
                        kind_of(schema, overrides[i].0),
                        overrides[j].1,
                    ) != parsed(kind_of(schema, overrides[i].0), overrides[i].1);
                assert(overrides[j].0 == overrides[i].0);
            }
        }
    }
}

/// Two accepted lists that hold the same overrides bind every setting to
/// the same value.
proof fn lemma_same_overrides_same_value(
    schema: SchemaView,
    first: Seq<(Seq<char>, Seq<char>)>,
    second: Seq<(Seq<char>, Seq<char>)>,
    k: int,
)
    requires
        schema.well_formed(),
        0 <= k < schema.settings.len(),
        forall|x: (Seq<char>, Seq<char>)| first.contains(x) <==> second.contains(x),
        consistent(schema, first),
        consistent(schema, second),
    ensures
        resolved_value(schema, first, k) == resolved_value(schema, second, k),
{
    let name = schema.settings[k].name;
    lemma_position_is_unique(schema, name, k);
    if overridden(schema, first, k) {
        let i = choose|i: int| 0 <= i < first.len() && (#[trigger] first[i]).0 == name;
        assert(first.contains(first[i]));
        assert(second.contains(first[i]));
        let at = choose|j: int| 0 <= j < second.len() && second[j] == first[i];
        assert(second[at].0 == name);
        assert(overridden(schema, second, k));
        let j = choose|j: int| 0 <= j < second.len() && (#[trigger] second[j]).0 == name;
        assert(second[j].0 == second[at].0);
    } else if overridden(schema, second, k) {
        let j = choose|j: int| 0 <= j < second.len() && (#[trigger] second[j]).0 == name;
        assert(second.contains(second[j]));
        assert(first.contains(second[j]));
        let at = choose|i: int| 0 <= i < first.len() && first[i] == second[j];
        assert(first[at].0 == name);
    }
}

/// A list that holds the same overrides as a consistent one is consistent.
proof fn lemma_same_overrides_consistent(
    schema: SchemaView,
    first: Seq<(Seq<char>, Seq<char>)>,
    second: Seq<(Seq<char>, Seq<char>)>,
)
    requires
        forall|x: (Seq<char>, Seq<char>)| first.contains(x) <==> second.contains(x),
        consistent(schema, first),
    ensures
        consistent(schema, second),
{
    assert forall|i: int| 0 <= i < second.len() implies schema.declares(
        (#[trigger] second[i]).0,
    ) && parsed(kind_of(schema, second[i].0), second[i].1) is Ok by {
        assert(second.contains(second[i]));
        assert(first.contains(second[i]));
        let at = choose|a: int| 0 <= a < first.len() && first[a] == second[i];
        assert(schema.declares(first[at].0));
    }
    assert forall|i: int, j: int|
        0 <= i < second.len() && 0 <= j < second.len() && (#[trigger] second[i]).0 == (
        #[trigger] second[j]).0 implies parsed(kind_of(schema, second[i].0), second[i].1) == parsed(
        kind_of(schema, second[j].0),
        second[j].1,
    ) by {
        assert(second.contains(second[i]));
        assert(second.contains(second[j]));
        let a = choose|a: int| 0 <= a < first.len() && first[a] == second[i];
        let b = choose|b: int| 0 <= b < first.len() && first[b] == second[j];
        assert(first[a].0 == first[b].0);
    }
}

/// Whether a list of overrides resolves, and to which values, depends only
/// on which overrides it holds.
pub proof fn lemma_resolution_of_same_overrides(
    schema: SchemaView,
    first: Seq<(Seq<char>, Seq<char>)>,
    second: Seq<(Seq<char>, Seq<char>)>,
)
    requires
        schema.well_formed(),
        forall|x: (Seq<char>, Seq<char>)| first.contains(x) <==> second.contains(x),
    ensures
        resolution(schema, first) is Ok <==> resolution(schema, second) is Ok,
        resolution(schema, first) is Ok ==> resolution(schema, first) == resolution(schema, second),
{
    lemma_accepted_iff_consistent(schema, first);
    lemma_accepted_iff_consistent(schema, second);
    if consistent(schema, first) {
        lemma_same_overrides_consistent(schema, first, second);
    }
    if consistent(schema, second) {
        lemma_same_overrides_consistent(schema, second, first);
    }
    if accepted(schema, first) {
        let a = Seq::new(schema.settings.len(), |k: int| resolved_value(schema, first, k));
        let b = Seq::new(schema.settings.len(), |k: int| resolved_value(schema, second, k));
        assert forall|k: int| 0 <= k < schema.settings.len() implies a[k] == b[k] by {
            lemma_same_overrides_same_value(schema, first, second, k);
        }
        assert(a =~= b);
    }
}

/// Resolution does not depend on the order of the overrides: of two lists
/// that are permutations of one another, either both are refused, or both
/// resolve to the same values.
pub proof fn lemma_resolution_ignores_order(
    schema: SchemaView,
    first: Seq<(Seq<char>, Seq<char>)>,
    second: Seq<(Seq<char>, Seq<char>)>,
)
    requires
        schema.well_formed(),
        first.to_multiset() == second.to_multiset(),
    ensures
        resolution(schema, first) is Ok <==> resolution(schema, second) is Ok,
        resolution(schema, first) is Ok ==> resolution(schema, first) == resolution(schema, second),
{
    first.to_multiset_ensures();
    second.to_multiset_ensures();
    assert forall|x: (Seq<char>, Seq<char>)| first.contains(x) <==> second.contains(x) by {
        assert(first.contains(x) <==> first.to_multiset().count(x) > 0);
        assert(second.contains(x) <==> second.to_multiset().count(x) > 0);
    }
    lemma_resolution_of_same_overrides(schema, first, second);
}

/// Resolution is idempotent: giving every override a second time changes
/// neither whether the list resolves nor the values it resolves to.
pub proof fn lemma_resolution_is_idempotent(
    schema: SchemaView,
    overrides: Seq<(Seq<char>, Seq<char>)>,
)
    requires
        schema.well_formed(),
    ensures
        resolution(schema, overrides + overrides) is Ok <==> resolution(schema, overrides) is Ok,
        resolution(schema, overrides) is Ok ==> resolution(schema, overrides + overrides)
            == resolution(schema, overrides),
{
    let twice = overrides + overrides;
    assert forall|x: (Seq<char>, Seq<char>)| overrides.contains(x) <==> twice.contains(x) by {
        if overrides.contains(x) {
            let i = choose|i: int| 0 <= i < overrides.len() && overrides[i] == x;
            assert(twice[i] == x);
        }
        if twice.contains(x) {
            let i = choose|i: int| 0 <= i < twice.len() && twice[i] == x;
            if i < overrides.len() {
                assert(overrides[i] == x);
            } else {
                assert(overrides[i - overrides.len()] == x);
            }
        }
    }
    lemma_resolution_of_same_overrides(schema, overrides, twice);
}

/// Without overrides every setting has its declared default.
pub proof fn lemma_resolution_without_overrides(schema: SchemaView)
    ensures
        resolution(schema, Seq::empty()) == Ok::<Seq<SettingValue>, ConfigErrorView>(
            schema.defaults(),
        ),
{
    let none = Seq::<(Seq<char>, Seq<char>)>::empty();
    assert(accepted(schema, none));
    let bound = Seq::new(schema.settings.len(), |k: int| resolved_value(schema, none, k));
    assert forall|k: int| 0 <= k < schema.settings.len() implies bound[k]
        == schema.defaults()[k] by {
        assert(!overridden(schema, none, k));
    }
    assert(bound =~= schema.defaults());
}

/// The refusal of a single override is the outcome of resolving it alone.
proof fn lemma_single_refusal(schema: SchemaView, name: Seq<char>, text: Seq<char>)
    requires
        refusal(schema, seq![(name, text)], 0) is Some,
    ensures
        resolution(schema, seq![(name, text)]) == Err::<Seq<SettingValue>, ConfigErrorView>(
            refusal(schema, seq![(name, text)], 0)->Some_0,
        ),
{
    let single = seq![(name, text)];
    assert(refused_first(schema, single, 0));
    let first = first_refused(schema, single);
    assert(refused_first(schema, single, first));
}

/// An override that names a setting which the schema does not declare is
/// refused as unknown, under that name.
pub proof fn lemma_unknown_setting_is_refused(schema: SchemaView, name: Seq<char>, text: Seq<char>)
    requires
        !schema.declares(name),
    ensures
        resolution(schema, seq![(name, text)]) == Err::<Seq<SettingValue>, ConfigErrorView>(
            ConfigErrorView::UnknownSetting(name),
        ),
{
    let single = seq![(name, text)];
    assert(single[0] == (name, text));
    lemma_single_refusal(schema, name, text);
}

/// A text that is no boolean word is refused for a boolean setting; it is
/// never read as some boolean.
pub proof fn lemma_non_boolean_is_refused(schema: SchemaView, name: Seq<char>, text: Seq<char>)
    requires
        schema.declares(name),
        kind_of(schema, name) is Bool,
        bool_word(text) is None,
    ensures
        resolution(schema, seq![(name, text)]) == Err::<Seq<SettingValue>, ConfigErrorView>(
            ConfigErrorView::InvalidValue(name, InvalidReason::NotABool),
        ),
{
    let single = seq![(name, text)];
    assert(single[0] == (name, text));
    lemma_single_refusal(schema, name, text);
}

/// A text that is no value of a setting's kind is refused for that setting,
/// with the reason that the kind gives.
pub proof fn lemma_invalid_value_is_refused(schema: SchemaView, name: Seq<char>, text: Seq<char>)
    requires
        schema.declares(name),
        parsed(kind_of(schema, name), text) is Err,
    ensures
        resolution(schema, seq![(name, text)]) == Err::<Seq<SettingValue>, ConfigErrorView>(
            ConfigErrorView::InvalidValue(name, parsed(kind_of(schema, name), text)->Err_0),
        ),
{
    let single = seq![(name, text)];
    assert(single[0] == (name, text));
    lemma_single_refusal(schema, name, text);
}

/// Every resolution binds each setting of the schema to a value of the
/// setting's kind: none is left out.
pub proof fn lemma_resolution_is_total(schema: SchemaView, overrides: Seq<(Seq<char>, Seq<char>)>)
    requires
        schema.well_formed(),
        resolution(schema, overrides) is Ok,
    ensures
        (FlagSetView { schema, values: resolution(schema, overrides)->Ok_0 }).well_formed(),
{
    let values = resolution(schema, overrides)->Ok_0;
    assert forall|k: int| 0 <= k < values.len() implies value_fits(
        schema.settings[k].kind,
        #[trigger] values[k],
    ) by {
        assert(descriptor_well_formed(schema.settings[k]));
        if overridden(schema, overrides, k) {
            let i = choose|i: int|
                0 <= i < overrides.len() && (#[trigger] overrides[i]).0 == schema.settings[k].name;
            lemma_parsed_fits(schema.settings[k].kind, overrides[i].1);
        }
    }
}

/// The hash key does not depend on the order of the overrides: two
/// permutations of a list that resolves give flag sets with the same key.
pub proof fn lemma_hash_key_ignores_order(
    schema: SchemaView,
    first: Seq<(Seq<char>, Seq<char>)>,
    second: Seq<(Seq<char>, Seq<char>)>,
)
    requires
        schema.well_formed(),
        first.to_multiset() == second.to_multiset(),
        resolution(schema, first) is Ok,
    ensures
        resolution(schema, second) is Ok,
        (FlagSetView { schema, values: resolution(schema, first)->Ok_0 }).hash_key() == (
        FlagSetView { schema, values: resolution(schema, second)->Ok_0 }).hash_key(),
{
    lemma_resolution_ignores_order(schema, first, second);
}

/// A flag set spelled out as overrides resolves to itself: every setting
/// is read back with the value it was written with.
pub proof fn lemma_overrides_resolve_back(flags: FlagSetView)
    requires
        flags.well_formed(),
    ensures
        resolution(flags.schema, flags.overrides()) == Ok::<Seq<SettingValue>, ConfigErrorView>(
            flags.values,
        ),
{
    let schema = flags.schema;
    let spelled = flags.overrides();
    assert forall|i: int| 0 <= i < spelled.len() implies #[trigger] refusal(schema, spelled, i)
        is None by {
        lemma_position_is_unique(schema, schema.settings[i].name, i);
        assert(descriptor_well_formed(schema.settings[i]));
        lemma_value_text_is_read_back(schema.settings[i].kind, flags.values[i]);
        if contradicted(schema, spelled, i) {
            let j = choose|j: int|
                0 <= j < i && (#[trigger] spelled[j]).0 == spelled[i].0 && parsed(
                    kind_of(schema, spelled[i].0),
                    spelled[j].1,
                ) != parsed(kind_of(schema, spelled[i].0), spelled[i].1);
            assert(schema.settings[j].name != schema.settings[i].name);
        }
    }
    let bound = Seq::new(schema.settings.len(), |k: int| resolved_value(schema, spelled, k));
    assert forall|k: int| 0 <= k < schema.settings.len() implies bound[k] == flags.values[k] by {
        assert(spelled[k].0 == schema.settings[k].name);
        assert(overridden(schema, spelled, k));
        let i = choose|i: int|
            0 <= i < spelled.len() && (#[trigger] spelled[i]).0 == schema.settings[k].name;
        if i < k {
            assert(schema.settings[i].name != schema.settings[k].name);
        } else if k < i {
            assert(schema.settings[k].name != schema.settings[i].name);
        }
        assert(descriptor_well_formed(schema.settings[k]));
        lemma_value_text_is_read_back(schema.settings[k].kind, flags.values[k]);
    }
    assert(bound =~= flags.values);
}

/// Within one schema the hash key tells flag sets apart: two flag sets with
/// the same key bind every setting to the same value.
pub proof fn lemma_hash_key_identifies(a: FlagSetView, b: FlagSetView)
    requires
        a.well_formed(),
        b.well_formed(),
        a.schema == b.schema,
        a.hash_key() == b.hash_key(),
    ensures
        a == b,
{
    assert(a.values.len() == a.hash_key().len());
    assert(b.values.len() == b.hash_key().len());
    assert forall|k: int| 0 <= k < a.values.len() implies a.values[k] == b.values[k] by {
        assert(a.hash_key()[k] == value_byte(a.values[k]));
        assert(b.hash_key()[k] == value_byte(b.values[k]));
        lemma_value_byte_injective(a.schema.settings[k].kind, a.values[k], b.values[k]);
    }
    assert(a.values =~= b.values);
}

} // verus!
