//! Reading a setting's value from text and writing it back.

use vstd::prelude::*;
use vstd::string::StringExecFns;
use crate::settings::schema::find_text;
use crate::settings::schema::index_of;
use crate::settings::schema::kind_well_formed;
use crate::settings::schema::value_fits;
use crate::settings::schema::KindView;
use crate::settings::schema::SettingKind;
use crate::settings::schema::SettingValue;
use crate::text::decimal_text;
use crate::text::decimal_u8;
use crate::text::lemma_decimal_text_is_read_back;
use crate::text::parse_decimal_u8;
use crate::text::push_decimal_u8;
use crate::text::str_eq;
use crate::text::texts;

verus! {

/// Why a value was refused for a setting.
#[derive(Clone, Copy, Debug, PartialEq, Eq, Hash, Structural)]
pub enum InvalidReason {
    /// The setting is boolean and the text is no boolean word.
    NotABool,
    /// The setting is enumerated and the text is none of its choices.
    NotAChoice,
    /// The setting is numeric and the text is no decimal number up to 255.
    NotANumber,
    /// Another override binds the same setting to a different value.
    Conflict,
}

/// The boolean that a word denotes: `true`, `on`, `yes` and `1` stand for
/// true; `false`, `off`, `no` and `0` for false; nothing else is a boolean.
pub open spec fn bool_word(text: Seq<char>) -> Option<bool> {
    if text == "true"@ || text == "on"@ || text == "yes"@ || text == "1"@ {
        Some(true)
    } else if text == "false"@ || text == "off"@ || text == "no"@ || text == "0"@ {
        Some(false)
    } else {
        None
    }
}

/// Reads a boolean word.
pub fn parse_bool(text: &str) -> (value: Option<bool>)
    ensures
        value == bool_word(text@),
{
    if str_eq(text, "true") || str_eq(text, "on") || str_eq(text, "yes") || str_eq(text, "1") {
        Some(true)
    } else if str_eq(text, "false") || str_eq(text, "off") || str_eq(text, "no") || str_eq(
        text,
        "0",
    ) {
        Some(false)
    } else {
        None
    }
}

/// The value that a text denotes for a setting of the given kind, or the
/// reason why it denotes none.
pub open spec fn parsed(kind: KindView, text: Seq<char>) -> Result<SettingValue, InvalidReason> {
    match kind {
        KindView::Bool => match bool_word(text) {
            Some(b) => Ok(SettingValue::Bool(b)),
            None => Err(InvalidReason::NotABool),
        },
        KindView::Enum(choices) => if choices.contains(text) {
            Ok(SettingValue::Enum(index_of(choices, text) as u8))
        } else {
            Err(InvalidReason::NotAChoice)
        },
        KindView::Num => match decimal_u8(text) {
            Some(n) => Ok(SettingValue::Num(n)),
            None => Err(InvalidReason::NotANumber),
        },
    }
}

/// A value read from text is a value of the kind it was read for.
pub proof fn lemma_parsed_fits(kind: KindView, text: Seq<char>)
    requires
        kind_well_formed(kind),
    ensures
        parsed(kind, text) matches Ok(value) ==> value_fits(kind, value),
{
}

/// Reads the value of a setting of the given kind.
pub fn parse_value(kind: &SettingKind, text: &str) -> (value: Result<SettingValue, InvalidReason>)
    requires
        kind_well_formed(kind@),
    ensures
        value == parsed(kind@, text@),
{
    match kind {
        SettingKind::Bool => match parse_bool(text) {
            Some(b) => Ok(SettingValue::Bool(b)),
            None => Err(InvalidReason::NotABool),
        },
        SettingKind::Enum(choices) => match find_text(choices, text) {
            Some(i) => {
                proof {
                    let items = texts(choices@);
                    assert(items[i as int] == text@);
                    let chosen = index_of(items, text@);
                    if chosen < i {
                        assert(items[chosen] != items[i as int]);
                    } else if chosen > i {
                        assert(items[i as int] != items[chosen]);
                    }
                }
                Ok(SettingValue::Enum(i as u8))
            },
            None => Err(InvalidReason::NotAChoice),
        },
        SettingKind::Num => match parse_decimal_u8(text) {
            Some(n) => Ok(SettingValue::Num(n)),
            None => Err(InvalidReason::NotANumber),
        },
    }
}

/// How a value of the given kind is written: a boolean as `true` or `false`,
/// an enumerated value as its choice, a number in decimal.
pub open spec fn value_text(kind: KindView, value: SettingValue) -> Seq<char> {
    match (kind, value) {
        (_, SettingValue::Bool(b)) => if b {
            "true"@
        } else {
            "false"@
        },
        (KindView::Enum(choices), SettingValue::Enum(index)) => choices[index as int],
        (_, SettingValue::Enum(index)) => decimal_text(index as nat),
        (_, SettingValue::Num(n)) => decimal_text(n as nat),
    }
}

/// What is written for a value is read back as that value.
pub proof fn lemma_value_text_is_read_back(kind: KindView, value: SettingValue)
    requires
        kind_well_formed(kind),
        value_fits(kind, value),
    ensures
        parsed(kind, value_text(kind, value)) == Ok::<SettingValue, InvalidReason>(value),
{
    match (kind, value) {
        (KindView::Bool, SettingValue::Bool(b)) => {
            reveal_strlit("true");
            reveal_strlit("false");
            reveal_strlit("on");
            reveal_strlit("yes");
            reveal_strlit("1");
        },
        (KindView::Enum(choices), SettingValue::Enum(index)) => {
            let text = choices[index as int];
            assert(choices.contains(text));
            let found = index_of(choices, text);
            if found < index {
                assert(choices[found] != choices[index as int]);
            } else if found > index {
                assert(choices[index as int] != choices[found]);
            }
        },
        (KindView::Num, SettingValue::Num(n)) => {
            lemma_decimal_text_is_read_back(n);
        },
        _ => {},
    }
}

/// Appends the text of a value to `out`.
pub fn push_value(out: &mut String, kind: &SettingKind, value: SettingValue)
    requires
        value_fits(kind@, value),
    ensures
        final(out)@ == old(out)@ + value_text(kind@, value),
{
    match value {
        SettingValue::Bool(b) => {
            if b {
                out.append("true");
            } else {
                out.append("false");
            }
        },
        SettingValue::Enum(index) => match kind {
            SettingKind::Enum(choices) => {
                out.append(choices[index as usize].as_str());
            },
            _ => {
                push_decimal_u8(out, index);
            },
        },
        SettingValue::Num(n) => {
            push_decimal_u8(out, n);
        },
    }
}

/// The byte that stands for a value in a hash key.
pub open spec fn value_byte(value: SettingValue) -> u8 {
    match value {
        SettingValue::Bool(b) => if b {
            1u8
        } else {
            0u8
        },
        SettingValue::Enum(index) => index,
        SettingValue::Num(n) => n,
    }
}

/// Two values of one kind with the same byte are the same value.
pub proof fn lemma_value_byte_injective(kind: KindView, a: SettingValue, b: SettingValue)
    requires
        value_fits(kind, a),
        value_fits(kind, b),
        value_byte(a) == value_byte(b),
    ensures
        a == b,
{
}

} // verus!
