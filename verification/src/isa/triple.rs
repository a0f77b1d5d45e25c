//! Target triples as plain text components.

use std::str::FromStr;
use vstd::prelude::*;
use vstd::std_specs::cmp::PartialEqSpecImpl;
use crate::text::debug_text;
use crate::text::push_debug;
use crate::text::str_eq;
use vstd::string::StringExecFns;

verus! {

/// A target triple: architecture, vendor, operating system and
/// environment (ABI), each as the text that names it.
#[derive(Debug, Eq, Hash)]
pub struct TargetTriple {
    pub architecture: String,
    pub vendor: String,
    pub operating_system: String,
    pub environment: String,
}

/// The model of a [`TargetTriple`].
pub struct TripleView {
    pub architecture: Seq<char>,
    pub vendor: Seq<char>,
    pub operating_system: Seq<char>,
    pub environment: Seq<char>,
}

impl TripleView {
    /// The identifier that a registry looks a triple up by: its
    /// architecture. Triples that differ in vendor, operating system or
    /// environment only have the same identifier.
    pub open spec fn identifier(self) -> Seq<char> {
        self.architecture
    }

    /// The triple as text, its four components joined by hyphens.
    pub open spec fn text(self) -> Seq<char> {
        self.architecture + "-"@ + self.vendor + "-"@ + self.operating_system + "-"@
            + self.environment
    }

    /// The debug text of the triple: the name of the type and, between
    /// braces, each field with the debug text of its component. This is
    /// what formatting a [`TargetTriple`] with `{:?}` writes.
    pub open spec fn debug_text(self) -> Seq<char> {
        "TargetTriple { architecture: "@ + debug_text(self.architecture) + ", vendor: "@
            + debug_text(self.vendor) + ", operating_system: "@ + debug_text(
            self.operating_system,
        ) + ", environment: "@ + debug_text(self.environment) + " }"@
    }
}

impl View for TargetTriple {
    type V = TripleView;

    open spec fn view(&self) -> TripleView {
        TripleView {
            architecture: self.architecture@,
            vendor: self.vendor@,
            operating_system: self.operating_system@,
            environment: self.environment@,
        }
    }
}

/// `target_lexicon::ParseError`, which says what part of a text is no
/// triple. The proofs see nothing inside it.
#[verifier::external_type_specification]
#[verifier::external_body]
pub struct ExLexiconParseError(target_lexicon::ParseError);

/// What `target_lexicon` reads a text as: the four components of the
/// triple, or nothing where it refuses the text.
pub uninterp spec fn lexicon_triple(text: Seq<char>) -> Option<TripleView>;

/// Parses a text with `target_lexicon::Triple::from_str` and spells out the
/// architecture, vendor, operating system and environment of the triple it
/// gives, each with its `Display`.
///
/// Nothing is proved of this function. Its contract claims that the outcome
/// is [`lexicon_triple`] of the text, that is, that the same text always
/// gives the same outcome, and nothing of what that outcome is.
#[verifier::external_body]
fn lexicon_parse(text: &str) -> (parsed: Result<TargetTriple, target_lexicon::ParseError>)
    ensures
        match parsed {
            Ok(triple) => lexicon_triple(text@) == Some(triple@),
            Err(_) => lexicon_triple(text@) is None,
        },
{
    match target_lexicon::Triple::from_str(text) {
        Ok(triple) => Ok(
            TargetTriple {
                architecture: triple.architecture.to_string(),
                vendor: triple.vendor.to_string(),
                operating_system: triple.operating_system.to_string(),
                environment: triple.environment.to_string(),
            },
        ),
        Err(e) => Err(e),
    }
}

impl Clone for TargetTriple {
    fn clone(&self) -> (copy: TargetTriple)
        ensures
            copy@ == self@,
    {
        TargetTriple {
            architecture: self.architecture.clone(),
            vendor: self.vendor.clone(),
            operating_system: self.operating_system.clone(),
            environment: self.environment.clone(),
        }
    }
}

impl PartialEq for TargetTriple {
    fn eq(&self, other: &TargetTriple) -> (same: bool) {
        str_eq(self.architecture.as_str(), other.architecture.as_str()) && str_eq(
            self.vendor.as_str(),
            other.vendor.as_str(),
        ) && str_eq(self.operating_system.as_str(), other.operating_system.as_str()) && str_eq(
            self.environment.as_str(),
            other.environment.as_str(),
        )
    }
}

impl PartialEqSpecImpl for TargetTriple {
    open spec fn obeys_eq_spec() -> bool {
        true
    }

    /// Two triples are equal when their four components are.
    open spec fn eq_spec(&self, other: &TargetTriple) -> bool {
        self@ == other@
    }
}

impl TargetTriple {
    /// The triple of the given components.
    pub fn new(architecture: &str, vendor: &str, operating_system: &str, environment: &str) -> (triple:
        TargetTriple)
        ensures
            triple@ == (TripleView {
                architecture: architecture@,
                vendor: vendor@,
                operating_system: operating_system@,
                environment: environment@,
            }),
    {
        TargetTriple {
            architecture: architecture.to_owned(),
            vendor: vendor.to_owned(),
            operating_system: operating_system.to_owned(),
            environment: environment.to_owned(),
        }
    }

    /// Reads a triple from text, as `target_lexicon` does.
    pub fn parse(text: &str) -> (triple: Option<TargetTriple>)
        ensures
            match triple {
                Some(t) => lexicon_triple(text@) == Some(t@),
                None => lexicon_triple(text@) is None,
            },
    {
        match lexicon_parse(text) {
            Ok(triple) => Some(triple),
            Err(_) => None,
        }
    }

    /// The debug text of the triple.
    pub fn to_debug_text(&self) -> (text: String)
        ensures
            text@ == self@.debug_text(),
    {
        let mut text = String::new();
        text.append("TargetTriple { architecture: ");
        push_debug(&mut text, self.architecture.as_str());
        text.append(", vendor: ");
        push_debug(&mut text, self.vendor.as_str());
        text.append(", operating_system: ");
        push_debug(&mut text, self.operating_system.as_str());
        text.append(", environment: ");
        push_debug(&mut text, self.environment.as_str());
        text.append(" }");
        assert(text@ =~= self@.debug_text());
        text
    }

    /// The triple as text, its four components joined by hyphens.
    pub fn to_text(&self) -> (text: String)
        ensures
            text@ == self@.text(),
    {
        let mut text = self.architecture.clone();
        text.append("-");
        text.append(self.vendor.as_str());
        text.append("-");
        text.append(self.operating_system.as_str());
        text.append("-");
        text.append(self.environment.as_str());
        text
    }
}

} // verus!
