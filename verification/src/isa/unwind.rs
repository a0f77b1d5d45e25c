//! Unwind metadata, as far as the backend contract names it.

use vstd::prelude::*;

verus! {

/// The kind of unwind information that is asked for.
#[derive(Clone, Copy, Debug, PartialEq, Eq, Structural)]
pub enum UnwindInfoKind {
    /// No unwind information.
    NoInfo,
    /// System V call frame information.
    SystemV,
    /// Windows unwind codes.
    Windows,
}

/// Unwind information for one function, in the encoding of its kind.
#[derive(Debug)]
pub struct UnwindInfo {
    pub kind: UnwindInfoKind,
    pub bytes: Vec<u8>,
}

/// Why a register has no number in the debug information.
#[derive(Clone, Copy, Debug, PartialEq, Eq, Structural)]
pub enum RegisterMappingError {
    /// The register belongs to no bank.
    MissingBank,
    /// The target has no model of stack unwinding.
    UnsupportedArchitecture,
    /// The register's bank has no numbers in the debug information.
    UnsupportedRegisterBank,
}

} // verus!
