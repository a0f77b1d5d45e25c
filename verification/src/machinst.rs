//! What a backend hands back for a compiled function.

use vstd::prelude::*;

verus! {

/// A place in the machine code that refers to a symbol by name.
#[derive(Debug)]
pub struct Relocation {
    pub offset: u32,
    pub symbol: String,
}

/// The model of a [`Relocation`].
pub struct RelocationView {
    pub offset: u32,
    pub symbol: Seq<char>,
}

impl View for Relocation {
    type V = RelocationView;

    open spec fn view(&self) -> RelocationView {
        RelocationView { offset: self.offset, symbol: self.symbol@ }
    }
}

/// The machine code of one function, the records that relocate it and, if
/// it was asked for, its disassembly. The layout of the bytes is the
/// backend's own.
#[derive(Debug)]
pub struct CompiledCode {
    pub buffer: Vec<u8>,
    pub relocations: Vec<Relocation>,
    pub disassembly: Option<String>,
}

/// The model of a [`CompiledCode`].
pub struct CompiledCodeView {
    pub buffer: Seq<u8>,
    pub relocations: Seq<RelocationView>,
    pub disassembly: Option<Seq<char>>,
}

impl View for CompiledCode {
    type V = CompiledCodeView;

    open spec fn view(&self) -> CompiledCodeView {
        CompiledCodeView {
            buffer: self.buffer@,
            relocations: Seq::new(self.relocations.len() as nat, |i: int| self.relocations[i]@),
            disassembly: match self.disassembly {
                Some(text) => Some(text@),
                None => None,
            },
        }
    }
}

/// Lays the machine code of functions out in one text section. How the
/// bytes are laid out is the backend's own business.
pub trait TextSectionBuilder {
    /// Appends the code of a function at the given alignment and gives the
    /// offset at which it stands.
    fn append(&mut self, labeled: bool, func: &[u8], align: u32) -> u64;

    /// Ends the section and gives its bytes.
    fn finish(&mut self) -> Vec<u8>;
}

/// A text section builder of any target, owned and ready to use.
pub struct OwnedTextSectionBuilder {
    pub builder: Box<dyn TextSectionBuilder>,
}

/// A machine register as the register allocator numbers it.
#[derive(Clone, Copy, Debug, PartialEq, Eq, Structural)]
pub struct Reg {
    pub index: u32,
}

} // verus!
