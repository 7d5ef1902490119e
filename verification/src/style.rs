//! The printing styles that the disassembler attaches to pieces of printed text.

use vstd::prelude::*;

verus! {

/// How a piece of printed instruction text is to be shown. `Operand(n)` is not a
/// style of text but brackets the text of the `n`-th operand.
#[derive(Clone, Copy, Debug, PartialEq, Eq, Structural)]
pub enum PrintStyle {
    Mnemonic,
    Register,
    Number,
    Symbol,
    String,
    Comment,
    Refname,
    Label,
    Operand(u8),
}

} // verus!
