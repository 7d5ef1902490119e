//! Styles of the pieces of a listed line, and the colour each is drawn in.

use vstd::prelude::*;

use crate::style::PrintStyle;

verus! {

/// Extended printing style enumeration for more things than the disassembler provides.
#[derive(Debug, PartialEq, Eq, Copy, Clone, Structural)]
pub enum PrintStyleEx {
    Plain,
    SegName,
    CodeBytes,
    Unknown,
    Error,
    Adi(PrintStyle),
}

impl PrintStyleEx {
    /// The style for text that the disassembler printed in `style`.
    pub fn from_style(style: PrintStyle) -> (r: PrintStyleEx)
        ensures
            r == PrintStyleEx::Adi(style),
    {
        PrintStyleEx::Adi(style)
    }

    /// The style for an optional printing style: plain text when there is none. An
    /// operand bracket is not a style of text.
    pub fn from_opt_style(style: Option<PrintStyle>) -> (r: PrintStyleEx)
        requires
            !(style matches Some(PrintStyle::Operand(_))),
        ensures
            r == opt_style_ex(style),
    {
        match style {
            None => PrintStyleEx::Plain,
            Some(ps) => PrintStyleEx::Adi(ps),
        }
    }
}

pub open spec fn opt_style_ex(style: Option<PrintStyle>) -> PrintStyleEx {
    match style {
        None => PrintStyleEx::Plain,
        Some(ps) => PrintStyleEx::Adi(ps),
    }
}

/// True for the styles that have a colour (all but an operand bracket).
pub open spec fn has_color(style: PrintStyleEx) -> bool {
    !(style matches PrintStyleEx::Adi(PrintStyle::Operand(_)))
}

/// The colour of a style, as 0xRRGGBB.
pub open spec fn color_spec(style: PrintStyleEx) -> u32 {
    match style {
        PrintStyleEx::Plain => 0xFFFFFF,
        PrintStyleEx::SegName => 0xFFFF00,
        PrintStyleEx::CodeBytes => 0x8080FF,
        PrintStyleEx::Unknown => 0xFF7F00,
        PrintStyleEx::Error => 0xFF4040,
        PrintStyleEx::Adi(PrintStyle::Mnemonic) => 0xFF0000,
        PrintStyleEx::Adi(PrintStyle::Register) => 0xFFFFFF,
        PrintStyleEx::Adi(PrintStyle::Number) => 0x00FF00,
        PrintStyleEx::Adi(PrintStyle::Symbol) => 0xFFFFFF,
        PrintStyleEx::Adi(PrintStyle::String) => 0xFF7F00,
        PrintStyleEx::Adi(PrintStyle::Comment) => 0x00AF00,
        PrintStyleEx::Adi(PrintStyle::Refname) => 0xFFFFB0,
        PrintStyleEx::Adi(PrintStyle::Label) => 0xA06000,
        PrintStyleEx::Adi(PrintStyle::Operand(_)) => 0,
    }
}

/// The colour that text of the given style is drawn in, as 0xRRGGBB: white for
/// plain text, registers and symbols, yellow for segment names, light blue for
/// code bytes, orange for unknown bytes and strings, light red for errors, red
/// for mnemonics, bright green for numbers, dark green for comments, light tan
/// for reference names and light brown for labels.
pub fn color_of(style: PrintStyleEx) -> (r: u32)
    requires
        has_color(style),
    ensures
        r == color_spec(style),
{
    match style {
        PrintStyleEx::Plain => 0xFFFFFF,
        PrintStyleEx::SegName => 0xFFFF00,
        PrintStyleEx::CodeBytes => 0x8080FF,
        PrintStyleEx::Unknown => 0xFF7F00,
        PrintStyleEx::Error => 0xFF4040,
        PrintStyleEx::Adi(ps) => match ps {
            PrintStyle::Mnemonic => 0xFF0000,
            PrintStyle::Register => 0xFFFFFF,
            PrintStyle::Number => 0x00FF00,
            PrintStyle::Symbol => 0xFFFFFF,
            PrintStyle::String => 0xFF7F00,
            PrintStyle::Comment => 0x00AF00,
            PrintStyle::Refname => 0xFFFFB0,
            PrintStyle::Label => 0xA06000,
            PrintStyle::Operand(_) => 0,
        },
    }
}

} // verus!
