use vstd::prelude::*;
use vstd::string::*;

use crate::text::{nat_text, push_nat};

verus! {

/// The SGR code that resets all attributes.
pub const RESET_NUM: u8 = 0;

/// The escape sequence that resets all attributes.
pub const RESET: &'static str = "\x1B[0m";

/// Whether a color applies to the text or to its background.
#[derive(PartialEq, Eq, Structural, Clone, Copy, Debug)]
pub enum ColorContext {
    Foreground,
    Background,
}

/// The sixteen colors of an ANSI terminal.
#[derive(PartialEq, Eq, Structural, Clone, Copy, Debug)]
pub enum ConsoleColor {
    Black,
    Red,
    Green,
    Yellow,
    Blue,
    Magenta,
    Cyan,
    White,
    Gray,
    BrightRed,
    BrightGreen,
    BrightYellow,
    BrightBlue,
    BrightMagenta,
    BrightCyan,
    BrightWhite,
}

impl ConsoleColor {
    /// The color's place in the palette: 0 to 7 for the normal colors, 8 to
    /// 15 for the bright ones.
    pub open spec fn index(self) -> nat {
        match self {
            ConsoleColor::Black => 0,
            ConsoleColor::Red => 1,
            ConsoleColor::Green => 2,
            ConsoleColor::Yellow => 3,
            ConsoleColor::Blue => 4,
            ConsoleColor::Magenta => 5,
            ConsoleColor::Cyan => 6,
            ConsoleColor::White => 7,
            ConsoleColor::Gray => 8,
            ConsoleColor::BrightRed => 9,
            ConsoleColor::BrightGreen => 10,
            ConsoleColor::BrightYellow => 11,
            ConsoleColor::BrightBlue => 12,
            ConsoleColor::BrightMagenta => 13,
            ConsoleColor::BrightCyan => 14,
            ConsoleColor::BrightWhite => 15,
        }
    }

    /// SGR code of a text color: 30 to 37, and 90 to 97 for bright ones.
    pub open spec fn foreground_code(self) -> nat {
        if self.index() < 8 {
            30 + self.index()
        } else {
            (90 + self.index() - 8) as nat
        }
    }

    /// SGR code of a background color: ten above the text color's code.
    pub open spec fn background_code(self) -> nat {
        self.foreground_code() + 10
    }

    pub fn foreground(&self) -> (r: u8)
        ensures
            r == self.foreground_code(),
    {
        match self {
            ConsoleColor::Black => 30,
            ConsoleColor::Red => 31,
            ConsoleColor::Green => 32,
            ConsoleColor::Yellow => 33,
            ConsoleColor::Blue => 34,
            ConsoleColor::Magenta => 35,
            ConsoleColor::Cyan => 36,
            ConsoleColor::White => 37,
            ConsoleColor::Gray => 90,
            ConsoleColor::BrightRed => 91,
            ConsoleColor::BrightGreen => 92,
            ConsoleColor::BrightYellow => 93,
            ConsoleColor::BrightBlue => 94,
            ConsoleColor::BrightMagenta => 95,
            ConsoleColor::BrightCyan => 96,
            ConsoleColor::BrightWhite => 97,
        }
    }

    pub fn background(&self) -> (r: u8)
        ensures
            r == self.background_code(),
    {
        match self {
            ConsoleColor::Black => 40,
            ConsoleColor::Red => 41,
            ConsoleColor::Green => 42,
            ConsoleColor::Yellow => 43,
            ConsoleColor::Blue => 44,
            ConsoleColor::Magenta => 45,
            ConsoleColor::Cyan => 46,
            ConsoleColor::White => 47,
            ConsoleColor::Gray => 100,
            ConsoleColor::BrightRed => 101,
            ConsoleColor::BrightGreen => 102,
            ConsoleColor::BrightYellow => 103,
            ConsoleColor::BrightBlue => 104,
            ConsoleColor::BrightMagenta => 105,
            ConsoleColor::BrightCyan => 106,
            ConsoleColor::BrightWhite => 107,
        }
    }

    pub fn color(&self, context: &ColorContext) -> (r: u8)
        ensures
            r == match *context {
                ColorContext::Foreground => self.foreground_code(),
                ColorContext::Background => self.background_code(),
            },
    {
        match context {
            ColorContext::Foreground => self.foreground(),
            ColorContext::Background => self.background(),
        }
    }
}

/// The escape sequence `ESC [ code m`.
pub open spec fn sgr(code: nat) -> Seq<char> {
    "\x1B["@ + nat_text(code) + "m"@
}

/// The escape sequences that select the given colors, text color first.
pub open spec fn escape_text(foreground: Option<ConsoleColor>, background: Option<ConsoleColor>) -> Seq<
    char,
> {
    (match foreground {
        Some(f) => sgr(f.foreground_code()),
        None => Seq::empty(),
    }) + (match background {
        Some(b) => sgr(b.background_code()),
        None => Seq::empty(),
    })
}

pub open spec fn chosen(c: Option<&ConsoleColor>) -> Option<ConsoleColor> {
    match c {
        Some(x) => Some(*x),
        None => None,
    }
}

fn push_sgr(buffer: &mut String, code: u8)
    ensures
        final(buffer)@ == old(buffer)@ + sgr(code as nat),
{
    buffer.append("\x1B[");
    push_nat(buffer, code as u64);
    buffer.append("m");
    assert(final(buffer)@ =~= old(buffer)@ + sgr(code as nat));
}

/// The escape sequences for a text color and a background color, each
/// optional.
pub fn build_escape(foreground: &Option<&ConsoleColor>, background: &Option<&ConsoleColor>) -> (r:
    String)
    ensures
        r@ == escape_text(chosen(*foreground), chosen(*background)),
{
    let mut text = String::new();
    if let Some(fore) = foreground {
        push_sgr(&mut text, fore.foreground());
    }
    if let Some(back) = background {
        push_sgr(&mut text, back.background());
    }
    assert(text@ =~= escape_text(chosen(*foreground), chosen(*background)));
    text
}

/// `content` in the given colors, followed by the reset sequence.
pub fn build_string_str(
    foreground: &Option<&ConsoleColor>,
    background: &Option<&ConsoleColor>,
    content: &str,
) -> (r: String)
    ensures
        r@ == escape_text(chosen(*foreground), chosen(*background)) + content@ + RESET@,
{
    let mut text = build_escape(foreground, background);
    text.append(content);
    text.append(RESET);
    text
}

} // verus!
