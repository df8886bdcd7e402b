use vstd::prelude::*;

verus! {

/// Terminal colours a style can carry.
#[derive(Clone, Copy, Debug, PartialEq, Eq, Structural)]
pub enum Color {
    Reset,
    Black,
    Red,
    Green,
    Yellow,
    Blue,
    Magenta,
    Cyan,
    Gray,
    DarkGray,
    LightRed,
    LightGreen,
    LightYellow,
    LightBlue,
    LightMagenta,
    LightCyan,
    White,
}

/// Text emphasis bits, laid out as the terminal back end expects them.
pub const BOLD: u16 = 1;
pub const DIM: u16 = 2;
pub const ITALIC: u16 = 4;
pub const UNDERLINED: u16 = 8;

/// A text style: an optional foreground colour and two modifier sets, the
/// modifiers to switch on and those to switch off.
#[derive(Clone, Copy, Debug, PartialEq, Eq, Structural)]
pub struct Style {
    pub fg: Option<Color>,
    pub add_modifier: u16,
    pub sub_modifier: u16,
}

impl Style {
    /// The style that changes nothing.
    pub fn new() -> (r: Style)
        ensures
            r == Style::plain(),
    {
        Style { fg: None, add_modifier: 0, sub_modifier: 0 }
    }

    pub open spec fn plain() -> Style {
        Style { fg: None, add_modifier: 0, sub_modifier: 0 }
    }

    pub open spec fn with_modifier(self, m: u16) -> Style {
        Style { fg: self.fg, add_modifier: self.add_modifier | m, sub_modifier: self.sub_modifier & !m }
    }

    pub open spec fn with_fg(self, c: Color) -> Style {
        Style { fg: Some(c), ..self }
    }

    /// Switches the modifiers `m` on, and takes them out of the set to switch off.
    pub fn add_modifier(self, m: u16) -> (r: Style)
        ensures
            r == self.with_modifier(m),
    {
        Style { fg: self.fg, add_modifier: self.add_modifier | m, sub_modifier: self.sub_modifier & !m }
    }

    /// Sets the foreground colour.
    pub fn fg(self, c: Color) -> (r: Style)
        ensures
            r == self.with_fg(c),
    {
        Style { fg: Some(c), ..self }
    }

    /// Whether every modifier bit of `m` is switched on.
    pub open spec fn has_modifier(self, m: u16) -> bool {
        self.add_modifier & m == m
    }
}

/// Adding a modifier keeps every modifier that was already on.
pub proof fn lemma_add_modifier_keeps(s: Style, m: u16, k: u16)
    requires
        s.has_modifier(k),
    ensures
        s.with_modifier(m).has_modifier(k),
        s.with_modifier(m).has_modifier(m),
{
    let a = s.add_modifier;
    assert((a | m) & k == k) by (bit_vector)
        requires
            a & k == k,
    ;
    assert((a | m) & m == m) by (bit_vector);
}

} // verus!
