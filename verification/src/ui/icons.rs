//! Status icons and the colours in which they are shown.

use vstd::prelude::*;

verus! {

/// The icons that mark the state of a dependency.
#[derive(Debug, Clone, Copy, PartialEq, Eq, Structural)]
pub enum Icons {
    Loading,
    Done,
    Error,
    Update,
    Warning,
}

/// The colours in which the library asks for things to be drawn.
#[derive(Debug, Clone, Copy, PartialEq, Eq, Structural)]
pub enum Color {
    Gray,
    Green,
    Yellow,
    Red,
}

impl Icons {
    pub open spec fn nerd_icon_spec(self) -> Seq<char> {
        match self {
            Icons::Loading => "\u{f0453}"@,
            Icons::Done => "\u{eab2}"@,
            Icons::Error => "\u{ea87}"@,
            Icons::Update => "\u{f062}"@,
            Icons::Warning => "\u{f071}"@,
        }
    }

    pub open spec fn emoji_icon_spec(self) -> Seq<char> {
        match self {
            Icons::Loading => "\u{23f3}"@,
            Icons::Done => "\u{2714}\u{fe0f}"@,
            Icons::Error => "\u{26d4}"@,
            Icons::Update => "\u{2b06}\u{fe0f}"@,
            Icons::Warning => "\u{26a0}\u{fe0f}"@,
        }
    }

    /// The icon in a Nerd Font.
    pub fn get_nerd_icon(&self) -> (r: &'static str)
        ensures
            r@ == self.nerd_icon_spec(),
    {
        match self {
            Icons::Loading => "\u{f0453}",
            Icons::Done => "\u{eab2}",
            Icons::Error => "\u{ea87}",
            Icons::Update => "\u{f062}",
            Icons::Warning => "\u{f071}",
        }
    }

    /// The icon as an emoji.
    pub fn get_emoji_icon(&self) -> (r: &'static str)
        ensures
            r@ == self.emoji_icon_spec(),
    {
        match self {
            Icons::Loading => "\u{23f3}",
            Icons::Done => "\u{2714}\u{fe0f}",
            Icons::Error => "\u{26d4}",
            Icons::Update => "\u{2b06}\u{fe0f}",
            Icons::Warning => "\u{26a0}\u{fe0f}",
        }
    }

    /// The icon to show: the Nerd Font one where the terminal has such a font, else the emoji.
    pub fn get_icon(&self, has_nerd_font: bool) -> (r: &'static str)
        ensures
            r@ == if has_nerd_font {
                self.nerd_icon_spec()
            } else {
                self.emoji_icon_spec()
            },
    {
        if has_nerd_font {
            self.get_nerd_icon()
        } else {
            self.get_emoji_icon()
        }
    }
}

} // verus!
