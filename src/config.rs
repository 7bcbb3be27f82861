//! What a rendering is configured with: markers, labels and styles.
use vstd::prelude::*;
use crate::style::{Color, TextStyle};

verus! {

/// Symbols used to indicate removed and added lines.
#[derive(Clone, Copy, Debug, PartialEq, Eq, Structural)]
pub enum LineSymbol {
    /// Use '<' and '>'
    Arrow,
    /// Use '-' and '+'
    Sign,
}

impl LineSymbol {
    /// The marker of a removed line.
    pub open spec fn left_spec(self) -> char {
        match self {
            LineSymbol::Arrow => '<',
            LineSymbol::Sign => '-',
        }
    }

    /// The marker of an added line.
    pub open spec fn right_spec(self) -> char {
        match self {
            LineSymbol::Arrow => '>',
            LineSymbol::Sign => '+',
        }
    }

    #[verifier::when_used_as_spec(left_spec)]
    pub fn left(self) -> (r: char)
        ensures
            r == self.left_spec(),
    {
        match self {
            LineSymbol::Arrow => '<',
            LineSymbol::Sign => '-',
        }
    }

    #[verifier::when_used_as_spec(right_spec)]
    pub fn right(self) -> (r: char)
        ensures
            r == self.right_spec(),
    {
        match self {
            LineSymbol::Arrow => '>',
            LineSymbol::Sign => '+',
        }
    }
}

impl Default for LineSymbol {
    fn default() -> (r: LineSymbol)
        ensures
            r == LineSymbol::Arrow,
    {
        LineSymbol::Arrow
    }
}

/// How a difference is rendered: the markers of removed and added lines, the
/// labels of the two sides, and the styles of each part.
#[derive(Clone, Copy, Debug)]
pub struct Config {
    pub line_symbol: LineSymbol,
    /// The label of the left side where no other is given.
    pub default_label_left: &'static str,
    /// The label of the right side where no other is given.
    pub default_label_right: &'static str,
    /// A label for the left side that replaces the default one.
    pub maybe_label_left: Option<&'static str>,
    /// A label for the right side that replaces the default one.
    pub maybe_label_right: Option<&'static str>,
    /// The style of the heading.
    pub style: TextStyle,
    /// The style of removed lines.
    pub style_left: TextStyle,
    /// The style of added lines.
    pub style_right: TextStyle,
    /// The style of the removed characters within a changed line.
    pub style_left_diff: TextStyle,
    /// The style of the inserted characters within a changed line.
    pub style_right_diff: TextStyle,
}

impl Config {
    /// Arrows, the labels "left" and "right", red for what was removed and green
    /// for what was added, and for the characters that differ, bold on a dark
    /// background.
    pub open spec fn is_default(self) -> bool {
        &&& self.line_symbol == LineSymbol::Arrow
        &&& self.default_label_left@ == "left"@
        &&& self.default_label_right@ == "right"@
        &&& self.maybe_label_left is None
        &&& self.maybe_label_right is None
        &&& self.style.is_plain()
        &&& self.style_left == TextStyle::light(Color::Red)
        &&& self.style_right == TextStyle::light(Color::Green)
        &&& self.style_left_diff == TextStyle::heavy(Color::Red, Color::Fixed(52))
        &&& self.style_right_diff == TextStyle::heavy(Color::Green, Color::Fixed(22))
    }

    /// The default configuration.
    pub fn new() -> (r: Config)
        ensures
            r.is_default(),
    {
        Config {
            line_symbol: LineSymbol::Arrow,
            default_label_left: "left",
            default_label_right: "right",
            maybe_label_left: None,
            maybe_label_right: None,
            style: TextStyle::plain(),
            style_left: TextStyle::fg(Color::Red),
            style_right: TextStyle::fg(Color::Green),
            style_left_diff: TextStyle::fg(Color::Red).on(Color::Fixed(52)).bold(),
            style_right_diff: TextStyle::fg(Color::Green).on(Color::Fixed(22)).bold(),
        }
    }

    /// Set the symbols used to indicate removed and added lines.
    pub fn line_symbol(self, value: LineSymbol) -> (r: Config)
        ensures
            r == (Config { line_symbol: value, ..self }),
    {
        Config { line_symbol: value, ..self }
    }

    /// The label of the left side.
    pub open spec fn label_left_spec(self) -> Seq<char> {
        match self.maybe_label_left {
            Some(l) => l@,
            None => self.default_label_left@,
        }
    }

    /// The label of the right side.
    pub open spec fn label_right_spec(self) -> Seq<char> {
        match self.maybe_label_right {
            Some(l) => l@,
            None => self.default_label_right@,
        }
    }

    pub fn label_left(&self) -> (r: &'static str)
        ensures
            r@ == self.label_left_spec(),
    {
        match self.maybe_label_left {
            Some(l) => l,
            None => self.default_label_left,
        }
    }

    pub fn label_right(&self) -> (r: &'static str)
        ensures
            r@ == self.label_right_spec(),
    {
        match self.maybe_label_right {
            Some(l) => l,
            None => self.default_label_right,
        }
    }
}

impl Default for Config {
    fn default() -> (r: Config)
        ensures
            r.is_default(),
    {
        Config::new()
    }
}

} // verus!
