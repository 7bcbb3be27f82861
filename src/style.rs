//! Terminal text styles and the escape sequences that open and close them.
use vstd::prelude::*;

verus! {

/// A terminal colour.
#[derive(Clone, Copy, Debug, PartialEq, Eq, Structural)]
pub enum Color {
    Red,
    Green,
    /// One of the 256 colours of the extended palette.
    Fixed(u8),
}

/// The weight of the text.
#[derive(Clone, Copy, Debug, PartialEq, Eq, Structural)]
pub enum Weight {
    Normal,
    Bold,
}

/// A text style: foreground colour, background colour and weight.
///
/// The plain style (no colours, normal weight) writes no escape sequence.
#[derive(Clone, Copy, Debug, PartialEq, Eq, Structural)]
pub struct TextStyle {
    pub foreground: Option<Color>,
    pub background: Option<Color>,
    pub weight: Weight,
}

/// The escape sequence that switches the terminal to a style.
pub uninterp spec fn style_prefix_of(s: TextStyle) -> Seq<char>;

/// The escape sequence that resets the terminal after text in a style.
pub open spec fn style_suffix_of(s: TextStyle) -> Seq<char> {
    if s.is_plain() {
        seq![]
    } else {
        seq!['\x1b', '[', '0', 'm']
    }
}

impl TextStyle {
    /// No colours, normal weight.
    pub open spec fn is_plain(self) -> bool {
        self.foreground is None && self.background is None && self.weight == Weight::Normal
    }

    /// Text in a colour, in normal weight.
    pub open spec fn light(color: Color) -> TextStyle {
        TextStyle { foreground: Some(color), background: None, weight: Weight::Normal }
    }

    /// Bold text in a colour on a background colour.
    pub open spec fn heavy(color: Color, background: Color) -> TextStyle {
        TextStyle { foreground: Some(color), background: Some(background), weight: Weight::Bold }
    }

    /// The style that writes no escape sequence.
    pub open spec fn plain_spec() -> TextStyle {
        TextStyle { foreground: None, background: None, weight: Weight::Normal }
    }

    /// The style that writes no escape sequence.
    #[verifier::when_used_as_spec(plain_spec)]
    pub fn plain() -> (r: TextStyle)
        ensures
            r == TextStyle::plain_spec(),
            r.is_plain(),
    {
        TextStyle { foreground: None, background: None, weight: Weight::Normal }
    }

    /// Text in a colour, on the terminal's background, in normal weight.
    pub fn fg(color: Color) -> (r: TextStyle)
        ensures
            r == TextStyle::light(color),
    {
        TextStyle { foreground: Some(color), background: None, weight: Weight::Normal }
    }

    /// This style with a background colour.
    pub fn on(self, color: Color) -> (r: TextStyle)
        ensures
            r == (TextStyle { background: Some(color), ..self }),
    {
        TextStyle { background: Some(color), ..self }
    }

    pub open spec fn bold_spec(self) -> TextStyle {
        TextStyle { weight: Weight::Bold, ..self }
    }

    /// This style in bold.
    #[verifier::when_used_as_spec(bold_spec)]
    pub fn bold(self) -> (r: TextStyle)
        ensures
            r == self.bold_spec(),
    {
        TextStyle { weight: Weight::Bold, ..self }
    }

    /// Whether this style is plain.
    pub fn is_plain_style(&self) -> (r: bool)
        ensures
            r == self.is_plain(),
    {
        self.foreground.is_none() && self.background.is_none() && match self.weight {
            Weight::Normal => true,
            Weight::Bold => false,
        }
    }
}

/// Relies on `yansi::Style::prefix`: the sequence that a style opens with,
/// which is empty for the style without colours or attributes.
#[verifier::external_body]
fn style_prefix(s: TextStyle) -> (r: String)
    ensures
        r@ == style_prefix_of(s),
        s.is_plain() ==> r@ == Seq::<char>::empty(),
{
    let color = |c: Color| match c {
        Color::Red => yansi::Color::Red,
        Color::Green => yansi::Color::Green,
        Color::Fixed(n) => yansi::Color::Fixed(n),
    };
    let mut style = yansi::Style::new();
    style.foreground = s.foreground.map(color);
    style.background = s.background.map(color);
    let style = match s.weight {
        Weight::Normal => style,
        Weight::Bold => style.bold(),
    };
    style.prefix().into_owned()
}

/// Appends the sequence that opens a style.
pub(crate) fn push_prefix(out: &mut String, s: TextStyle)
    ensures
        final(out)@ == old(out)@ + style_prefix_of(s),
        s.is_plain() ==> final(out)@ == old(out)@,
{
    let p = style_prefix(s);
    out.append(p.as_str());
    assert(s.is_plain() ==> old(out)@ + p@ =~= old(out)@);
}

/// Appends the sequence that closes a style: a reset, unless the style is plain.
pub(crate) fn push_suffix(out: &mut String, s: TextStyle)
    ensures
        final(out)@ == old(out)@ + style_suffix_of(s),
{
    if !s.is_plain_style() {
        out.append("\x1b[0m");
        proof {
            reveal_strlit("\x1b[0m");
        }
    }
}

} // verus!

verus! {

/// Relies on `String::push`: appends one character.
#[verifier::external_body]
pub(crate) fn push_char(out: &mut String, c: char)
    ensures
        final(out)@ == old(out)@.push(c),
{
    out.push(c);
}

} // verus!
