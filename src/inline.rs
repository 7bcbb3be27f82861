//! The inline diff: two lines that show, character by character, how one line
//! was changed into another.
use vstd::prelude::*;
use crate::config::Config;
use crate::edit::{char_diff, char_diff_of, diff_fits, left_side, right_side, Change};
use crate::style::{push_char, push_prefix, push_suffix, style_prefix_of, style_suffix_of, TextStyle};

verus! {

/// A piece of styled output.
pub enum Piece {
    /// The escape sequence that opens a style.
    Open(TextStyle),
    /// The escape sequence that closes a style.
    Close(TextStyle),
    /// A character of text.
    Text(char),
    /// The end of a line.
    EndLine,
}

pub open spec fn piece_text(p: Piece) -> Seq<char> {
    match p {
        Piece::Open(s) => style_prefix_of(s),
        Piece::Close(s) => style_suffix_of(s),
        Piece::Text(c) => seq![c],
        Piece::EndLine => seq!['\n'],
    }
}

/// The text that a sequence of pieces writes.
pub open spec fn pieces_text(ps: Seq<Piece>) -> Seq<char>
    decreases ps.len(),
{
    if ps.len() == 0 {
        seq![]
    } else {
        pieces_text(ps.drop_last()) + piece_text(ps.last())
    }
}

/// The characters of text among the pieces, without escape sequences or line ends.
pub open spec fn pieces_chars(ps: Seq<Piece>) -> Seq<char>
    decreases ps.len(),
{
    if ps.len() == 0 {
        seq![]
    } else {
        let rest = pieces_chars(ps.drop_last());
        match ps.last() {
            Piece::Text(c) => rest.push(c),
            _ => rest,
        }
    }
}

/// The number of styles opened among the pieces.
pub open spec fn opens(ps: Seq<Piece>) -> nat
    decreases ps.len(),
{
    if ps.len() == 0 {
        0
    } else {
        opens(ps.drop_last()) + if ps.last() is Open { 1nat } else { 0nat }
    }
}

/// The number of styles closed among the pieces.
pub open spec fn closes(ps: Seq<Piece>) -> nat
    decreases ps.len(),
{
    if ps.len() == 0 {
        0
    } else {
        closes(ps.drop_last()) + if ps.last() is Close { 1nat } else { 0nat }
    }
}

/// Opening a style: nothing for the plain style, which has no sequence.
pub open spec fn open_piece(s: TextStyle) -> Seq<Piece> {
    if s.is_plain() {
        seq![]
    } else {
        seq![Piece::Open(s)]
    }
}

/// Closing a style: nothing for the plain style, which has no sequence.
pub open spec fn close_piece(s: TextStyle) -> Seq<Piece> {
    if s.is_plain() {
        seq![]
    } else {
        seq![Piece::Close(s)]
    }
}

/// Writing a character in `style` where `prev` is the style in force: the
/// character alone if the style stays, else the old style is closed and the
/// new one opened before it.
pub open spec fn step_pieces(prev: TextStyle, style: TextStyle, c: char) -> Seq<Piece> {
    if style == prev {
        seq![Piece::Text(c)]
    } else {
        close_piece(prev) + open_piece(style) + seq![Piece::Text(c)]
    }
}

/// The style in force after writing styled characters from the plain style.
pub open spec fn last_style(items: Seq<(TextStyle, char)>) -> TextStyle {
    if items.len() == 0 {
        TextStyle::plain()
    } else {
        items.last().0
    }
}

/// Styled characters written from the plain style, each run of one style
/// opened once and closed once.
pub open spec fn run_pieces(items: Seq<(TextStyle, char)>) -> Seq<Piece>
    decreases items.len(),
{
    if items.len() == 0 {
        seq![]
    } else {
        let (style, c) = items.last();
        run_pieces(items.drop_last()) + step_pieces(last_style(items.drop_last()), style, c)
    }
}

/// A line of styled characters: the last style is closed and the line ended.
pub open spec fn line_pieces(items: Seq<(TextStyle, char)>) -> Seq<Piece> {
    run_pieces(items) + close_piece(last_style(items)) + seq![Piece::EndLine]
}

/// The characters of the left line of an inline diff: those kept in `light`,
/// those removed in `heavy`.
pub open spec fn left_items(cs: Seq<Change<char>>, light: TextStyle, heavy: TextStyle) -> Seq<(TextStyle, char)>
    decreases cs.len(),
{
    if cs.len() == 0 {
        seq![]
    } else {
        let rest = left_items(cs.drop_last(), light, heavy);
        match cs.last() {
            Change::Both(c, _) => rest.push((light, c)),
            Change::Left(c) => rest.push((heavy, c)),
            Change::Right(_) => rest,
        }
    }
}

/// The characters of the right line of an inline diff: those kept in `light`,
/// those inserted in `heavy`.
pub open spec fn right_items(cs: Seq<Change<char>>, light: TextStyle, heavy: TextStyle) -> Seq<(TextStyle, char)>
    decreases cs.len(),
{
    if cs.len() == 0 {
        seq![]
    } else {
        let rest = right_items(cs.drop_last(), light, heavy);
        match cs.last() {
            Change::Both(_, c) => rest.push((light, c)),
            Change::Left(_) => rest,
            Change::Right(c) => rest.push((heavy, c)),
        }
    }
}

/// The left line of an inline diff: the removed-line marker, then the line.
pub open spec fn inline_left_pieces(cfg: Config, cs: Seq<Change<char>>) -> Seq<Piece> {
    line_pieces(
        seq![(cfg.style_left, cfg.line_symbol.left())] + left_items(cs, cfg.style_left, cfg.style_left_diff),
    )
}

/// The right line of an inline diff: the added-line marker, then the line.
pub open spec fn inline_right_pieces(cfg: Config, cs: Seq<Change<char>>) -> Seq<Piece> {
    line_pieces(
        seq![(cfg.style_right, cfg.line_symbol.right())] + right_items(cs, cfg.style_right, cfg.style_right_diff),
    )
}

/// Both lines of the inline diff that the character script `cs` describes.
pub open spec fn inline_pieces(cfg: Config, cs: Seq<Change<char>>) -> Seq<Piece> {
    inline_left_pieces(cfg, cs) + inline_right_pieces(cfg, cs)
}

pub open spec fn inline_text(cfg: Config, cs: Seq<Change<char>>) -> Seq<char> {
    pieces_text(inline_pieces(cfg, cs))
}

proof fn lemma_pieces_text_add(a: Seq<Piece>, b: Seq<Piece>)
    ensures
        pieces_text(a + b) == pieces_text(a) + pieces_text(b),
    decreases b.len(),
{
    if b.len() > 0 {
        lemma_pieces_text_add(a, b.drop_last());
        assert((a + b).drop_last() =~= a + b.drop_last());
    }
}

proof fn lemma_step_text(prev: TextStyle, style: TextStyle, c: char)
    requires
        style.is_plain() ==> style_prefix_of(style) == Seq::<char>::empty(),
    ensures
        pieces_text(step_pieces(prev, style, c)) == if style == prev {
            seq![c]
        } else {
            style_suffix_of(prev) + style_prefix_of(style) + seq![c]
        },
{
    reveal_with_fuel(pieces_text, 4);
    let t = seq![Piece::Text(c)];
    if style != prev {
        lemma_pieces_text_add(close_piece(prev) + open_piece(style), t);
        lemma_pieces_text_add(close_piece(prev), open_piece(style));
    }
}

proof fn lemma_counts_add(a: Seq<Piece>, b: Seq<Piece>)
    ensures
        opens(a + b) == opens(a) + opens(b),
        closes(a + b) == closes(a) + closes(b),
        pieces_chars(a + b) == pieces_chars(a) + pieces_chars(b),
    decreases b.len(),
{
    if b.len() > 0 {
        lemma_counts_add(a, b.drop_last());
        assert((a + b).drop_last() =~= a + b.drop_last());
        if let Piece::Text(c) = b.last() {
            assert((pieces_chars(a) + pieces_chars(b.drop_last())).push(c)
                =~= pieces_chars(a) + pieces_chars(b.drop_last()).push(c));
        }
    }
}

/// The characters of styled items, without their styles.
pub open spec fn item_chars(items: Seq<(TextStyle, char)>) -> Seq<char> {
    items.map_values(|x: (TextStyle, char)| x.1)
}

proof fn lemma_step_counts(prev: TextStyle, style: TextStyle, c: char)
    ensures
        opens(step_pieces(prev, style, c)) == if style != prev && !style.is_plain() { 1nat } else { 0nat },
        closes(step_pieces(prev, style, c)) == if style != prev && !prev.is_plain() { 1nat } else { 0nat },
        pieces_chars(step_pieces(prev, style, c)) == seq![c],
{
    reveal_with_fuel(opens, 4);
    reveal_with_fuel(closes, 4);
    reveal_with_fuel(pieces_chars, 4);
    let t = seq![Piece::Text(c)];
    if style != prev {
        let o = open_piece(style);
        let k = close_piece(prev);
        lemma_counts_add(k + o, t);
        lemma_counts_add(k, o);
    }
}

proof fn lemma_run_pieces_counts(items: Seq<(TextStyle, char)>)
    ensures
        opens(run_pieces(items)) == closes(run_pieces(items)) + if last_style(items).is_plain() {
            0nat
        } else {
            1nat
        },
        pieces_chars(run_pieces(items)) == item_chars(items),
    decreases items.len(),
{
    reveal_with_fuel(opens, 4);
    reveal_with_fuel(closes, 4);
    reveal_with_fuel(pieces_chars, 4);
    if items.len() > 0 {
        let rest = items.drop_last();
        let (style, c) = items.last();
        let prev = last_style(rest);
        lemma_run_pieces_counts(rest);
        let step = step_pieces(prev, style, c);
        lemma_counts_add(run_pieces(rest), step);
        lemma_step_counts(prev, style, c);
    }
}

proof fn lemma_line_pieces_counts(items: Seq<(TextStyle, char)>)
    ensures
        opens(line_pieces(items)) == closes(line_pieces(items)),
        pieces_chars(line_pieces(items)) == item_chars(items),
{
    reveal_with_fuel(opens, 3);
    reveal_with_fuel(closes, 3);
    reveal_with_fuel(pieces_chars, 3);
    lemma_run_pieces_counts(items);
    let tail = close_piece(last_style(items)) + seq![Piece::EndLine];
    assert(line_pieces(items) =~= run_pieces(items) + tail);
    lemma_counts_add(run_pieces(items), tail);
    lemma_counts_add(close_piece(last_style(items)), seq![Piece::EndLine]);
}

proof fn lemma_side_items(cs: Seq<Change<char>>, light: TextStyle, heavy: TextStyle)
    ensures
        item_chars(left_items(cs, light, heavy)) == left_side(cs),
        item_chars(right_items(cs, light, heavy)) == right_side(cs),
    decreases cs.len(),
{
    if cs.len() > 0 {
        lemma_side_items(cs.drop_last(), light, heavy);
    }
}

/// Within each line of an inline diff, every style that is opened is closed:
/// as many escape sequences open a style as close one.
pub proof fn lemma_inline_styles_balanced(cfg: Config, cs: Seq<Change<char>>)
    ensures
        opens(inline_left_pieces(cfg, cs)) == closes(inline_left_pieces(cfg, cs)),
        opens(inline_right_pieces(cfg, cs)) == closes(inline_right_pieces(cfg, cs)),
        opens(inline_pieces(cfg, cs)) == closes(inline_pieces(cfg, cs)),
{
    lemma_line_pieces_counts(
        seq![(cfg.style_left, cfg.line_symbol.left())] + left_items(cs, cfg.style_left, cfg.style_left_diff),
    );
    lemma_line_pieces_counts(
        seq![(cfg.style_right, cfg.line_symbol.right())] + right_items(cs, cfg.style_right, cfg.style_right_diff),
    );
    lemma_counts_add(inline_left_pieces(cfg, cs), inline_right_pieces(cfg, cs));
}

/// The text of an inline diff, its escape sequences and line ends aside: the
/// left line is the removed-line marker and the left side of the script, the
/// right line the added-line marker and the right side.
pub proof fn lemma_inline_keeps_text(cfg: Config, cs: Seq<Change<char>>)
    ensures
        pieces_chars(inline_left_pieces(cfg, cs)) == seq![cfg.line_symbol.left()] + left_side(cs),
        pieces_chars(inline_right_pieces(cfg, cs)) == seq![cfg.line_symbol.right()] + right_side(cs),
{
    let l = left_items(cs, cfg.style_left, cfg.style_left_diff);
    let r = right_items(cs, cfg.style_right, cfg.style_right_diff);
    lemma_line_pieces_counts(seq![(cfg.style_left, cfg.line_symbol.left())] + l);
    lemma_line_pieces_counts(seq![(cfg.style_right, cfg.line_symbol.right())] + r);
    lemma_side_items(cs, cfg.style_left, cfg.style_left_diff);
    lemma_side_items(cs, cfg.style_right, cfg.style_right_diff);
}

/// Writes characters each in a style, opening and closing a style only where
/// it changes rather than around each character.
pub struct InlineWriter {
    /// The style in force.
    pub style: TextStyle,
}

impl InlineWriter {
    pub fn new() -> (r: InlineWriter)
        ensures
            r.style == TextStyle::plain(),
    {
        InlineWriter { style: TextStyle::plain() }
    }

    /// Writes a character in a style.
    pub fn write_with_style(&mut self, out: &mut String, c: char, style: TextStyle)
        ensures
            final(out)@ == old(out)@ + pieces_text(step_pieces(old(self).style, style, c)),
            final(self).style == style,
    {
        if style == self.style {
            push_char(out, c);
            proof {
                reveal_with_fuel(pieces_text, 2);
            }
        } else {
            push_suffix(out, self.style);
            push_prefix(out, style);
            proof {
                if style.is_plain() {
                    assert(style_prefix_of(style) =~= Seq::<char>::empty());
                }
                lemma_step_text(old(self).style, style, c);
            }
            push_char(out, c);
            self.style = style;
        }
    }

    /// Closes the style in force, ends the line, and returns to the plain style.
    pub fn finish(&mut self, out: &mut String)
        ensures
            final(out)@ == old(out)@ + pieces_text(close_piece(old(self).style) + seq![Piece::EndLine]),
            final(self).style == TextStyle::plain(),
    {
        push_suffix(out, self.style);
        push_char(out, '\n');
        self.style = TextStyle::plain();
        proof {
            reveal_with_fuel(pieces_text, 3);
        }
    }
}

proof fn lemma_run_pieces_push(items: Seq<(TextStyle, char)>, style: TextStyle, c: char)
    ensures
        pieces_text(run_pieces(items.push((style, c)))) == pieces_text(run_pieces(items))
            + pieces_text(step_pieces(last_style(items), style, c)),
        last_style(items.push((style, c))) == style,
{
    assert(items.push((style, c)).drop_last() =~= items);
    lemma_pieces_text_add(run_pieces(items), step_pieces(last_style(items), style, c));
}

proof fn lemma_line_pieces_text(items: Seq<(TextStyle, char)>)
    ensures
        pieces_text(line_pieces(items)) == pieces_text(run_pieces(items))
            + pieces_text(close_piece(last_style(items)) + seq![Piece::EndLine]),
{
    assert(line_pieces(items) =~= run_pieces(items) + (close_piece(last_style(items)) + seq![Piece::EndLine]));
    lemma_pieces_text_add(run_pieces(items), close_piece(last_style(items)) + seq![Piece::EndLine]);
}

/// Writes the two lines of the inline diff that the character script `changes`
/// describes: the left line with the kept characters in the light removed
/// style and the removed ones in the heavy one, then the right line with the
/// kept characters in the light added style and the inserted ones in the heavy
/// one. Each line starts with its marker and ends with a newline, every style
/// closed.
pub fn write_inline_changes(out: &mut String, cfg: &Config, changes: &Vec<Change<char>>)
    ensures
        final(out)@ == old(out)@ + inline_text(*cfg, changes@),
{
    let ghost cs = changes@;
    let mut writer = InlineWriter::new();

    // The left line, with removed characters highlighted.
    let light = cfg.style_left;
    let heavy = cfg.style_left_diff;
    let ghost head = seq![(light, cfg.line_symbol.left())];
    writer.write_with_style(out, cfg.line_symbol.left(), light);
    proof {
        lemma_run_pieces_push(seq![], light, cfg.line_symbol.left());
    }
    let mut i: usize = 0;
    while i < changes.len()
        invariant
            cs == changes@,
            i <= cs.len(),
            light == cfg.style_left,
            heavy == cfg.style_left_diff,
            head == seq![(light, cfg.line_symbol.left())],
            out@ == old(out)@ + pieces_text(run_pieces(head + left_items(cs.take(i as int), light, heavy))),
            writer.style == last_style(head + left_items(cs.take(i as int), light, heavy)),
        decreases cs.len() - i,
    {
        let ghost items = head + left_items(cs.take(i as int), light, heavy);
        assert(cs.take(i + 1).drop_last() =~= cs.take(i as int));
        match &changes[i] {
            Change::Both(c, _) => {
                writer.write_with_style(out, *c, light);
                proof {
                    lemma_run_pieces_push(items, light, *c);
                }
            },
            Change::Left(c) => {
                writer.write_with_style(out, *c, heavy);
                proof {
                    lemma_run_pieces_push(items, heavy, *c);
                }
            },
            Change::Right(_) => {},
        }
        i = i + 1;
    }
    writer.finish(out);
    proof {
        lemma_line_pieces_text(head + left_items(cs, light, heavy));
    }
    let ghost after_left = out@;

    // The right line, with inserted characters highlighted.
    let light = cfg.style_right;
    let heavy = cfg.style_right_diff;
    let ghost head = seq![(light, cfg.line_symbol.right())];
    writer.write_with_style(out, cfg.line_symbol.right(), light);
    proof {
        lemma_run_pieces_push(seq![], light, cfg.line_symbol.right());
    }
    let mut i: usize = 0;
    while i < changes.len()
        invariant
            cs == changes@,
            i <= cs.len(),
            light == cfg.style_right,
            heavy == cfg.style_right_diff,
            head == seq![(light, cfg.line_symbol.right())],
            out@ == after_left + pieces_text(run_pieces(head + right_items(cs.take(i as int), light, heavy))),
            writer.style == last_style(head + right_items(cs.take(i as int), light, heavy)),
        decreases cs.len() - i,
    {
        let ghost items = head + right_items(cs.take(i as int), light, heavy);
        assert(cs.take(i + 1).drop_last() =~= cs.take(i as int));
        match &changes[i] {
            Change::Both(_, c) => {
                writer.write_with_style(out, *c, light);
                proof {
                    lemma_run_pieces_push(items, light, *c);
                }
            },
            Change::Left(_) => {},
            Change::Right(c) => {
                writer.write_with_style(out, *c, heavy);
                proof {
                    lemma_run_pieces_push(items, heavy, *c);
                }
            },
        }
        i = i + 1;
    }
    writer.finish(out);
    proof {
        assert(cs.take(cs.len() as int) =~= cs);
        lemma_line_pieces_text(head + right_items(cs, light, heavy));
        lemma_pieces_text_add(inline_left_pieces(*cfg, cs), inline_right_pieces(*cfg, cs));
    }
}

/// Writes the inline diff of two lines, which should hold no newline: the
/// lines' characters are compared by `diff::chars`.
pub fn write_inline_diff(out: &mut String, cfg: &Config, left: &str, right: &str)
    requires
        diff_fits(left@.len(), right@.len()),
    ensures
        final(out)@ == old(out)@ + inline_text(*cfg, char_diff_of(left@, right@)),
{
    let changes = char_diff(left, right);
    write_inline_changes(out, cfg, &changes);
}

} // verus!
