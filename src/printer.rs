//! The line diff: every line of two texts, kept, removed or added, with the
//! characters that changed highlighted where one line replaces one line.
use vstd::prelude::*;
use crate::config::Config;
use crate::edit::{
    change_text, char_diff_of, diff_fits, is_edit_script, keeps_equal, lemma_diff_fits_smaller,
    lemma_side_holds, lemma_text_lines_bounds, left_side, line_diff, line_diff_of, lines_view,
    right_side, text_lines, Change,
};
use crate::inline::{inline_text, write_inline_diff};
use crate::style::{push_char, push_prefix, push_suffix, style_prefix_of, style_suffix_of, TextStyle};

verus! {

/// A line of the rendered difference.
pub enum Row {
    /// A line of both texts.
    Context(Seq<char>),
    /// A line only of the left text.
    Removed(Seq<char>),
    /// A line only of the right text.
    Added(Seq<char>),
    /// A line of the left text replaced by one of the right text, shown as an
    /// inline diff.
    Replaced(Seq<char>, Seq<char>),
}

/// The number of removed lines that end at index `j` of a line script.
pub open spec fn left_run_end(s: Seq<Change<Seq<char>>>, j: int) -> nat
    decreases j + 1,
{
    if j < 0 || j >= s.len() || !(s[j] is Left) {
        0
    } else {
        1 + left_run_end(s, j - 1)
    }
}

/// The number of inserted lines that start at index `i` of a line script.
pub open spec fn right_run_start(s: Seq<Change<Seq<char>>>, i: int) -> nat
    decreases s.len() - i,
{
    if i < 0 || i >= s.len() || !(s[i] is Right) {
        0
    } else {
        1 + right_run_start(s, i + 1)
    }
}

/// The insertion at `i` is a single line that directly follows the removal of
/// a single line: the pair is shown as an inline diff.
pub open spec fn paired(s: Seq<Change<Seq<char>>>, i: int) -> bool {
    &&& 1 <= i < s.len()
    &&& s[i] is Right
    &&& s[i - 1] is Left
    &&& (i < 2 || !(s[i - 2] is Left))
    &&& (i + 1 >= s.len() || !(s[i + 1] is Right))
}

/// The rows that the step at `i` of a line script is shown by. A removed line
/// that is paired with the next one is shown by the row of that one.
pub open spec fn item_rows(s: Seq<Change<Seq<char>>>, i: int) -> Seq<Row> {
    match s[i] {
        Change::Both(v, _) => seq![Row::Context(v)],
        Change::Left(d) => if paired(s, i + 1) {
            seq![]
        } else {
            seq![Row::Removed(d)]
        },
        Change::Right(a) => if paired(s, i) {
            seq![Row::Replaced(change_text(s[i - 1]), a)]
        } else {
            seq![Row::Added(a)]
        },
    }
}

/// The rows of the first `k` steps of a line script.
pub open spec fn rows_upto(s: Seq<Change<Seq<char>>>, k: int) -> Seq<Row>
    decreases k,
{
    if k <= 0 {
        seq![]
    } else {
        rows_upto(s, k - 1) + item_rows(s, k - 1)
    }
}

/// The rows that show a line script.
pub open spec fn rows(s: Seq<Change<Seq<char>>>) -> Seq<Row> {
    rows_upto(s, s.len() as int)
}

/// A whole line in one style, after its marker.
pub open spec fn plain_line(style: TextStyle, marker: char, text: Seq<char>) -> Seq<char> {
    style_prefix_of(style) + seq![marker] + text + style_suffix_of(style) + seq!['\n']
}

pub open spec fn row_text(cfg: Config, row: Row) -> Seq<char> {
    match row {
        Row::Context(v) => seq![' '] + v + seq!['\n'],
        Row::Removed(d) => plain_line(cfg.style_left, cfg.line_symbol.left(), d),
        Row::Added(a) => plain_line(cfg.style_right, cfg.line_symbol.right(), a),
        Row::Replaced(d, a) => inline_text(cfg, char_diff_of(d, a)),
    }
}

pub open spec fn rows_text(cfg: Config, rs: Seq<Row>) -> Seq<char>
    decreases rs.len(),
{
    if rs.len() == 0 {
        seq![]
    } else {
        rows_text(cfg, rs.drop_last()) + row_text(cfg, rs.last())
    }
}

/// The rendering of a line script.
pub open spec fn render_lines(cfg: Config, s: Seq<Change<Seq<char>>>) -> Seq<char> {
    rows_text(cfg, rows(s))
}

/// The lines of the left text that the rows show.
pub open spec fn rows_left_lines(rs: Seq<Row>) -> Seq<Seq<char>>
    decreases rs.len(),
{
    if rs.len() == 0 {
        seq![]
    } else {
        let rest = rows_left_lines(rs.drop_last());
        match rs.last() {
            Row::Context(v) => rest.push(v),
            Row::Removed(d) => rest.push(d),
            Row::Added(_) => rest,
            Row::Replaced(d, _) => rest.push(d),
        }
    }
}

/// The lines of the right text that the rows show.
pub open spec fn rows_right_lines(rs: Seq<Row>) -> Seq<Seq<char>>
    decreases rs.len(),
{
    if rs.len() == 0 {
        seq![]
    } else {
        let rest = rows_right_lines(rs.drop_last());
        match rs.last() {
            Row::Context(v) => rest.push(v),
            Row::Removed(_) => rest,
            Row::Added(a) => rest.push(a),
            Row::Replaced(_, a) => rest.push(a),
        }
    }
}

/// The heading: which marker and colour stand for the left text, which for
/// the right one.
pub open spec fn header_text(cfg: Config) -> Seq<char> {
    let title = cfg.style.bold_spec();
    style_prefix_of(title) + "Diff"@ + style_suffix_of(title) + " "@
        + style_prefix_of(cfg.style_left) + seq![cfg.line_symbol.left(), ' '] + cfg.label_left_spec()
        + style_suffix_of(cfg.style_left) + " / "@
        + style_prefix_of(cfg.style_right) + cfg.label_right_spec() + seq![' ', cfg.line_symbol.right()]
        + style_suffix_of(cfg.style_right) + " :\n"@
}

/// Writes the heading of a difference.
pub fn write_header(out: &mut String, cfg: &Config)
    ensures
        final(out)@ == old(out)@ + header_text(*cfg),
{
    let title = cfg.style.bold();
    push_prefix(out, title);
    out.append("Diff");
    push_suffix(out, title);
    out.append(" ");
    push_prefix(out, cfg.style_left);
    push_char(out, cfg.line_symbol.left());
    push_char(out, ' ');
    out.append(cfg.label_left());
    push_suffix(out, cfg.style_left);
    out.append(" / ");
    push_prefix(out, cfg.style_right);
    out.append(cfg.label_right());
    push_char(out, ' ');
    push_char(out, cfg.line_symbol.right());
    push_suffix(out, cfg.style_right);
    out.append(" :\n");
}

/// Writes a whole line in one style, after its marker.
fn write_plain_line(out: &mut String, style: TextStyle, marker: char, text: &str)
    ensures
        final(out)@ == old(out)@ + plain_line(style, marker, text@),
{
    push_prefix(out, style);
    push_char(out, marker);
    out.append(text);
    push_suffix(out, style);
    push_char(out, '\n');
}

/// Delay formatting this deleted line until later.
///
/// It can be formatted as a whole line by calling `flush`, or the inner value
/// obtained with `take` for further processing (such as an inline diff).
pub struct LatentDeletion<'a> {
    /// The most recent deleted line we've seen.
    pub value: Option<&'a str>,
    /// The number of deleted lines we've seen in a row, including the current value.
    pub count: usize,
}

impl<'a> Default for LatentDeletion<'a> {
    fn default() -> (r: LatentDeletion<'a>)
        ensures
            r.value is None,
            r.count == 0,
    {
        LatentDeletion { value: None, count: 0 }
    }
}

impl<'a> LatentDeletion<'a> {
    /// Set the deleted line.
    pub fn set(&mut self, value: &'a str)
        requires
            old(self).count < usize::MAX,
        ensures
            final(self).value == Some(value),
            final(self).count == old(self).count + 1,
    {
        self.value = Some(value);
        self.count = self.count + 1;
    }

    /// Take the deleted line, if it's suitable for inline diffing: if there is
    /// none, or more than one line was deleted in a row, return `None`.
    pub fn take(&mut self) -> (r: Option<&'a str>)
        ensures
            old(self).count == 1 ==> r == old(self).value && final(self).value is None
                && final(self).count == 1,
            old(self).count != 1 ==> r is None && *final(self) == *old(self),
    {
        if self.count == 1 {
            self.value.take()
        } else {
            None
        }
    }

    /// If a deleted line is set, write it as a whole removed line. If none is set,
    /// reset the count to zero (`flush` was called twice without another
    /// deletion in between, so the line in the middle was something else).
    pub fn flush(&mut self, out: &mut String, cfg: &Config)
        ensures
            old(self).value matches Some(v) ==> final(out)@ == old(out)@ + plain_line(
                cfg.style_left,
                cfg.line_symbol.left(),
                v@,
            ) && final(self).count == old(self).count,
            old(self).value is None ==> final(out)@ == old(out)@ && final(self).count == 0,
            final(self).value is None,
    {
        if let Some(value) = self.value {
            write_plain_line(out, cfg.style_left, cfg.line_symbol.left(), value);
            self.value = None;
        } else {
            self.count = 0;
        }
    }
}

proof fn lemma_rows_text_add(cfg: Config, a: Seq<Row>, b: Seq<Row>)
    ensures
        rows_text(cfg, a + b) == rows_text(cfg, a) + rows_text(cfg, b),
    decreases b.len(),
{
    if b.len() > 0 {
        lemma_rows_text_add(cfg, a, b.drop_last());
        assert((a + b).drop_last() =~= a + b.drop_last());
    }
}

proof fn lemma_rows_upto_step(cfg: Config, s: Seq<Change<Seq<char>>>, k: int)
    requires
        0 <= k,
    ensures
        rows_text(cfg, rows_upto(s, k + 1)) == rows_text(cfg, rows_upto(s, k)) + rows_text(cfg, item_rows(s, k)),
{
    lemma_rows_text_add(cfg, rows_upto(s, k), item_rows(s, k));
}

/// The text of one row, and of none.
proof fn lemma_rows_text_short(cfg: Config, r: Row)
    ensures
        rows_text(cfg, seq![r]) == row_text(cfg, r),
        rows_text(cfg, Seq::<Row>::empty()) == Seq::<char>::empty(),
{
    reveal_with_fuel(rows_text, 2);
}

/// A removed line waits at `k` of the script: the step before it is a removal.
pub open spec fn pending(s: Seq<Change<Seq<char>>>, k: int) -> bool {
    k >= 1 && s[k - 1] is Left
}

/// Every inline diff of the script fits the table of a character diff.
pub open spec fn pairs_fit(s: Seq<Change<Seq<char>>>) -> bool {
    forall|i: int|
        #![trigger paired(s, i)]
        paired(s, i) ==> diff_fits(change_text(s[i - 1]).len(), change_text(s[i]).len())
}

/// The walk over a line script after `k` steps, from output `start`: the
/// rows of the steps before are written, but for a removed line that waits in
/// `d` for the next step.
pub open spec fn walked(
    cfg: Config,
    s: Seq<Change<Seq<char>>>,
    k: int,
    start: Seq<char>,
    out: Seq<char>,
    d: LatentDeletion,
) -> bool {
    &&& 0 <= k <= s.len()
    &&& d.value is Some <==> pending(s, k)
    &&& d.value matches Some(v) ==> v@ == change_text(s[k - 1]) && d.count == left_run_end(s, k - 1)
    &&& d.count <= k
    &&& out == start + rows_text(cfg, rows_upto(s, if pending(s, k) { k - 1 } else { k }))
}

proof fn lemma_flush_unpaired(cfg: Config, s: Seq<Change<Seq<char>>>, k: int)
    requires
        0 <= k <= s.len(),
        pending(s, k),
        !paired(s, k),
    ensures
        rows_text(cfg, rows_upto(s, k)) == rows_text(cfg, rows_upto(s, k - 1)) + plain_line(
            cfg.style_left,
            cfg.line_symbol.left(),
            change_text(s[k - 1]),
        ),
{
    lemma_rows_upto_step(cfg, s, k - 1);
    lemma_rows_text_short(cfg, Row::Removed(change_text(s[k - 1])));
}

proof fn lemma_item_text(cfg: Config, s: Seq<Change<Seq<char>>>, k: int)
    requires
        0 <= k < s.len(),
    ensures
        rows_text(cfg, rows_upto(s, k + 1)) == rows_text(cfg, rows_upto(s, k)) + rows_text(cfg, item_rows(s, k)),
        s[k] is Both ==> rows_text(cfg, item_rows(s, k)) == row_text(cfg, Row::Context(change_text(s[k]))),
        s[k] is Right && paired(s, k) ==> rows_text(cfg, item_rows(s, k)) == row_text(
            cfg,
            Row::Replaced(change_text(s[k - 1]), change_text(s[k])),
        ),
        s[k] is Right && !paired(s, k) ==> rows_text(cfg, item_rows(s, k)) == row_text(
            cfg,
            Row::Added(change_text(s[k])),
        ),
        s[k] is Left && paired(s, k + 1) ==> rows_text(cfg, item_rows(s, k)) == Seq::<char>::empty(),
{
    lemma_rows_upto_step(cfg, s, k);
    lemma_rows_text_short(cfg, Row::Context(change_text(s[k])));
    lemma_rows_text_short(cfg, Row::Added(change_text(s[k])));
    if k >= 1 {
        lemma_rows_text_short(cfg, Row::Replaced(change_text(s[k - 1]), change_text(s[k])));
    }
}

/// A step of the walk that keeps a line: it is written plain, after a space
/// that keeps its indentation.
fn write_kept<'a>(
    out: &mut String,
    cfg: &Config,
    changes: &'a Vec<Change<String>>,
    i: usize,
    previous_deletion: &mut LatentDeletion<'a>,
    Ghost(start): Ghost<Seq<char>>,
)
    requires
        i < changes@.len(),
        changes@[i as int] is Both,
        pairs_fit(lines_view(changes@)),
        walked(*cfg, lines_view(changes@), i as int, start, old(out)@, *old(previous_deletion)),
    ensures
        walked(*cfg, lines_view(changes@), i + 1, start, final(out)@, *final(previous_deletion)),
{
    let ghost s = lines_view(changes@);
    let ghost k = i as int;
    proof {
        lemma_item_text(*cfg, s, k);
        reveal_with_fuel(left_run_end, 2);
    }
    if let Change::Both(value, other) = &changes[i] {
        proof {
            if pending(s, k) {
                lemma_flush_unpaired(*cfg, s, k);
            }
        }
        previous_deletion.flush(out, cfg);
        push_char(out, ' ');
        out.append(value.as_str());
        push_char(out, '\n');
        assert(out@ == start + rows_text(*cfg, rows_upto(s, k + 1)));
    }
}

/// A step of the walk that removes a line: the line waits for the next step.
fn write_deleted<'a>(
    out: &mut String,
    cfg: &Config,
    changes: &'a Vec<Change<String>>,
    i: usize,
    previous_deletion: &mut LatentDeletion<'a>,
    Ghost(start): Ghost<Seq<char>>,
)
    requires
        i < changes@.len(),
        changes@[i as int] is Left,
        pairs_fit(lines_view(changes@)),
        walked(*cfg, lines_view(changes@), i as int, start, old(out)@, *old(previous_deletion)),
    ensures
        walked(*cfg, lines_view(changes@), i + 1, start, final(out)@, *final(previous_deletion)),
{
    let ghost s = lines_view(changes@);
    let ghost k = i as int;
    proof {
        lemma_item_text(*cfg, s, k);
        reveal_with_fuel(left_run_end, 2);
    }
    if let Change::Left(deleted) = &changes[i] {
        proof {
            if pending(s, k) {
                lemma_flush_unpaired(*cfg, s, k);
            }
        }
        previous_deletion.flush(out, cfg);
        let ghost flushed = out@;
        assert(i < changes.len());
        previous_deletion.set(deleted.as_str());
        assert(flushed == start + rows_text(*cfg, rows_upto(s, k)));
    }
}

/// A step of the walk that inserts a line: followed by more insertions, it is
/// written plain; otherwise it is diffed inline with a single deleted line just
/// before it, if there is one.
#[verifier::rlimit(40)]
fn write_inserted<'a>(
    out: &mut String,
    cfg: &Config,
    changes: &'a Vec<Change<String>>,
    i: usize,
    previous_deletion: &mut LatentDeletion<'a>,
    Ghost(start): Ghost<Seq<char>>,
)
    requires
        i < changes@.len(),
        changes@[i as int] is Right,
        pairs_fit(lines_view(changes@)),
        walked(*cfg, lines_view(changes@), i as int, start, old(out)@, *old(previous_deletion)),
    ensures
        walked(*cfg, lines_view(changes@), i + 1, start, final(out)@, *final(previous_deletion)),
{
    let ghost s = lines_view(changes@);
    let ghost k = i as int;
    proof {
        lemma_item_text(*cfg, s, k);
        reveal_with_fuel(left_run_end, 2);
    }
    let next_is_right = i < changes.len() - 1 && match &changes[i + 1] {
        Change::Right(_) => true,
        _ => false,
    };
    if let Change::Right(inserted) = &changes[i] {
        if next_is_right {
            // Followed by more insertions: written plain.
            proof {
                if pending(s, k) {
                    lemma_flush_unpaired(*cfg, s, k);
                }
            }
            previous_deletion.flush(out, cfg);
                write_plain_line(out, cfg.style_right, cfg.line_symbol.right(), inserted.as_str());
            assert(out@ == start + rows_text(*cfg, rows_upto(s, k + 1)));
        } else {
            // Otherwise diffed inline with a single deleted line just
            // before it, if there is one.
            match previous_deletion.take() {
                Some(deleted) => {
                    write_inline_diff(out, cfg, deleted, inserted.as_str());
                    assert(rows_text(*cfg, item_rows(s, k - 1)) =~= Seq::<char>::empty()) by {
                        lemma_rows_text_short(*cfg, Row::Context(seq![]));
                    }
                    assert(rows_text(*cfg, rows_upto(s, k)) == rows_text(*cfg, rows_upto(s, k - 1))) by {
                        lemma_rows_upto_step(*cfg, s, k - 1);
                    }
                    assert(out@ == start + rows_text(*cfg, rows_upto(s, k + 1)));
                },
                None => {
                    proof {
                        if pending(s, k) {
                            lemma_flush_unpaired(*cfg, s, k);
                        }
                    }
                    previous_deletion.flush(out, cfg);
                                write_plain_line(out, cfg.style_right, cfg.line_symbol.right(), inserted.as_str());
                    assert(out@ == start + rows_text(*cfg, rows_upto(s, k + 1)));
                },
            }
        }
    }
}

/// Writes the difference that the line script `changes` describes, a row for
/// each line: a kept line after a space, a removed line after the
/// removed-line marker in the removed style, an added line after the
/// added-line marker in the added style, and a single removed line directly
/// followed by a single added line as the inline diff of the two.
pub fn write_line_changes(out: &mut String, cfg: &Config, changes: &Vec<Change<String>>)
    requires
        pairs_fit(lines_view(changes@)),
    ensures
        final(out)@ == old(out)@ + render_lines(*cfg, lines_view(changes@)),
{
    let ghost s = lines_view(changes@);
    let ghost start = out@;
    let mut previous_deletion = LatentDeletion::default();
    let mut i: usize = 0;
    proof {
        lemma_rows_text_short(*cfg, Row::Context(seq![]));
    }
    while i < changes.len()
        invariant
            s == lines_view(changes@),
            pairs_fit(s),
            walked(*cfg, s, i as int, start, out@, previous_deletion),
        decreases s.len() - i,
    {
        match &changes[i] {
            Change::Both(..) => write_kept(out, cfg, changes, i, &mut previous_deletion, Ghost(start)),
            Change::Left(_) => write_deleted(out, cfg, changes, i, &mut previous_deletion, Ghost(start)),
            Change::Right(_) => write_inserted(out, cfg, changes, i, &mut previous_deletion, Ghost(start)),
        }
        i = i + 1;
    }
    proof {
        let n = s.len() as int;
        if pending(s, n) {
            lemma_flush_unpaired(*cfg, s, n);
        }
    }
    previous_deletion.flush(out, cfg);
}

/// Writes the difference between the lines of two texts, as `diff::lines`
/// finds it (see `write_line_changes`). The lengths of the texts, each plus
/// two, have a product of at most `usize::MAX / 8`, for the diffs' tables.
pub fn write_lines(out: &mut String, cfg: &Config, left: &str, right: &str)
    requires
        diff_fits(left@.len() + 1, right@.len() + 1),
    ensures
        final(out)@ == old(out)@ + render_lines(*cfg, line_diff_of(left@, right@)),
        is_edit_script(line_diff_of(left@, right@), text_lines(left@), text_lines(right@)),
{
    proof {
        lemma_text_lines_bounds(left@);
        lemma_text_lines_bounds(right@);
        lemma_diff_fits_smaller(
            text_lines(left@).len(),
            text_lines(right@).len(),
            left@.len() + 1,
            right@.len() + 1,
        );
    }
    let changes = line_diff(left, right);
    proof {
        let s = lines_view(changes@);
        assert forall|i: int| #[trigger] paired(s, i) implies diff_fits(
            change_text(s[i - 1]).len(),
            change_text(s[i]).len(),
        ) by {
            lemma_side_holds(s, i - 1);
            lemma_side_holds(s, i);
            let kl = choose|k: int| 0 <= k < left_side(s).len() && left_side(s)[k] == change_text(s[i - 1]);
            let kr = choose|k: int| 0 <= k < right_side(s).len() && right_side(s)[k] == change_text(s[i]);
            lemma_diff_fits_smaller(
                change_text(s[i - 1]).len(),
                change_text(s[i]).len(),
                left@.len() + 1,
                right@.len() + 1,
            );
        }
    }
    write_line_changes(out, cfg, &changes);
}

/// The removed line that waits at `k` is shown by the inline diff of the next step.
pub open spec fn waits_for_pair(s: Seq<Change<Seq<char>>>, k: int) -> bool {
    pending(s, k) && paired(s, k)
}

proof fn lemma_rows_upto_sides(s: Seq<Change<Seq<char>>>, k: int)
    requires
        keeps_equal(s),
        0 <= k <= s.len(),
    ensures
        rows_left_lines(rows_upto(s, k)) + (if waits_for_pair(s, k) {
            seq![change_text(s[k - 1])]
        } else {
            Seq::<Seq<char>>::empty()
        }) == left_side(s.take(k)),
        rows_right_lines(rows_upto(s, k)) == right_side(s.take(k)),
    decreases k,
{
    if k > 0 {
        let j = k - 1;
        lemma_rows_upto_sides(s, j);
        let before = rows_upto(s, j);
        assert(s.take(k).drop_last() =~= s.take(j));
        assert forall|r: Row| (#[trigger] before.push(r)).drop_last() == before by {
            assert(before.push(r).drop_last() =~= before);
        }
        match s[j] {
            Change::Both(v, _) => {
                assert(rows_upto(s, k) =~= before.push(Row::Context(v)));
            },
            Change::Left(d) => {
                if !paired(s, k) {
                    assert(rows_upto(s, k) =~= before.push(Row::Removed(d)));
                }
            },
            Change::Right(a) => {
                if paired(s, j) {
                    let d = change_text(s[j - 1]);
                    assert(rows_upto(s, k) =~= before.push(Row::Replaced(d, a)));
                } else {
                    assert(rows_upto(s, k) =~= before.push(Row::Added(a)));
                }
            },
        }
    }
}

/// Every line of both texts is shown exactly once, in order: the lines of the
/// left text are, row by row, those of the kept, removed and replaced rows, and
/// the lines of the right text those of the kept, added and replaced rows. This
/// holds of every edit script between the lines of the two texts, so of the one
/// that `diff::lines` computes (see `write_lines`).
pub proof fn lemma_every_line_once(left: Seq<char>, right: Seq<char>, s: Seq<Change<Seq<char>>>)
    requires
        is_edit_script(s, text_lines(left), text_lines(right)),
    ensures
        rows_left_lines(rows(s)) == text_lines(left),
        rows_right_lines(rows(s)) == text_lines(right),
{
    lemma_rows_upto_sides(s, s.len() as int);
    assert(s.take(s.len() as int) =~= s);
}

/// Character-level highlighting is used only where a removal of exactly one
/// line is directly followed by an insertion of exactly one line: where the
/// removed lines or the inserted lines are more than one, each of them is
/// shown as a whole removed or added line.
pub proof fn lemma_inline_only_for_single_lines(s: Seq<Change<Seq<char>>>, i: int)
    requires
        0 <= i < s.len(),
    ensures
        s[i] is Right ==> item_rows(s, i) == if left_run_end(s, i - 1) == 1 && right_run_start(s, i) == 1 {
            seq![Row::Replaced(change_text(s[i - 1]), change_text(s[i]))]
        } else {
            seq![Row::Added(change_text(s[i]))]
        },
        s[i] is Left ==> item_rows(s, i) == if left_run_end(s, i) == 1 && right_run_start(s, i + 1) == 1 {
            Seq::<Row>::empty()
        } else {
            seq![Row::Removed(change_text(s[i]))]
        },
{
    reveal_with_fuel(left_run_end, 2);
    reveal_with_fuel(right_run_start, 2);
}

} // verus!
