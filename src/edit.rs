//! Edit scripts: how one sequence (of lines, or of characters) turns into another.
use vstd::prelude::*;

verus! {

/// One step of an edit script.
#[derive(Debug, PartialEq, Eq)]
pub enum Change<T> {
    /// An element of both sequences: the left one and the right one.
    Both(T, T),
    /// An element only of the left sequence: it was removed.
    Left(T),
    /// An element only of the right sequence: it was inserted.
    Right(T),
}

/// A diff of sequences of lengths `n` and `m` can be computed: its table of
/// `(n + 1) * (m + 1)` four-byte counters stays within half the address space.
pub open spec fn diff_fits(n: nat, m: nat) -> bool {
    (n + 1) * (m + 1) <= usize::MAX as int / 8
}

/// The left sequence of an edit script: what it starts from.
pub open spec fn left_side<T>(s: Seq<Change<T>>) -> Seq<T>
    decreases s.len(),
{
    if s.len() == 0 {
        seq![]
    } else {
        let rest = left_side(s.drop_last());
        match s.last() {
            Change::Both(a, _) => rest.push(a),
            Change::Left(a) => rest.push(a),
            Change::Right(_) => rest,
        }
    }
}

/// The right sequence of an edit script: what it turns into.
pub open spec fn right_side<T>(s: Seq<Change<T>>) -> Seq<T>
    decreases s.len(),
{
    if s.len() == 0 {
        seq![]
    } else {
        let rest = right_side(s.drop_last());
        match s.last() {
            Change::Both(_, b) => rest.push(b),
            Change::Left(_) => rest,
            Change::Right(b) => rest.push(b),
        }
    }
}

/// Every element that the script keeps is the same on both sides.
pub open spec fn keeps_equal<T>(s: Seq<Change<T>>) -> bool {
    forall|i: int| 0 <= i < s.len() ==> (#[trigger] s[i] matches Change::Both(a, b) ==> a == b)
}

/// `s` is an edit script from `left` to `right`.
pub open spec fn is_edit_script<T>(s: Seq<Change<T>>, left: Seq<T>, right: Seq<T>) -> bool {
    &&& left_side(s) == left
    &&& right_side(s) == right
    &&& keeps_equal(s)
}

/// The text that a step of a line script carries (the left one of a kept line).
pub open spec fn change_text(c: Change<Seq<char>>) -> Seq<char> {
    match c {
        Change::Both(a, _) => a,
        Change::Left(a) => a,
        Change::Right(b) => b,
    }
}

/// The view of a line script held as strings.
pub open spec fn lines_view(s: Seq<Change<String>>) -> Seq<Change<Seq<char>>> {
    s.map_values(|c: Change<String>| match c {
        Change::Both(a, b) => Change::Both(a@, b@),
        Change::Left(a) => Change::Left(a@),
        Change::Right(b) => Change::Right(b@),
    })
}

/// The pieces of a text between its newlines: one more than it has newlines.
pub open spec fn newline_pieces(s: Seq<char>) -> Seq<Seq<char>>
    decreases s.len(),
{
    if s.len() == 0 {
        seq![seq![]]
    } else {
        let p = newline_pieces(s.drop_last());
        if s.last() == '\n' {
            p.push(seq![])
        } else {
            p.update(p.len() - 1, p.last().push(s.last()))
        }
    }
}

/// A line without the carriage return that ends it, if any.
pub open spec fn without_cr(l: Seq<char>) -> Seq<char> {
    if l.len() > 0 && l.last() == '\r' {
        l.drop_last()
    } else {
        l
    }
}

/// The lines of a text. An empty text has none. Otherwise each newline ends a
/// line (with the carriage return before it, if any, removed), and what follows
/// the last newline is the last line, empty where the text ends with a newline.
pub open spec fn text_lines(s: Seq<char>) -> Seq<Seq<char>> {
    if s.len() == 0 {
        seq![]
    } else {
        let p = newline_pieces(s);
        Seq::new(p.len(), |i: int| if i < p.len() - 1 { without_cr(p[i]) } else { p[i] })
    }
}

pub proof fn lemma_diff_fits_smaller(n: nat, m: nat, n2: nat, m2: nat)
    requires
        n <= n2,
        m <= m2,
        diff_fits(n2, m2),
    ensures
        diff_fits(n, m),
{
    assert((n + 1) * (m + 1) <= (n2 + 1) * (m2 + 1)) by (nonlinear_arith)
        requires
            n <= n2,
            m <= m2,
    ;
}

proof fn lemma_newline_pieces_bounds(s: Seq<char>)
    ensures
        1 <= newline_pieces(s).len() <= s.len() + 1,
        forall|k: int| 0 <= k < newline_pieces(s).len() ==> (#[trigger] newline_pieces(s)[k]).len() <= s.len(),
    decreases s.len(),
{
    if s.len() > 0 {
        lemma_newline_pieces_bounds(s.drop_last());
    }
}

/// A text of `n` characters has at most `n + 1` lines, none longer than `n`.
pub proof fn lemma_text_lines_bounds(s: Seq<char>)
    ensures
        text_lines(s).len() <= s.len() + 1,
        forall|k: int| 0 <= k < text_lines(s).len() ==> (#[trigger] text_lines(s)[k]).len() <= s.len(),
{
    lemma_newline_pieces_bounds(s);
}

/// The element that a removal carries is one of the left side; the one that
/// an insertion carries is one of the right side.
pub proof fn lemma_side_holds<T>(s: Seq<Change<T>>, j: int)
    requires
        0 <= j < s.len(),
    ensures
        s[j] matches Change::Left(a) ==> exists|k: int| 0 <= k < left_side(s).len() && left_side(s)[k] == a,
        s[j] matches Change::Right(b) ==> exists|k: int| 0 <= k < right_side(s).len() && right_side(s)[k] == b,
    decreases s.len(),
{
    let l = left_side(s);
    let r = right_side(s);
    if j == s.len() - 1 {
        match s[j] {
            Change::Left(a) => {
                assert(l[l.len() - 1] == a);
            },
            Change::Right(b) => {
                assert(r[r.len() - 1] == b);
            },
            _ => {},
        }
    } else {
        let t = s.drop_last();
        lemma_side_holds(t, j);
        match s[j] {
            Change::Left(a) => {
                let k = choose|k: int| 0 <= k < left_side(t).len() && left_side(t)[k] == a;
                assert(l[k] == a);
            },
            Change::Right(b) => {
                let k = choose|k: int| 0 <= k < right_side(t).len() && right_side(t)[k] == b;
                assert(r[k] == b);
            },
            _ => {},
        }
    }
}

/// The script that `diff::lines` computes between the lines of two texts.
pub uninterp spec fn line_diff_of(left: Seq<char>, right: Seq<char>) -> Seq<Change<Seq<char>>>;

/// The script that `diff::chars` computes between the characters of two texts.
pub uninterp spec fn char_diff_of(left: Seq<char>, right: Seq<char>) -> Seq<Change<char>>;

/// Relies on `diff::lines`: a longest-common-subsequence script between the
/// lines of the two texts (split by `str::lines`, plus an empty last line for a
/// text that ends with a newline). Its table has one cell per pair of lines.
#[verifier::external_body]
pub(crate) fn line_diff(left: &str, right: &str) -> (r: Vec<Change<String>>)
    requires
        diff_fits(text_lines(left@).len(), text_lines(right@).len()),
    ensures
        lines_view(r@) == line_diff_of(left@, right@),
        is_edit_script(lines_view(r@), text_lines(left@), text_lines(right@)),
{
    diff::lines(left, right).into_iter().map(|c| match c {
        diff::Result::Both(a, b) => Change::Both(a.to_string(), b.to_string()),
        diff::Result::Left(a) => Change::Left(a.to_string()),
        diff::Result::Right(b) => Change::Right(b.to_string()),
    }).collect()
}

/// Relies on `diff::chars`: a longest-common-subsequence script between the
/// characters of the two texts. Its table has one cell per pair of characters.
#[verifier::external_body]
pub(crate) fn char_diff(left: &str, right: &str) -> (r: Vec<Change<char>>)
    requires
        diff_fits(left@.len(), right@.len()),
    ensures
        r@ == char_diff_of(left@, right@),
        is_edit_script(r@, left@, right@),
{
    diff::chars(left, right).into_iter().map(|c| match c {
        diff::Result::Both(a, b) => Change::Both(a, b),
        diff::Result::Left(a) => Change::Left(a),
        diff::Result::Right(b) => Change::Right(b),
    }).collect()
}

} // verus!
