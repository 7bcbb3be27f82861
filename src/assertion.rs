//! The decision and the message of a failed string equality assertion.
use vstd::prelude::*;
use crate::comparison::StrComparison;
use crate::config::Config;
use crate::edit::{diff_fits, line_diff_of};
use crate::printer::{header_text, render_lines};

verus! {

/// Relies on `str`'s `==`: two strings are equal when their characters are.
#[verifier::external_body]
fn str_eq(a: &str, b: &str) -> (r: bool)
    ensures
        r == (a@ == b@),
{
    a == b
}

/// The message with which an equality assertion on two strings fails: the
/// custom message after a colon, if any, then the comparison of the strings.
pub open spec fn str_eq_message(cfg: Config, left: Seq<char>, right: Seq<char>, message: Option<Seq<char>>) -> Seq<char> {
    "assertion failed: `(left == right)`"@ + match message {
        Some(m) => ": "@ + m,
        None => Seq::<char>::empty(),
    } + "\n\n"@ + header_text(cfg) + render_lines(cfg, line_diff_of(left, right)) + "\n"@
}

/// Checks that two strings are equal: `None` if they are, else the message
/// that the assertion fails with.
pub fn str_eq_failure(cfg: &Config, left: &str, right: &str, message: Option<&str>) -> (r: Option<String>)
    requires
        diff_fits(left@.len() + 1, right@.len() + 1),
    ensures
        left@ == right@ ==> r is None,
        left@ != right@ ==> (r matches Some(m) && m@ == str_eq_message(
            *cfg,
            left@,
            right@,
            match message {
                Some(t) => Some(t@),
                None => None,
            },
        )),
{
    if str_eq(left, right) {
        return None;
    }
    let mut out = String::new();
    out.append("assertion failed: `(left == right)`");
    match message {
        Some(m) => {
            out.append(": ");
            out.append(m);
        },
        None => {},
    }
    out.append("\n\n");
    let comparison = StrComparison::new(left, right);
    let text = comparison.render(cfg);
    out.append(text.as_str());
    out.append("\n");
    Some(out)
}

} // verus!
