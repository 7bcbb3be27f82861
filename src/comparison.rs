//! A comparison of two strings, rendered as a heading and a line diff.
use vstd::prelude::*;
use crate::config::Config;
use crate::edit::{diff_fits, line_diff_of};
use crate::printer::{header_text, render_lines, write_header, write_lines};

verus! {

/// Marks the string types whose values are compared as strings rather than
/// through their debug representation.
pub trait CompareAsStrByDefault {}

impl CompareAsStrByDefault for str {}

impl CompareAsStrByDefault for String {}

impl<'a, T: CompareAsStrByDefault + ?Sized> CompareAsStrByDefault for &'a T {}

/// A comparison of two strings.
///
/// The strings are used directly, resulting in multi-line output for
/// multi-line strings.
pub struct StrComparison<'a> {
    pub left: &'a str,
    pub right: &'a str,
}

impl<'a> StrComparison<'a> {
    /// Store two strings to be compared in future.
    ///
    /// Expensive diffing is deferred until calling `render`.
    pub fn new(left: &'a str, right: &'a str) -> (r: StrComparison<'a>)
        ensures
            r.left == left,
            r.right == right,
    {
        StrComparison { left, right }
    }

    /// The heading, then the difference between the lines of the two strings.
    pub fn render(&self, cfg: &Config) -> (r: String)
        requires
            diff_fits(self.left@.len() + 1, self.right@.len() + 1),
        ensures
            r@ == header_text(*cfg) + render_lines(*cfg, line_diff_of(self.left@, self.right@)),
    {
        let mut out = String::new();
        write_header(&mut out, cfg);
        write_lines(&mut out, cfg, self.left, self.right);
        out
    }
}

} // verus!
