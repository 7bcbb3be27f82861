//! Colourised, line- and character-level differences between two texts,
//! for the failure messages of equality assertions.
//!
//! `printer::write_lines` splits two texts into lines, diffs them, and writes
//! every line once: kept lines plain, removed and added lines in their styles,
//! and a single removed line directly followed by a single added line as an
//! inline diff (`inline::write_inline_diff`) that highlights the characters
//! that changed.
use vstd::prelude::*;

pub mod assertion;
pub mod comparison;
pub mod config;
pub mod edit;
pub mod inline;
pub mod printer;
pub mod style;

pub use comparison::{CompareAsStrByDefault, StrComparison};
pub use config::{Config, LineSymbol};
pub use edit::Change;
pub use style::{Color, TextStyle, Weight};

verus! {

} // verus!
