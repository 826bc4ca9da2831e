use vstd::prelude::*;

verus! {

/// The formatting options, fixed for a whole run.
#[derive(Clone, Copy)]
pub struct Config {
    /// Break output lines that would exceed this many characters; 0 means no
    /// limit.
    pub max_line_length: usize,
    /// On overflow, cut exactly at the width limit instead of at the last
    /// word boundary.
    pub break_words: bool,
    /// Emit completed lines as they are; when false, strip their trailing
    /// whitespace.
    pub keep_trailing_whitespaces: bool,
    /// Prefix the continuation lines of a wrapped list item with indentation
    /// that mirrors its bullet.
    pub preserve_list_indentation: bool,
    /// Join input lines within a paragraph before wrapping, instead of
    /// wrapping each input line on its own.
    pub rewrap: bool,
}

} // verus!
