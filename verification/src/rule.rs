//! The six ways in which a pattern is held against a path.

use crate::text::{
    contains, ends_with, ends_with_after, file_name, has_infix, has_prefix, has_suffix, name_is,
    name_starts_with, SEPARATOR,
};
use vstd::prelude::*;

verus! {

/// The mark that sets an extension off from the rest of a path.
pub const EXTENSION_MARK: char = '.';

/// How a pattern is held against a path. Both are taken as they are given:
/// a rule compares character by character.
#[derive(Clone, Copy, Debug, PartialEq, Eq, Structural)]
pub enum Rule {
    /// The pattern stands somewhere in the path.
    PathContains,
    /// The path ends with a dot and the pattern.
    Extension,
    /// The last component of the path is the pattern, or the path ends with a
    /// separator and the pattern.
    Filename,
    /// The last component of the path begins with the pattern.
    FilenameStartsWith,
    /// The path, as a whole, ends with the pattern.
    FilenameEndsWith,
    /// The last component of the path begins with the pattern.
    PathComponent,
}

impl Rule {
    /// Whether `path` meets this rule for the pattern `needle`.
    pub open spec fn spec_accepts(self, needle: Seq<char>, path: Seq<char>) -> bool {
        match self {
            Rule::PathContains => has_infix(path, needle),
            Rule::Extension => has_suffix(path, seq![EXTENSION_MARK] + needle),
            Rule::Filename => file_name(path) == needle || has_suffix(
                path,
                seq![SEPARATOR] + needle,
            ),
            Rule::FilenameStartsWith => has_prefix(file_name(path), needle),
            Rule::FilenameEndsWith => has_suffix(path, needle),
            Rule::PathComponent => has_prefix(file_name(path), needle),
        }
    }

    /// Decides whether `path` meets this rule for the pattern `needle`.
    pub fn accepts(self, needle: &[char], path: &[char]) -> (accepted: bool)
        ensures
            accepted == self.spec_accepts(needle@, path@),
    {
        match self {
            Rule::PathContains => contains(path, needle),
            Rule::Extension => ends_with_after(path, EXTENSION_MARK, needle),
            Rule::Filename => name_is(path, needle) || ends_with_after(path, SEPARATOR, needle),
            Rule::FilenameStartsWith => name_starts_with(path, needle),
            Rule::FilenameEndsWith => ends_with(path, needle),
            Rule::PathComponent => name_starts_with(path, needle),
        }
    }
}

} // verus!
