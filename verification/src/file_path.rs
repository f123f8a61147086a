//! Resolving an input path and an output root into a search pattern, a root
//! directory and the output path of every file found.

use vstd::prelude::*;
use crate::bindings::{
    join_paths, parent_of, path_join, path_parent, path_strip_prefix, strip_prefix,
};
use crate::error::{ErrorKind, RoxyError};
use crate::text::chars_of;

verus! {

/// Whether a character is a wildcard: one of the characters that make a
/// path component match several file names.
pub open spec fn is_wildcard(c: char) -> bool {
    c == '*' || c == '?' || c == '['
}

/// A path is a pattern when a wildcard occurs anywhere in it.
pub open spec fn has_wildcard(s: Seq<char>) -> bool {
    exists|i: int| 0 <= i < s.len() && is_wildcard(#[trigger] s[i])
}

/// What is appended to an input path to match every file below it, at any
/// depth.
pub open spec fn recursive_suffix() -> Seq<char> {
    seq!['*', '*', '/', '*']
}

/// The message of the error for a file outside the root directory.
pub open spec fn outside_root_message() -> Seq<char> {
    "prefix not found"@
}

/// The root directory of an input path: the first of the path itself, its
/// parent, its parent's parent and so on that holds no wildcard; the empty
/// path where there is none.
pub open spec fn concrete_root(s: Seq<char>) -> Seq<char>
    decreases s.len(),
{
    if !has_wildcard(s) {
        s
    } else {
        match path_parent(s) {
            Some(p) if p.len() < s.len() => concrete_root(p),
            _ => Seq::empty(),
        }
    }
}

/// Whether `a` is `s` itself, its parent, its parent's parent, and so on.
pub open spec fn is_ancestor(a: Seq<char>, s: Seq<char>) -> bool
    decreases s.len(),
{
    a == s || match path_parent(s) {
        Some(p) if p.len() < s.len() => is_ancestor(a, p),
        _ => false,
    }
}

/// The resolved paths of one run.
#[derive(Clone, Debug, PartialEq, Eq)]
pub struct FilePath {
    /// The pattern that file discovery expands.
    pub input: String,
    /// The directory that discovered files are taken relative to.
    pub root_dir: String,
    /// The directory under which the output tree is written.
    pub output: String,
}

impl FilePath {
    /// The pattern that matches every file below `input`, at any depth.
    pub open spec fn spec_search_pattern(input: Seq<char>) -> Seq<char> {
        path_join(input, recursive_suffix())
    }

    /// Whether the three paths are those that `input` and `output` resolve
    /// to.
    pub open spec fn resolves(&self, input: Seq<char>, output: Seq<char>) -> bool {
        &&& self.input@ == Self::spec_search_pattern(input)
        &&& self.root_dir@ == concrete_root(input)
        &&& self.output@ == output
    }

    /// The output path of `value`, or `None` where `value` does not lie
    /// under the root directory, component by component: its path relative
    /// to the root directory, joined onto the output root.
    pub open spec fn spec_to_output(&self, value: Seq<char>) -> Option<Seq<char>> {
        match path_strip_prefix(value, self.root_dir@) {
            Some(rel) => Some(path_join(self.output@, rel)),
            None => None,
        }
    }

    /// Resolves an input path, which may hold wildcards, and an output root.
    pub fn new(input: &str, output: &str) -> (fp: FilePath)
        ensures
            fp.resolves(input@, output@),
    {
        FilePath {
            input: Self::make_recursive(input),
            root_dir: Self::strip_wildcards(input),
            output: String::from_str(output),
        }
    }

    /// The pattern that matches every file below `path`, at any depth.
    pub fn make_recursive(path: &str) -> (pattern: String)
        ensures
            pattern@ == Self::spec_search_pattern(path@),
    {
        proof {
            reveal_strlit("**/*");
            assert("**/*"@ == recursive_suffix());
        }
        join_paths(path, "**/*")
    }

    /// Whether `path` is free of wildcards.
    pub fn has_no_wildcard(path: &str) -> (r: bool)
        ensures
            r == !has_wildcard(path@),
    {
        let cs = chars_of(path);
        let mut i: usize = 0;
        while i < cs.len()
            invariant
                i <= cs.len(),
                cs@ == path@,
                forall|j: int| 0 <= j < i ==> !is_wildcard(cs@[j]),
            decreases cs.len() - i,
        {
            let c = cs[i];
            if c == '*' || c == '?' || c == '[' {
                assert(is_wildcard(path@[i as int]));
                return false;
            }
            i = i + 1;
        }
        true
    }

    /// The root directory of `path`: its nearest ancestor, itself
    /// included, that holds no wildcard.
    pub fn strip_wildcards(path: &str) -> (root: String)
        ensures
            root@ == concrete_root(path@),
    {
        let mut current = String::from_str(path);
        loop
            invariant
                concrete_root(current@) == concrete_root(path@),
            decreases current@.len(),
        {
            if Self::has_no_wildcard(current.as_str()) {
                return current;
            }
            match parent_of(current.as_str()) {
                Some(p) => {
                    current = p;
                },
                None => {
                    return String::new();
                },
            }
        }
    }

    /// The output path of the discovered file `value`.
    pub fn to_output(&self, value: &str) -> (r: Result<String, RoxyError>)
        ensures
            match self.spec_to_output(value@) {
                Some(p) => r matches Ok(out) && out@ == p,
                None => r matches Err(e) && e.kind == ErrorKind::Path && e.message@
                    == outside_root_message(),
            },
    {
        match strip_prefix(value, self.root_dir.as_str()) {
            Some(rel) => Ok(join_paths(self.output.as_str(), rel.as_str())),
            None => Err(RoxyError::new(ErrorKind::Path, String::from_str("prefix not found"))),
        }
    }
}

/// The root directory is the deepest ancestor of the input path that holds
/// no wildcard: it holds none, every ancestor without wildcard is an
/// ancestor of it, and it is the whole input path where that holds none.
pub proof fn lemma_concrete_root(s: Seq<char>)
    ensures
        !has_wildcard(concrete_root(s)),
        forall|a: Seq<char>|
            is_ancestor(a, s) && !has_wildcard(a) ==> #[trigger] is_ancestor(a, concrete_root(s)),
        !has_wildcard(s) ==> concrete_root(s) == s,
    decreases s.len(),
{
    if has_wildcard(s) {
        match path_parent(s) {
            Some(p) if p.len() < s.len() => {
                lemma_concrete_root(p);
            },
            _ => {
                assert(!has_wildcard(Seq::<char>::empty()));
                assert forall|a: Seq<char>| is_ancestor(a, s) && !has_wildcard(a) implies false by {};
            },
        }
    }
}

} // verus!
