//! What is done with the files that a search pattern matches: the pattern
//! is checked before it is expanded, and the files found are parted into
//! metadata and content by their extension.

use vstd::prelude::*;
use vstd::string::to_string_from_display_ensures;
use crate::bindings::{compile_pattern, pattern_is_valid};
use crate::error::{ErrorKind, RoxyError};
use crate::text::{chars_of, find_first, first_index_of, lemma_first_index_of, string_between};
use crate::bindings::{extension_of, path_extension};

verus! {

/// The extension that marks a metadata file.
pub open spec fn metadata_extension() -> Seq<char> {
    seq!['t', 'o', 'm', 'l']
}

/// A file is metadata when its extension is that of the metadata format;
/// every other file, one without extension too, is content.
pub open spec fn spec_is_metadata(path: Seq<char>) -> bool {
    path_extension(path) == Some(metadata_extension())
}

/// The paths among `files` that are metadata, or those that are not, in
/// the order in which they stand in `files`.
pub open spec fn select(files: Seq<Seq<char>>, metadata: bool) -> Seq<Seq<char>> {
    files.filter(|p: Seq<char>| spec_is_metadata(p) == metadata)
}

/// Partition is exact: what it puts with the metadata is metadata, what it
/// puts with the content is not, and every file is on exactly one side.
pub proof fn lemma_partition_is_exact(files: Seq<Seq<char>>)
    ensures
        forall|i: int|
            0 <= i < select(files, true).len() ==> spec_is_metadata(
                #[trigger] select(files, true)[i],
            ),
        forall|i: int|
            0 <= i < select(files, false).len() ==> !spec_is_metadata(
                #[trigger] select(files, false)[i],
            ),
        forall|i: int|
            0 <= i < files.len() ==> select(files, spec_is_metadata(#[trigger] files[i])).contains(
                files[i],
            ),
        select(files, true).len() + select(files, false).len() == files.len(),
    decreases files.len(),
{
    reveal(Seq::filter);
    if files.len() > 0 {
        let rest = files.drop_last();
        lemma_partition_is_exact(rest);
        let last = files.last();
        let side = spec_is_metadata(last);
        assert(select(files, side) == select(rest, side).push(last));
        assert(select(files, !side) == select(rest, !side));
        assert(select(files, side).last() == last);
        assert forall|i: int| 0 <= i < files.len() implies select(
            files,
            spec_is_metadata(#[trigger] files[i]),
        ).contains(files[i]) by {
            if i < rest.len() {
                let s = spec_is_metadata(rest[i]);
                let j = choose|j: int| 0 <= j < select(rest, s).len() && select(rest, s)[j] == rest[i];
                assert(select(files, s)[j] == files[i]);
            }
        }
    }
}

/// The files of one run, by what is done with them.
#[derive(Clone, Debug, PartialEq, Eq)]
pub struct Discovered {
    /// The files that are decoded into the render context.
    pub metadata: Vec<String>,
    /// The files that are transformed and written.
    pub content: Vec<String>,
}

/// Whether `path` is a metadata file.
pub fn is_metadata(path: &str) -> (r: bool)
    ensures
        r == spec_is_metadata(path@),
{
    proof {
        reveal_strlit("toml");
        assert("toml"@ == metadata_extension());
    }
    match extension_of(path) {
        Some(ext) => ext == String::from_str("toml"),
        None => false,
    }
}

/// Parts the files found into metadata and content. Each file goes to
/// exactly one side, and both sides keep the order of discovery.
pub fn partition(files: &Vec<String>) -> (found: Discovered)
    ensures
        found.metadata.deep_view() == select(files.deep_view(), true),
        found.content.deep_view() == select(files.deep_view(), false),
{
    let mut metadata: Vec<String> = Vec::new();
    let mut content: Vec<String> = Vec::new();
    let ghost all = files.deep_view();
    let mut i: usize = 0;
    proof {
        reveal(Seq::filter);
        assert(all.take(0) == Seq::<Seq<char>>::empty());
        assert(metadata.deep_view() == Seq::<Seq<char>>::empty());
        assert(content.deep_view() == Seq::<Seq<char>>::empty());
    }
    while i < files.len()
        invariant
            i <= files.len(),
            all == files.deep_view(),
            metadata.deep_view() == select(all.take(i as int), true),
            content.deep_view() == select(all.take(i as int), false),
        decreases files.len() - i,
    {
        let file = &files[i];
        let ghost before = all.take(i as int);
        let ghost upto = all.take(i + 1);
        assert(upto.drop_last() == before);
        assert(upto.last() == file@);
        proof {
            reveal(Seq::filter);
        }
        let ghost old_metadata = metadata.deep_view();
        let ghost old_content = content.deep_view();
        if is_metadata(file.as_str()) {
            metadata.push(file.clone());
            assert(metadata.deep_view() == old_metadata.push(file@));
        } else {
            content.push(file.clone());
            assert(content.deep_view() == old_content.push(file@));
        }
        i = i + 1;
    }
    assert(all.take(files.len() as int) == all);
    Discovered { metadata, content }
}

/// Whether each component of the pattern, taken alone, is well formed.
pub open spec fn components_are_valid(s: Seq<char>) -> bool
    decreases s.len(),
{
    let k = first_index_of(s, '/');
    pattern_is_valid(s.take(k)) && if 0 <= k < s.len() {
        components_are_valid(s.skip(k + 1))
    } else {
        true
    }
}

/// Whether expansion accepts the pattern: the pattern is well formed as a
/// whole, and each of its components is well formed taken alone.
pub open spec fn pattern_expands(pattern: Seq<char>) -> bool {
    pattern_is_valid(pattern) && components_are_valid(pattern)
}

/// What the check of a pattern gives for what compiling it returned: the
/// error, with its text as the message, is a pattern error.
pub fn pattern_outcome(compiled: Result<glob::Pattern, glob::PatternError>) -> (r: Result<
    (),
    RoxyError,
>)
    ensures
        match compiled {
            Ok(_) => r is Ok,
            Err(err) => r matches Err(e) && e.kind == ErrorKind::Pattern
                && to_string_from_display_ensures::<glob::PatternError>(&err, e.message),
        },
{
    match compiled {
        Ok(_) => Ok(()),
        Err(err) => {
            let message = err.to_string();
            Err(RoxyError { kind: ErrorKind::Pattern, message })
        },
    }
}

/// Whether a message is the text of a pattern error.
pub open spec fn is_pattern_message(message: String) -> bool {
    exists|err: glob::PatternError| #[trigger]
        to_string_from_display_ensures::<glob::PatternError>(&err, message)
}

/// Checks the syntax of a search pattern as expansion will, so that a
/// malformed one ends the run before any file is read.
pub fn validate_pattern(pattern: &str) -> (r: Result<(), RoxyError>)
    ensures
        r is Ok <==> pattern_expands(pattern@),
        r matches Err(e) ==> e.kind == ErrorKind::Pattern && is_pattern_message(e.message),
{
    match pattern_outcome(compile_pattern(pattern)) {
        Ok(()) => {},
        Err(e) => {
            return Err(e);
        },
    }
    let cs = chars_of(pattern);
    let mut start: usize = 0;
    assert(cs@.skip(0) == cs@);
    loop
        invariant
            start <= cs.len(),
            cs@ == pattern@,
            pattern_is_valid(pattern@),
            components_are_valid(cs@) == components_are_valid(cs@.skip(start as int)),
        decreases cs.len() - start,
    {
        let ghost rest = cs@.skip(start as int);
        let end = find_first(&cs, start, '/');
        let segment = string_between(&cs, start, end);
        proof {
            lemma_first_index_of(rest, '/');
            assert(segment@ == rest.take(first_index_of(rest, '/')));
        }
        match pattern_outcome(compile_pattern(segment.as_str())) {
            Ok(()) => {},
            Err(e) => {
                return Err(e);
            },
        }
        if end == cs.len() {
            return Ok(());
        }
        assert(rest.skip(end - start + 1) == cs@.skip(end + 1));
        start = end + 1;
    }
}

} // verus!
