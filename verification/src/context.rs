//! The render context: the decoded metadata files, each under the dotted
//! namespace that its path gives it. The context keeps every file under its
//! own namespace. For the template engine the tables are nested by the keys
//! of their namespaces, so that a template reaches the table of `a/b.toml`
//! as `a.b`, whether or not there is an `a.toml` beside it.

use vstd::prelude::*;
use vstd::string::to_string_from_display_ensures;
use crate::bindings::{
    context_entries, context_new, decode_table, path_strip_prefix, path_with_extension,
    strip_prefix, table_items, toml_items, with_extension,
};
use crate::error::{ErrorKind, RoxyError};
use crate::namespace::Item;
use crate::nesting::{engine_context, reflects};
use crate::text::{chars_of, skip_while, string_between, trim_start};

verus! {

/// The path with each separator replaced by a dot.
pub open spec fn dotted(s: Seq<char>) -> Seq<char> {
    s.map_values(|c: char| if c == '/' { '.' } else { c })
}

/// The namespace of a metadata file, from its path relative to the root
/// directory: the path without its extension, with a dot for each
/// separator, and without the dots at its start.
pub open spec fn spec_namespace_key(path: Seq<char>) -> Seq<char> {
    trim_start(dotted(path_with_extension(path, Seq::empty())), '.')
}

/// The namespace of a metadata file, from its path relative to the root
/// directory.
pub fn namespace_key(path: &str) -> (key: String)
    ensures
        key@ == spec_namespace_key(path@),
{
    proof {
        reveal_strlit("");
        assert(""@ == Seq::<char>::empty());
    }
    let stem = with_extension(path, "");
    let cs = chars_of(stem.as_str());
    let mut out: Vec<char> = Vec::new();
    let mut i: usize = 0;
    while i < cs.len()
        invariant
            i <= cs.len(),
            out@ == dotted(cs@.take(i as int)),
        decreases cs.len() - i,
    {
        let c = cs[i];
        out.push(if c == '/' { '.' } else { c });
        assert(out@ == dotted(cs@.take(i + 1)));
        i = i + 1;
    }
    assert(cs@.take(cs.len() as int) == cs@);
    let at = skip_while(&out, 0, '.');
    assert(out@.skip(0) == out@);
    assert(out@.skip(at as int) == out@.subrange(at as int, out.len() as int));
    string_between(&out, at, out.len())
}

/// A metadata table with the namespace that it stands under.
pub struct Entry {
    pub key: String,
    pub table: toml::map::Map<String, toml::Value>,
}

/// What a context holds, namespace by namespace: of the entries of one
/// namespace the last.
pub open spec fn registry(entries: Seq<Entry>) -> Map<Seq<char>, Map<Seq<char>, Item>>
    decreases entries.len(),
{
    if entries.len() == 0 {
        Map::empty()
    } else {
        registry(entries.drop_last()).insert(
            entries.last().key@,
            table_items(entries.last().table),
        )
    }
}

/// The render context of one run.
pub struct RenderContext {
    /// The metadata tables with their namespaces, in the order in which
    /// they were put in.
    pub entries: Vec<Entry>,
    /// What the template engine is handed: the tables nested by the keys
    /// of their namespaces.
    pub inner: tera::Context,
}

impl View for RenderContext {
    type V = Map<Seq<char>, Map<Seq<char>, Item>>;

    /// What the context holds, namespace by namespace.
    open spec fn view(&self) -> Map<Seq<char>, Map<Seq<char>, Item>> {
        registry(self.entries@)
    }
}

impl RenderContext {
    /// Whether the engine's context is that of the tables of this context.
    pub open spec fn is_handed_over(&self) -> bool {
        reflects(self.inner, self.entries@)
    }

    /// A context that holds nothing.
    pub fn new() -> (context: RenderContext)
        ensures
            context@ == Map::<Seq<char>, Map<Seq<char>, Item>>::empty(),
            context.is_handed_over(),
            context_entries(context.inner) == Map::<Seq<char>, Seq<char>>::empty(),
    {
        RenderContext { entries: Vec::new(), inner: context_new() }
    }

    /// Puts a decoded metadata file under the namespace of its path,
    /// relative to the root directory. What that namespace held before is
    /// overwritten; every other namespace holds what it held. The engine's
    /// context is built anew.
    pub fn insert(&mut self, path: &str, meta: toml::map::Map<String, toml::Value>)
        ensures
            final(self)@ == old(self)@.insert(spec_namespace_key(path@), table_items(meta)),
            final(self).entries@.len() == old(self).entries@.len() + 1,
            final(self).entries@.drop_last() == old(self).entries@,
            final(self).entries@.last().key@ == spec_namespace_key(path@),
            final(self).entries@.last().table == meta,
            final(self).is_handed_over(),
    {
        let key = namespace_key(path);
        self.entries.push(Entry { key, table: meta });
        assert(self.entries@.drop_last() == old(self).entries@);
        self.inner = engine_context(&self.entries);
    }

    /// Decodes a metadata file and puts it under the namespace of its path,
    /// relative to `root_dir`. A document that does not decode, or one
    /// that lies outside `root_dir`, leaves the context as it was.
    pub fn insert_document(&mut self, root_dir: &str, document: &Document) -> (r: Result<
        (),
        RoxyError,
    >)
        ensures
            match spec_insert_document(old(self)@, root_dir@, *document) {
                Ok(entries) => r is Ok && final(self)@ == entries && final(self).is_handed_over(),
                Err(kind) => r matches Err(e) && e.kind == kind && final(self).entries@ == old(
                    self,
                ).entries@ && final(self).inner == old(self).inner && is_about_file(e.message@, document.path@) && (kind == ErrorKind::Decode
                    ==> is_decode_message(e.message@, document.path@)) && (kind == ErrorKind::Path
                    ==> e.message@ == file_message(document.path@, "prefix not found"@)),
            },
    {
        let table = match decode_table(document.text.as_str()) {
            Ok(table) => table,
            Err(err) => {
                let detail = err.to_string();
                let e = document_error(ErrorKind::Decode, document, detail.as_str());
                assert(to_string_from_display_ensures::<toml::de::Error>(&err, detail));
                return Err(e);
            },
        };
        match strip_prefix(document.path.as_str(), root_dir) {
            Some(rel) => {
                self.insert(rel.as_str(), table);
                Ok(())
            },
            None => Err(document_error(ErrorKind::Path, document, "prefix not found")),
        }
    }
}

/// A metadata file as it was read: the path under which it was found, and
/// its text.
#[derive(Clone, Debug, PartialEq, Eq)]
pub struct Document {
    pub path: String,
    pub text: String,
}

/// The message of an error about a file: the file's path, a colon and a
/// space, then the detail.
pub open spec fn file_message(path: Seq<char>, detail: Seq<char>) -> Seq<char> {
    path + ": "@ + detail
}

/// Whether a message is that of a decode error about the file at `path`:
/// the path, then the text of the decoder's error.
pub open spec fn is_decode_message(message: Seq<char>, path: Seq<char>) -> bool {
    exists|err: toml::de::Error, detail: String|
        #![trigger to_string_from_display_ensures::<toml::de::Error>(&err, detail)]
        to_string_from_display_ensures::<toml::de::Error>(&err, detail) && message == file_message(
            path,
            detail@,
        )
}

/// Whether a message is that of an error about the file at `path`.
pub open spec fn is_about_file(message: Seq<char>, path: Seq<char>) -> bool {
    exists|detail: Seq<char>| message == #[trigger] file_message(path, detail)
}

/// What a context holds after one more metadata file, or the kind of the
/// error that the file gives: a decode error for a malformed document, a
/// path error for one outside the root directory.
pub open spec fn spec_insert_document(
    entries: Map<Seq<char>, Map<Seq<char>, Item>>,
    root_dir: Seq<char>,
    document: Document,
) -> Result<Map<Seq<char>, Map<Seq<char>, Item>>, ErrorKind> {
    match (toml_items(document.text@), path_strip_prefix(document.path@, root_dir)) {
        (None, _) => Err(ErrorKind::Decode),
        (Some(_), None) => Err(ErrorKind::Path),
        (Some(table), Some(rel)) => Ok(entries.insert(spec_namespace_key(rel), table)),
    }
}

/// The context built from metadata files, taken in order, or the position
/// of the first file that gives an error, with the error's kind.
pub open spec fn spec_build(documents: Seq<Document>, root_dir: Seq<char>) -> Result<
    Map<Seq<char>, Map<Seq<char>, Item>>,
    (int, ErrorKind),
>
    decreases documents.len(),
{
    if documents.len() == 0 {
        Ok(Map::empty())
    } else {
        match spec_build(documents.drop_last(), root_dir) {
            Err(e) => Err(e),
            Ok(entries) => match spec_insert_document(entries, root_dir, documents.last()) {
                Ok(next) => Ok(next),
                Err(kind) => Err((documents.len() - 1, kind)),
            },
        }
    }
}

/// The last write wins, and only for its own namespace. Of two metadata
/// files with the same namespace the context holds the later one, as if the
/// earlier had not been put in; two files with different namespaces can be
/// put in either order; and a file that is put in leaves every other
/// namespace as it was.
pub proof fn lemma_namespaces_are_independent(
    held: Map<Seq<char>, Map<Seq<char>, Item>>,
    first: Seq<char>,
    earlier: Map<Seq<char>, Item>,
    second: Seq<char>,
    later: Map<Seq<char>, Item>,
)
    ensures
        first == second ==> held.insert(first, earlier).insert(second, later) == held.insert(
            second,
            later,
        ),
        first != second ==> held.insert(first, earlier).insert(second, later) == held.insert(
            second,
            later,
        ).insert(first, earlier),
        forall|other: Seq<char>|
            other != first && held.contains_key(other) ==> #[trigger] held.insert(
                first,
                earlier,
            )[other] == held[other],
{
    if first == second {
        assert(held.insert(first, earlier).insert(second, later) == held.insert(second, later));
    } else {
        assert(held.insert(first, earlier).insert(second, later) == held.insert(
            second,
            later,
        ).insert(first, earlier));
    }
}

/// An error about a metadata file.
fn document_error(kind: ErrorKind, document: &Document, detail: &str) -> (e: RoxyError)
    ensures
        e.kind == kind,
        e.message@ == file_message(document.path@, detail@),
{
    let mut message = document.path.clone();
    message.append(": ");
    message.append(detail);
    RoxyError::new(kind, message)
}

/// Builds the render context of a run from its metadata files, in the order
/// of discovery: a later file overwrites an earlier one of the same
/// namespace. The first file that fails ends the build.
pub fn build(documents: &Vec<Document>, root_dir: &str) -> (r: Result<RenderContext, RoxyError>)
    ensures
        match spec_build(documents@, root_dir@) {
            Ok(entries) => r matches Ok(context) && context@ == entries
                && context.is_handed_over(),
            Err((at, kind)) => r matches Err(e) && e.kind == kind && 0 <= at < documents.len()
                && is_about_file(e.message@, documents[at].path@),
        },
{
    let mut context = RenderContext::new();
    let mut i: usize = 0;
    assert(documents@.take(0) == Seq::<Document>::empty());
    while i < documents.len()
        invariant
            i <= documents.len(),
            context.is_handed_over(),
            spec_build(documents@.take(i as int), root_dir@) == Ok::<
                Map<Seq<char>, Map<Seq<char>, Item>>,
                (int, ErrorKind),
            >(context@),
        decreases documents.len() - i,
    {
        assert(documents@.take(i + 1).drop_last() == documents@.take(i as int));
        match context.insert_document(root_dir, &documents[i]) {
            Ok(()) => {},
            Err(e) => {
                proof {
                    lemma_build_stops(documents@, root_dir@, i + 1);
                }
                return Err(e);
            },
        }
        i = i + 1;
    }
    assert(documents@.take(documents.len() as int) == documents@);
    Ok(context)
}

/// Once a file has failed, the files after it change nothing.
pub proof fn lemma_build_stops(documents: Seq<Document>, root_dir: Seq<char>, upto: int)
    requires
        0 <= upto <= documents.len(),
        spec_build(documents.take(upto), root_dir) is Err,
    ensures
        spec_build(documents, root_dir) == spec_build(documents.take(upto), root_dir),
    decreases documents.len() - upto,
{
    if upto < documents.len() {
        assert(documents.take(upto + 1).drop_last() == documents.take(upto));
        lemma_build_stops(documents, root_dir, upto + 1);
    } else {
        assert(documents.take(upto) == documents);
    }
}

} // verus!
