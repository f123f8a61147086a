//! The trusted boundary: contracts that are stated, not proved, for the
//! functions of other crates and of the standard library that the verified
//! code calls.

use vstd::prelude::*;
use roxy_core::roxy::Parse;
use std::path::Path;
use crate::namespace::Item;
use crate::template::template_is_safe;
use crate::text::text_of;

verus! {

/// `glob::Pattern`, a compiled search pattern. Opaque.
#[verifier::external_type_specification]
#[verifier::external_body]
pub struct ExPattern(glob::Pattern);

/// `glob::PatternError`, the error of a malformed search pattern. Opaque.
#[verifier::external_type_specification]
#[verifier::external_body]
pub struct ExPatternError(glob::PatternError);

/// `toml::map::Map`, the key-ordered table that a TOML document decodes to.
/// Opaque.
#[verifier::external_type_specification]
#[verifier::external_body]
#[verifier::reject_recursive_types(K)]
#[verifier::reject_recursive_types(V)]
pub struct ExTable<K, V>(toml::map::Map<K, V>);

/// `toml::Value`, a value of a table. Opaque.
#[verifier::external_type_specification]
#[verifier::external_body]
pub struct ExTomlValue(toml::Value);

/// `toml::de::Error`, the error of a malformed TOML document. Opaque.
#[verifier::external_type_specification]
#[verifier::external_body]
pub struct ExDecodeError(toml::de::Error);

/// `tera::Context`, the values that a template is rendered with. Opaque.
#[verifier::external_type_specification]
#[verifier::external_body]
pub struct ExContext(tera::Context);

/// `tera::Error`, the error of a template that does not parse or render.
/// Opaque.
#[verifier::external_type_specification]
#[verifier::external_body]
pub struct ExRenderError(tera::Error);

/// `roxy_core::error::Error`, the error of a transformer. Opaque.
#[verifier::external_type_specification]
#[verifier::external_body]
pub struct ExStageError(roxy_core::error::Error);

/// Whether `glob::Pattern::new` accepts the pattern.
pub uninterp spec fn pattern_is_valid(pattern: Seq<char>) -> bool;

/// What `toml::from_str` decodes the document to, as what the table holds;
/// `None` where the document is malformed.
pub uninterp spec fn toml_items(text: Seq<char>) -> Option<Map<Seq<char>, Item>>;

/// What a table holds: under each key a table, with what that holds, or
/// another value, as the JSON text of its serialised value.
pub uninterp spec fn table_items(table: toml::map::Map<String, toml::Value>) -> Map<
    Seq<char>,
    Item,
>;

/// The JSON text of the value that a table is serialised to.
pub uninterp spec fn table_json(table: toml::map::Map<String, toml::Value>) -> Seq<char>;

/// What a context holds: under each key, the JSON text of its value.
pub uninterp spec fn context_entries(context: tera::Context) -> Map<Seq<char>, Seq<char>>;

/// The HTML that `roxy_markdown_parser::MarkdownParser`, with no options
/// set, renders Markdown source to; `None` where it reports an error.
pub uninterp spec fn markdown_html(source: Seq<u8>) -> Option<Seq<u8>>;

/// The text that `String::from_utf8_lossy` reads from bytes.
pub uninterp spec fn utf8_lossy(bytes: Seq<u8>) -> Seq<char>;

/// What `Path::parent` returns for the path: the path without its final
/// component, or `None` where it ends in a root or is empty.
pub uninterp spec fn path_parent(path: Seq<char>) -> Option<Seq<char>>;

/// What `Path::join` returns: the second path adjoined to the first.
pub uninterp spec fn path_join(base: Seq<char>, rel: Seq<char>) -> Seq<char>;

/// What `Path::strip_prefix` returns: the path without the components of
/// `base` at its start, or `None` where `base` is not a prefix of it,
/// component by component.
pub uninterp spec fn path_strip_prefix(path: Seq<char>, base: Seq<char>) -> Option<Seq<char>>;

/// What `Path::extension` returns: the extension of the file name, without
/// its dot.
pub uninterp spec fn path_extension(path: Seq<char>) -> Option<Seq<char>>;

/// What `Path::with_extension` returns: the path with the extension of its
/// file name replaced.
pub uninterp spec fn path_with_extension(path: Seq<char>, ext: Seq<char>) -> Seq<char>;

/// `Path::parent`: the path without its final component, which is a
/// shorter path. The result is a function of the path alone.
#[verifier::external_body]
pub(crate) fn parent_of(path: &str) -> (r: Option<String>)
    ensures
        text_of(r) == path_parent(path@),
        r matches Some(p) ==> p@.len() < path@.len(),
{
    match Path::new(path).parent() {
        Some(p) => Some(p.to_string_lossy().into_owned()),
        None => None,
    }
}

/// `Path::join`. The result is a function of the two paths alone.
#[verifier::external_body]
pub(crate) fn join_paths(base: &str, rel: &str) -> (r: String)
    ensures
        r@ == path_join(base@, rel@),
{
    Path::new(base).join(rel).to_string_lossy().into_owned()
}

/// `Path::strip_prefix`. The result is a function of the two paths alone.
#[verifier::external_body]
pub(crate) fn strip_prefix(path: &str, base: &str) -> (r: Option<String>)
    ensures
        text_of(r) == path_strip_prefix(path@, base@),
{
    match Path::new(path).strip_prefix(base) {
        Ok(rest) => Some(rest.to_string_lossy().into_owned()),
        Err(_) => None,
    }
}

/// `Path::extension`. The result is a function of the path alone.
#[verifier::external_body]
pub(crate) fn extension_of(path: &str) -> (r: Option<String>)
    ensures
        text_of(r) == path_extension(path@),
{
    match Path::new(path).extension() {
        Some(ext) => Some(ext.to_string_lossy().into_owned()),
        None => None,
    }
}

/// `Path::with_extension`, which panics on an extension that holds a path
/// separator. The result is a function of the path and the extension alone.
#[verifier::external_body]
pub(crate) fn with_extension(path: &str, ext: &str) -> (r: String)
    requires
        !ext@.contains('/'),
        !ext@.contains('\\'),
    ensures
        r@ == path_with_extension(path@, ext@),
{
    Path::new(path).with_extension(ext).to_string_lossy().into_owned()
}

/// `String::push`: appends one character to the end of the string.
#[verifier::external_body]
pub(crate) fn push_char(s: &mut String, c: char)
    ensures
        final(s)@ == old(s)@.push(c),
{
    s.push(c)
}

/// `String::from_utf8_lossy`: the text of the bytes, each invalid sequence
/// replaced by U+FFFD. The result is a function of the bytes alone.
#[verifier::external_body]
pub(crate) fn lossy_text(bytes: &[u8]) -> (s: String)
    ensures
        s@ == utf8_lossy(bytes@),
{
    String::from_utf8_lossy(bytes).into_owned()
}

/// `glob::Pattern::new`: compiles the pattern, or reports where its syntax
/// is wrong. Whether it succeeds is a function of the pattern alone.
#[verifier::external_body]
pub(crate) fn compile_pattern(pattern: &str) -> (r: Result<glob::Pattern, glob::PatternError>)
    ensures
        r is Ok <==> pattern_is_valid(pattern@),
{
    glob::Pattern::new(pattern)
}

/// `toml::from_str` at the type `toml::Table`: decodes a document. The
/// outcome is a function of the text alone.
#[verifier::external_body]
pub(crate) fn decode_table(text: &str) -> (r: Result<
    toml::map::Map<String, toml::Value>,
    toml::de::Error,
>)
    ensures
        match r {
            Ok(table) => toml_items(text@) == Some(table_items(table)),
            Err(_) => toml_items(text@) is None,
        },
{
    toml::from_str::<toml::Table>(text)
}

/// `toml::Table::new`: a table that holds nothing.
#[verifier::external_body]
pub(crate) fn table_new() -> (r: toml::map::Map<String, toml::Value>)
    ensures
        table_items(r) == (Map::<Seq<char>, Item>::empty()),
{
    toml::Table::new()
}

/// `Clone::clone` of a table: a table that holds the same and is
/// serialised to the same.
#[verifier::external_body]
pub(crate) fn table_copy(table: &toml::map::Map<String, toml::Value>) -> (r: toml::map::Map<
    String,
    toml::Value,
>)
    ensures
        table_items(r) == table_items(*table),
        table_json(r) == table_json(*table),
{
    table.clone()
}

/// `toml::map::Map::get`, for a key that holds a table: a copy of that
/// table; `None` where the key is absent or holds another value.
#[verifier::external_body]
pub(crate) fn table_child(table: &toml::map::Map<String, toml::Value>, key: &str) -> (r: Option<
    toml::map::Map<String, toml::Value>,
>)
    ensures
        match r {
            Some(child) => table_items(*table).contains_key(key@) && table_items(*table)[key@]
                == Item::Table(table_items(child)),
            None => !table_items(*table).contains_key(key@) || !(table_items(
                *table,
            )[key@] is Table),
        },
{
    match table.get(key) {
        Some(toml::Value::Table(child)) => Some(child.clone()),
        _ => None,
    }
}

/// `toml::map::Map::insert` with a table as the value: the table then
/// holds the child under the key, in place of what it held there before,
/// and everything else as before.
#[verifier::external_body]
pub(crate) fn table_put(
    table: &mut toml::map::Map<String, toml::Value>,
    key: &str,
    child: toml::map::Map<String, toml::Value>,
)
    ensures
        table_items(*final(table)) == table_items(*old(table)).insert(
            key@,
            Item::Table(table_items(child)),
        ),
{
    table.insert(key.to_string(), toml::Value::Table(child));
}

/// `tera::Context::new`: a context that holds nothing.
#[verifier::external_body]
pub(crate) fn context_new() -> (r: tera::Context)
    ensures
        context_entries(r) == (Map::<Seq<char>, Seq<char>>::empty()),
{
    tera::Context::new()
}

/// `tera::Context::insert` with a table as the value: the context then
/// holds the table's serialised value under the key, in place of what it
/// held there before, and everything else as before. Serialising a table
/// does not fail: its keys are strings, and each of its values has a JSON
/// form.
#[verifier::external_body]
pub(crate) fn context_insert(
    context: &mut tera::Context,
    key: &str,
    table: &toml::map::Map<String, toml::Value>,
)
    ensures
        context_entries(*final(context)) == context_entries(*old(context)).insert(
            key@,
            table_json(*table),
        ),
{
    context.insert(key, table)
}

/// `tera::Tera::one_off`: parses the template and renders it with the
/// context. The engine panics or does not return on what the safe bodies
/// leave out, each with its place in the engine's source: a float literal
/// too large to read (`renderer/processor.rs:385`, `:717`); a sum or
/// difference of floats that runs over (`:802`, `:835`); the remainder of
/// the smallest integer (`:839-848`); `super()` outside a block (`:907`);
/// the filters `date` (`builtins/filters/common.rs:109`, `:175`), `int`
/// (`builtins/filters/string.rs:392`) and `abs`
/// (`builtins/filters/number.rs:15`); the functions `get_random`
/// (`builtins/functions.rs:169`) and `range` (`:79-82`); a body that
/// includes itself or a macro that calls itself (`tera.rs:444`,
/// `renderer/processor.rs:988-998`); a block inside a block of its name
/// (`template.rs:53-69`, `renderer/processor.rs:281-285`); and recursion
/// without a limit over nested tags (`parser/mod.rs:1047`,
/// `renderer/processor.rs:150`, `:232`, `:251`) and over nested brackets
/// and long expressions (`parser/mod.rs:440`, `renderer/processor.rs:339`,
/// `:699`). A template may read
/// the clock and the environment, so nothing is stated of the outcome.
#[verifier::external_body]
pub(crate) fn render_one_off(template: &str, context: &tera::Context, autoescape: bool) -> (r:
    Result<String, tera::Error>)
    requires
        template_is_safe(template@),
{
    tera::Tera::one_off(template, context, autoescape)
}

/// `Parse::parse` of a `roxy_markdown_parser::MarkdownParser` made by
/// `MarkdownParser::new`: renders Markdown source to HTML. The parser does
/// not read the path, and the outcome is a function of the source alone.
#[verifier::external_body]
pub(crate) fn render_markdown(path: &str, source: &[u8]) -> (r: Result<
    Vec<u8>,
    roxy_core::error::Error,
>)
    ensures
        match r {
            Ok(html) => markdown_html(source@) == Some(html@),
            Err(_) => markdown_html(source@) is None,
        },
{
    let mut html = Vec::new();
    roxy_markdown_parser::MarkdownParser::new().parse(path, source, &mut html).map(|_| html)
}

} // verus!
