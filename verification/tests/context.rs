use roxy_cli::context::{build, namespace_key, Document, RenderContext};
use roxy_cli::namespace::split_key;
use roxy_cli::error::ErrorKind;

fn table(text: &str) -> toml::Table {
    toml::from_str::<toml::Table>(text).unwrap()
}

fn document(path: &str, text: &str) -> Document {
    Document { path: path.to_string(), text: text.to_string() }
}

fn text_at(context: &RenderContext, key: &str, field: &str) -> Option<String> {
    let mut keys = key.split('.');
    let mut value = context.inner.get(keys.next()?)?;
    for k in keys {
        value = value.get(k)?;
    }
    value.get(field)?.as_str().map(|s| s.to_string())
}

#[test]
fn namespace_of_nested_file_is_dotted() {
    assert_eq!(namespace_key("blog/post1.toml"), "blog.post1");
    assert_eq!(namespace_key("a/b.toml"), "a.b");
    assert_eq!(namespace_key("a/b/c/d.toml"), "a.b.c.d");
}

#[test]
fn namespace_of_file_at_the_root_is_its_bare_name() {
    assert_eq!(namespace_key("meta.toml"), "meta");
    assert_eq!(namespace_key("meta"), "meta");
}

#[test]
fn namespace_strips_only_the_last_extension() {
    assert_eq!(namespace_key("blog/post.tar.toml"), "blog.post.tar");
    assert_eq!(namespace_key("a.b.toml"), "a.b");
}

#[test]
fn namespace_has_no_dots_at_its_start() {
    assert_eq!(namespace_key("/abs/meta.toml"), "abs.meta");
    assert_eq!(namespace_key(".hidden/x.toml"), "hidden.x");
    assert_eq!(namespace_key("//x.toml"), "x");
    assert_eq!(namespace_key(""), "");
}

#[test]
fn namespace_keeps_dots_inside() {
    assert_eq!(namespace_key("a//b.toml"), "a..b");
    assert_eq!(namespace_key("blog/.toml"), "blog..toml");
    assert_eq!(namespace_key("a/b.toml/"), "a.b");
}

#[test]
fn namespace_agrees_with_split_and_fold() {
    for p in ["blog/post1.toml", "meta.toml", "a/b/c.toml", "x.y/z.toml", ".h/x.toml", "a//b.toml", "plain"] {
        let folded = std::path::Path::new(p)
            .with_extension("")
            .to_string_lossy()
            .split('/')
            .fold(String::new(), |a, b| format!("{a}.{b}"));
        assert_eq!(namespace_key(p), folded.trim_start_matches('.'), "namespace of {p}");
    }
}

#[test]
fn files_in_different_places_can_share_a_namespace() {
    assert_eq!(namespace_key("a/b.toml"), namespace_key("a.b.toml"));
    assert_ne!(namespace_key("x.toml"), namespace_key("x/y.toml"));
}

#[test]
fn new_context_holds_nothing() {
    let context = RenderContext::new();
    assert_eq!(context.inner, tera::Context::new());
    assert!(!context.inner.contains_key("meta"));
}

#[test]
fn split_key_parts_at_the_dots() {
    assert_eq!(split_key("a.b"), vec!["a", "b"]);
    assert_eq!(split_key("meta"), vec!["meta"]);
    assert_eq!(split_key("blog.post.tar"), vec!["blog", "post", "tar"]);
    assert_eq!(split_key(""), vec![""]);
    assert_eq!(split_key("a..b."), vec!["a", "", "b", ""]);
}

#[test]
fn insert_exposes_table_under_namespace() {
    let mut context = RenderContext::new();
    context.insert("a/b.toml", table("title = \"X\""));
    assert!(context.inner.contains_key("a"));
    assert!(!context.inner.contains_key("a.b"));
    assert!(!context.inner.contains_key("a/b.toml"));
    assert_eq!(text_at(&context, "a.b", "title"), Some("X".to_string()));
}

#[test]
fn template_reaches_nested_namespace() {
    let mut context = RenderContext::new();
    context.insert("a/b.toml", table("title = \"X\""));
    assert_eq!(tera::Tera::one_off("{{ a.b.title }}", &context.inner, false).unwrap(), "X");
}

#[test]
fn insert_keeps_siblings_under_the_same_first_key() {
    let mut context = RenderContext::new();
    context.insert("blog/one.toml", table("title = \"1\""));
    context.insert("blog/two.toml", table("title = \"2\""));
    context.insert("blog/deep/three.toml", table("title = \"3\""));
    assert_eq!(text_at(&context, "blog.one", "title"), Some("1".to_string()));
    assert_eq!(text_at(&context, "blog.two", "title"), Some("2".to_string()));
    assert_eq!(text_at(&context, "blog.deep.three", "title"), Some("3".to_string()));
}

#[test]
fn shorter_and_longer_namespace_keep_each_other() {
    let mut context = RenderContext::new();
    context.insert("x.toml", table("own = \"yes\"\ny = \"scalar\""));
    context.insert("x/y.toml", table("title = \"Y\""));
    assert_eq!(text_at(&context, "x", "own"), Some("yes".to_string()));
    assert_eq!(text_at(&context, "x.y", "title"), Some("Y".to_string()));
    context.insert("x.toml", table("own = \"again\""));
    assert_eq!(text_at(&context, "x", "own"), Some("again".to_string()));
    assert_eq!(text_at(&context, "x.y", "title"), Some("Y".to_string()));
}

#[test]
fn order_of_different_namespaces_does_not_matter() {
    let mut one = RenderContext::new();
    one.insert("x/y.toml", table("title = \"Y\""));
    one.insert("x.toml", table("own = \"yes\""));
    one.insert("z/deep/er.toml", table("v = 1"));
    let mut other = RenderContext::new();
    other.insert("z/deep/er.toml", table("v = 1"));
    other.insert("x.toml", table("own = \"yes\""));
    other.insert("x/y.toml", table("title = \"Y\""));
    assert_eq!(one.inner, other.inner);
    assert_eq!(text_at(&one, "x.y", "title"), Some("Y".to_string()));
    assert_eq!(text_at(&one, "x", "own"), Some("yes".to_string()));
    assert_eq!(tera::Tera::one_off("{{ x.y.title }}{{ x.own }}", &one.inner, false).unwrap(), "Yyes");
}

#[test]
fn insert_leaves_other_namespaces_as_they_were() {
    let mut context = RenderContext::new();
    context.insert("a/b.toml", table("title = \"B\""));
    context.insert("c.toml", table("title = \"C\""));
    let before = context.inner.clone();
    context.insert("a/d.toml", table("title = \"D\""));
    assert_eq!(context.inner.get("c"), before.get("c"));
    assert_eq!(text_at(&context, "a.b", "title"), Some("B".to_string()));
    assert_eq!(text_at(&context, "a.d", "title"), Some("D".to_string()));
    assert!(!context.inner.contains_key("d"));
    assert_eq!(context.entries.len(), 3);
}

#[test]
fn insert_keeps_other_namespaces() {
    let mut context = RenderContext::new();
    context.insert("one.toml", table("v = \"1\""));
    context.insert("two.toml", table("v = \"2\""));
    assert_eq!(text_at(&context, "one", "v"), Some("1".to_string()));
    assert_eq!(text_at(&context, "two", "v"), Some("2".to_string()));
}

#[test]
fn insert_stores_the_whole_table() {
    let mut context = RenderContext::new();
    context.insert("site.toml", table("n = 3\nok = true\nf = 1.5\n[owner]\nname = \"Lisa\"\ntags = [\"a\", \"b\"]"));
    let site = context.inner.get("site").unwrap();
    assert_eq!(site.get("n").and_then(|v| v.as_i64()), Some(3));
    assert_eq!(site.get("ok").and_then(|v| v.as_bool()), Some(true));
    assert_eq!(site.get("f").and_then(|v| v.as_f64()), Some(1.5));
    let owner = site.get("owner").unwrap();
    assert_eq!(owner.get("name").and_then(|v| v.as_str()), Some("Lisa"));
    assert_eq!(owner.get("tags").and_then(|v| v.as_array()).map(|a| a.len()), Some(2));
}

#[test]
fn later_insert_with_same_namespace_wins() {
    let mut context = RenderContext::new();
    context.insert("a/b.toml", table("title = \"first\"\nonly_first = \"yes\""));
    context.insert("a.b.toml", table("title = \"second\""));
    assert_eq!(text_at(&context, "a.b", "title"), Some("second".to_string()));
    assert_eq!(text_at(&context, "a.b", "only_first"), None);

    let mut alone = RenderContext::new();
    alone.insert("a.b.toml", table("title = \"second\""));
    assert_eq!(context.inner, alone.inner);
}

#[test]
fn insert_document_decodes_and_inserts() {
    let mut context = RenderContext::new();
    let r = context.insert_document("site", &document("site/blog/post1.toml", "title = \"Hello\""));
    assert_eq!(r, Ok(()));
    assert_eq!(text_at(&context, "blog.post1", "title"), Some("Hello".to_string()));
}

#[test]
fn insert_document_with_malformed_text_is_a_decode_error() {
    let mut context = RenderContext::new();
    context.insert("keep.toml", table("v = \"1\""));
    let before = context.inner.clone();
    let e = context.insert_document("site", &document("site/bad.toml", "title = ")).unwrap_err();
    assert_eq!(e.kind, ErrorKind::Decode);
    assert!(e.message.starts_with("site/bad.toml: "));
    assert!(e.message.len() > "site/bad.toml: ".len());
    assert_eq!(context.inner, before);
}

#[test]
fn insert_document_outside_the_root_is_a_path_error() {
    let mut context = RenderContext::new();
    let e = context.insert_document("site", &document("other/meta.toml", "a = 1")).unwrap_err();
    assert_eq!(e.kind, ErrorKind::Path);
    assert_eq!(e.message, "other/meta.toml: prefix not found");
    assert_eq!(context.inner, tera::Context::new());
}

#[test]
fn malformed_document_outside_the_root_is_a_decode_error() {
    let mut context = RenderContext::new();
    let e = context.insert_document("site", &document("other/meta.toml", "= 1")).unwrap_err();
    assert_eq!(e.kind, ErrorKind::Decode);
}

#[test]
fn build_inserts_every_document() {
    let documents = vec![
        document("site/meta.toml", "name = \"Roxy\""),
        document("site/blog/post1.toml", "title = \"One\""),
    ];
    let context = build(&documents, "site").unwrap();
    assert_eq!(text_at(&context, "meta", "name"), Some("Roxy".to_string()));
    assert_eq!(text_at(&context, "blog.post1", "title"), Some("One".to_string()));
}

#[test]
fn build_of_nothing_is_the_empty_context() {
    let context = build(&Vec::new(), "site").unwrap();
    assert_eq!(context.inner, tera::Context::new());
}

#[test]
fn build_lets_the_later_document_win() {
    let first = document("site/a/b.toml", "title = \"first\"");
    let second = document("site/a.b.toml", "title = \"second\"");
    let context = build(&vec![first.clone(), second.clone()], "site").unwrap();
    assert_eq!(text_at(&context, "a.b", "title"), Some("second".to_string()));
    let context = build(&vec![second, first], "site").unwrap();
    assert_eq!(text_at(&context, "a.b", "title"), Some("first".to_string()));
}

#[test]
fn build_stops_at_the_first_failure() {
    let documents = vec![
        document("site/ok.toml", "a = 1"),
        document("site/bad.toml", "a = = 1"),
        document("elsewhere/x.toml", "a = 1"),
    ];
    let e = build(&documents, "site").err().unwrap();
    assert_eq!(e.kind, ErrorKind::Decode);
    assert!(e.message.starts_with("site/bad.toml: "));
}

#[test]
fn build_reports_a_document_outside_the_root() {
    let documents = vec![document("elsewhere/x.toml", "a = 1"), document("site/bad.toml", "=")];
    let e = build(&documents, "site").err().unwrap();
    assert_eq!(e.kind, ErrorKind::Path);
    assert_eq!(e.message, "elsewhere/x.toml: prefix not found");
}

#[test]
fn build_with_empty_root_uses_paths_as_they_are() {
    let context = build(&vec![document("site/meta.toml", "name = \"Roxy\"")], "").unwrap();
    assert_eq!(text_at(&context, "site.meta", "name"), Some("Roxy".to_string()));
}
