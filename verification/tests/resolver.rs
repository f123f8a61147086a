use roxy_cli::error::ErrorKind;
use roxy_cli::file_path::FilePath;
use std::path::{Path, PathBuf};

fn std_root(input: &str) -> String {
    Path::new(input)
        .ancestors()
        .filter_map(Path::to_str)
        .find(|p| !p.contains(['*', '?', '[']))
        .map_or_else(PathBuf::new, PathBuf::from)
        .to_str()
        .unwrap()
        .to_string()
}

#[test]
fn root_of_wildcard_input_is_nearest_concrete_ancestor() {
    let fp = FilePath::new("site/posts/*/index.md", "out");
    assert_eq!(fp.root_dir, "site/posts");
}

#[test]
fn root_of_plain_input_is_the_input() {
    let fp = FilePath::new("site", "out");
    assert_eq!(fp.root_dir, "site");
    assert_eq!(fp.input, "site/**/*");
    assert_eq!(fp.output, "out");
}

#[test]
fn new_keeps_the_output_root_as_given() {
    let fp = FilePath::new("site", "/var/www/");
    assert_eq!(fp.output, "/var/www/");
}

#[test]
fn make_recursive_appends_the_recursive_suffix() {
    assert_eq!(FilePath::make_recursive("site"), "site/**/*");
    assert_eq!(FilePath::make_recursive("site/"), "site/**/*");
    assert_eq!(FilePath::make_recursive(""), "**/*");
    assert_eq!(FilePath::make_recursive("/"), "/**/*");
    assert_eq!(FilePath::make_recursive("site/posts/*"), "site/posts/*/**/*");
}

#[test]
fn has_no_wildcard_looks_for_the_star() {
    assert!(FilePath::has_no_wildcard("site/posts"));
    assert!(FilePath::has_no_wildcard(""));
    assert!(!FilePath::has_no_wildcard("site/post?"));
    assert!(!FilePath::has_no_wildcard("site/[a-z]/x"));
    assert!(FilePath::has_no_wildcard("site/]{}!/x"));
    assert!(!FilePath::has_no_wildcard("site/*"));
    assert!(!FilePath::has_no_wildcard("*"));
    assert!(!FilePath::has_no_wildcard("site/a*b/c"));
}

#[test]
fn strip_wildcards_walks_up_to_a_concrete_directory() {
    assert_eq!(FilePath::strip_wildcards("site/posts/*/index.md"), "site/posts");
    assert_eq!(FilePath::strip_wildcards("site/**/*"), "site");
    assert_eq!(FilePath::strip_wildcards("site/a*b/c/d"), "site");
    assert_eq!(FilePath::strip_wildcards("site/posts"), "site/posts");
}

#[test]
fn strip_wildcards_of_leading_wildcard_is_empty() {
    assert_eq!(FilePath::strip_wildcards("*"), "");
    assert_eq!(FilePath::strip_wildcards("*/posts"), "");
    assert_eq!(FilePath::strip_wildcards("*.md"), "");
}

#[test]
fn strip_wildcards_of_wildcard_under_the_root_is_the_root() {
    assert_eq!(FilePath::strip_wildcards("/*"), "/");
    assert_eq!(FilePath::strip_wildcards("/*/a"), "/");
}

#[test]
fn strip_wildcards_keeps_input_without_wildcard_as_written() {
    assert_eq!(FilePath::strip_wildcards("site/"), "site/");
    assert_eq!(FilePath::strip_wildcards(""), "");
    assert_eq!(FilePath::strip_wildcards("./site"), "./site");
}

#[test]
fn strip_wildcards_stops_at_any_wildcard_character() {
    assert_eq!(FilePath::strip_wildcards("site/post?/x"), "site");
    assert_eq!(FilePath::strip_wildcards("site/posts/[ab]/x"), "site/posts");
    assert_eq!(FilePath::strip_wildcards("site/a?b"), "site");
}

#[test]
fn strip_wildcards_leaves_repeated_separators_and_dots_out() {
    assert_eq!(FilePath::strip_wildcards("site//*"), "site");
    assert_eq!(FilePath::strip_wildcards("site/./*"), "site");
}

#[test]
fn strip_wildcards_agrees_with_std_ancestors() {
    for input in [
        "site/posts/*/index.md", "site", "site/posts", "*", "*/posts", "/*", "/a/*", "/a/b/*/c",
        "site/**/*", "./site/*.md", "", "/", "a*", "a/b*c/d/e", "é/*/ü", "site//*", "site/./*",
        "site/x/", "a/b?/c", "a/[x]/c", "?", "a//b/*/", "./*",
    ] {
        assert_eq!(FilePath::strip_wildcards(input), std_root(input), "root of {input}");
    }
}

#[test]
fn strip_wildcards_result_has_no_wildcard_and_starts_the_input() {
    for input in ["a/*/b/*/c", "*", "x/y/z*", "/q/*", "plain/dir", "a//b//*"] {
        let root = FilePath::strip_wildcards(input);
        assert!(FilePath::has_no_wildcard(&root));
        assert!(input.starts_with(&root));
    }
}

#[test]
fn to_output_mirrors_the_relative_path() {
    let fp = FilePath::new("site", "out");
    assert_eq!(fp.to_output("site/a.html"), Ok("out/a.html".to_string()));
    assert_eq!(fp.to_output("site/blog/post.html"), Ok("out/blog/post.html".to_string()));
}

#[test]
fn to_output_with_wildcard_input_is_relative_to_the_concrete_root() {
    let fp = FilePath::new("site/posts/*/index.md", "out");
    assert_eq!(fp.to_output("site/posts/one/index.html"), Ok("out/one/index.html".to_string()));
}

#[test]
fn to_output_with_empty_root_uses_the_path_as_it_is() {
    let fp = FilePath::new("*", "out");
    assert_eq!(fp.root_dir, "");
    assert_eq!(fp.to_output("site/a.html"), Ok("out/site/a.html".to_string()));
}

#[test]
fn to_output_outside_the_root_is_a_path_error() {
    let fp = FilePath::new("site", "out");
    let e = fp.to_output("elsewhere/a.html").unwrap_err();
    assert_eq!(e.kind, ErrorKind::Path);
    assert_eq!(e.message, "prefix not found");
    let e = fp.to_output("sitemap.html").unwrap_err();
    assert_eq!(e.kind, ErrorKind::Path);
}

#[test]
fn to_output_agrees_with_std_strip_prefix_and_join() {
    let fp = FilePath::new("site/", "out/");
    for f in ["site/a.html", "site/x/y.html", "site", "other/z", "sitex/a"] {
        let expected = Path::new(f)
            .strip_prefix("site/")
            .map(|p| Path::new("out/").join(p).to_str().unwrap().to_string())
            .ok();
        assert_eq!(fp.to_output(f).ok(), expected, "output of {f}");
    }
}

#[test]
fn to_output_compares_the_root_by_components() {
    let fp = FilePath::new("site/.", "out");
    assert_eq!(fp.root_dir, "site/.");
    assert_eq!(fp.to_output("site/x"), Ok("out/x".to_string()));
    assert_eq!(fp.to_output("site/y"), Ok("out/y".to_string()));
    let fp = FilePath::new("a/b", "out");
    assert_eq!(fp.to_output("a//b/c"), Ok("out/c".to_string()));
    assert_eq!(fp.to_output("a/bc"), Err(fp.to_output("zzz").unwrap_err()));
}

#[test]
fn to_output_agrees_with_std_on_many_roots_and_files() {
    let roots = ["", "site", "site/", "site/.", "./site", "/", "/var/site", "a/b", "a//b", "*"];
    let files = [
        "site/a.html", "site/x/y.html", "site", "sitex/a", "site//a", "site/./a", "./site/a",
        "/var/site/x", "/a/b", "a/b/c", "a//b/c", "a/bc", "", "other", "site/a/", "/x",
    ];
    for r in roots {
        let fp = FilePath { input: String::new(), root_dir: r.to_string(), output: "out".to_string() };
        for f in files {
            let expected = Path::new(f)
                .strip_prefix(r)
                .map(|p| Path::new("out").join(p).to_str().unwrap().to_string())
                .ok();
            assert_eq!(fp.to_output(f).ok(), expected, "output of {f} under {r}");
        }
    }
}
