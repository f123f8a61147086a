use roxy_cli::chain::{ContentType, ProcessorChain};
use roxy_cli::context::{build, Document, RenderContext};
use roxy_cli::discovery::partition;
use roxy_cli::error::{ErrorKind, RoxyError};
use roxy_cli::file_path::FilePath;
use roxy_cli::pipeline::{output_path, plan, render, render_all, resolve, Failure, Options, Report};

fn options(input: &str, output: &str) -> Options {
    Options { input: input.to_string(), output: output.to_string() }
}

fn strings(items: &[&str]) -> Vec<String> {
    items.iter().map(|s| s.to_string()).collect()
}

#[test]
fn resolve_gives_the_paths_of_the_run() {
    let fp = resolve(&options("site", "out")).unwrap();
    assert_eq!(fp, FilePath::new("site", "out"));
    assert_eq!(fp.input, "site/**/*");
    assert_eq!(fp.root_dir, "site");
}

#[test]
fn resolve_accepts_wildcard_input() {
    let fp = resolve(&options("site/posts/*/index.md", "out")).unwrap();
    assert_eq!(fp.root_dir, "site/posts");
    assert_eq!(fp.input, "site/posts/*/index.md/**/*");
}

#[test]
fn resolve_refuses_a_malformed_pattern() {
    let e = resolve(&options("site/***", "out")).unwrap_err();
    assert_eq!(e.kind, ErrorKind::Pattern);
    let e = resolve(&options("site/[", "out")).unwrap_err();
    assert_eq!(e.kind, ErrorKind::Pattern);
}

#[test]
fn output_path_replaces_extension_and_mirrors() {
    let fp = FilePath::new("site", "out");
    assert_eq!(output_path(&fp, "site/a.md"), Ok("out/a.html".to_string()));
    assert_eq!(output_path(&fp, "site/blog/post.md"), Ok("out/blog/post.html".to_string()));
    assert_eq!(output_path(&fp, "site/page.html"), Ok("out/page.html".to_string()));
}

#[test]
fn output_path_of_file_without_extension_gets_one() {
    let fp = FilePath::new("site", "out");
    assert_eq!(output_path(&fp, "site/LICENSE"), Ok("out/LICENSE.html".to_string()));
}

#[test]
fn output_path_outside_the_root_is_a_path_error() {
    let fp = FilePath::new("site", "out");
    let e = output_path(&fp, "drafts/a.md").unwrap_err();
    assert_eq!(e.kind, ErrorKind::Path);
}

#[test]
fn every_content_file_has_one_job_at_the_mirrored_path() {
    let fp = FilePath::new("site", "out");
    let content = strings(&["site/a.md", "site/blog/b.md", "site/blog/deep/c.txt"]);
    let jobs = plan(&fp, &content);
    assert_eq!(jobs.len(), content.len());
    let expected = ["out/a.html", "out/blog/b.html", "out/blog/deep/c.html"];
    for i in 0..jobs.len() {
        assert_eq!(jobs[i].source, content[i]);
        assert_eq!(jobs[i].target, Ok(expected[i].to_string()));
    }
}

#[test]
fn plan_keeps_a_file_outside_the_root_as_a_failed_job() {
    let fp = FilePath::new("site", "out");
    let jobs = plan(&fp, &strings(&["site/a.md", "other/b.md", "site/c.md"]));
    assert_eq!(jobs.len(), 3);
    assert_eq!(jobs[0].target, Ok("out/a.html".to_string()));
    assert_eq!(jobs[1].source, "other/b.md");
    assert_eq!(jobs[1].target.as_ref().unwrap_err().kind, ErrorKind::Path);
    assert_eq!(jobs[2].target, Ok("out/c.html".to_string()));
}

#[test]
fn metadata_files_get_no_job() {
    let fp = FilePath::new("site", "out");
    let found = partition(&strings(&["site/a.md", "site/meta.toml", "site/blog/post.toml", "site/blog/b.md"]));
    let jobs = plan(&fp, &found.content);
    let sources: Vec<&str> = jobs.iter().map(|j| j.source.as_str()).collect();
    assert_eq!(sources, vec!["site/a.md", "site/blog/b.md"]);
    for job in &jobs {
        assert!(job.target.as_ref().unwrap().ends_with(".html"));
    }
}

#[test]
fn render_runs_the_source_as_markdown() {
    let out = render(&ProcessorChain::standard(), &RenderContext::new(), b"# Title").unwrap();
    assert_eq!(out.bytes, b"<h1>Title</h1>\n".to_vec());
    assert_eq!(out.kind, ContentType::RenderedHtml);
}

#[test]
fn render_without_metadata_succeeds_where_no_key_is_used() {
    let out = render(&ProcessorChain::standard(), &RenderContext::new(), b"plain *text*").unwrap();
    assert_eq!(out.bytes, b"<p>plain <em>text</em></p>\n".to_vec());
}

#[test]
fn render_with_undefined_key_is_a_render_error() {
    let e = render(&ProcessorChain::standard(), &RenderContext::new(), b"{{ site.title }}").unwrap_err();
    assert_eq!(e.kind, ErrorKind::Render);
}

#[test]
fn render_all_gives_every_file_its_own_outcome() {
    let sources = vec![b"one".to_vec(), b"{{ nothing.defined }}".to_vec(), b"three".to_vec()];
    let all = render_all(&ProcessorChain::standard(), &RenderContext::new(), &sources);
    assert_eq!(all.len(), 3);
    assert_eq!(all[0].as_ref().unwrap().bytes, b"<p>one</p>\n".to_vec());
    assert_eq!(all[1].as_ref().unwrap_err().kind, ErrorKind::Render);
    assert_eq!(all[2].as_ref().unwrap().bytes, b"<p>three</p>\n".to_vec());
}

#[test]
fn render_all_of_nothing_is_nothing() {
    let all = render_all(&ProcessorChain::standard(), &RenderContext::new(), &Vec::new());
    assert!(all.is_empty());
}

#[test]
fn rendering_twice_gives_the_same_bytes() {
    let documents = vec![Document { path: "site/meta.toml".to_string(), text: "name = \"Roxy\"".to_string() }];
    let sources = vec![b"Hello {{ meta.name }}".to_vec(), b"# *x*\n\n- a\n- b".to_vec()];
    let first = render_all(&ProcessorChain::standard(), &build(&documents, "site").unwrap(), &sources);
    let second = render_all(&ProcessorChain::standard(), &build(&documents, "site").unwrap(), &sources);
    assert_eq!(first, second);
    let fp = FilePath::new("site", "out");
    let files = strings(&["site/a.md", "site/b.md"]);
    assert_eq!(plan(&fp, &files), plan(&fp, &files));
}

#[test]
fn site_with_one_page_and_one_metadata_file() {
    let fp = resolve(&options("site", "out")).unwrap();
    let found = partition(&strings(&["site/a.md", "site/meta.toml"]));
    assert_eq!(found.metadata, strings(&["site/meta.toml"]));
    let documents = vec![Document { path: "site/meta.toml".to_string(), text: "name=\"Roxy\"".to_string() }];
    let context = build(&documents, &fp.root_dir).unwrap();
    let jobs = plan(&fp, &found.content);
    assert_eq!(jobs.len(), 1);
    assert_eq!(jobs[0].target, Ok("out/a.html".to_string()));
    let out = render(&ProcessorChain::standard(), &context, b"Hello {{ meta.name }}").unwrap();
    assert!(String::from_utf8(out.bytes).unwrap().contains("Hello Roxy"));
}

#[test]
fn metadata_in_a_directory_is_rendered_by_its_dotted_name() {
    let documents = vec![Document { path: "site/a/b.toml".to_string(), text: "title = \"X\"".to_string() }];
    let context = build(&documents, "site").unwrap();
    let out = render(&ProcessorChain::standard(), &context, b"{{ a.b.title }}").unwrap();
    assert_eq!(out.bytes, b"<p>X</p>\n".to_vec());
}

#[test]
fn metadata_beside_a_page_is_rendered_into_it() {
    let documents = vec![Document { path: "site/b.toml".to_string(), text: "title = \"X\"".to_string() }];
    let context = build(&documents, "site").unwrap();
    let out = render(&ProcessorChain::standard(), &context, b"{{ b.title }}").unwrap();
    assert_eq!(out.bytes, b"<p>X</p>\n".to_vec());
}

#[test]
fn new_report_is_clean() {
    let report = Report::new();
    assert!(report.written.is_empty());
    assert!(report.failures.is_empty());
    assert!(!report.has_failures());
    assert_eq!(report.exit_code(), 0);
    assert!(report.failure_lines().is_empty());
}

#[test]
fn report_keeps_written_paths_in_order() {
    let mut report = Report::new();
    report.record("site/a.md", Ok("out/a.html".to_string()));
    report.record("site/b.md", Ok("out/b.html".to_string()));
    assert_eq!(report.written, strings(&["out/a.html", "out/b.html"]));
    assert_eq!(report.exit_code(), 0);
}

#[test]
fn report_keeps_failures_with_their_files() {
    let mut report = Report::new();
    report.record("site/a.md", Ok("out/a.html".to_string()));
    report.record("site/b.md", Err(RoxyError::new(ErrorKind::Render, "Variable `x` not found".to_string())));
    report.record("site/c.md", Err(RoxyError::new(ErrorKind::Io, "permission denied".to_string())));
    report.record("site/d.md", Ok("out/d.html".to_string()));
    assert_eq!(report.written, strings(&["out/a.html", "out/d.html"]));
    assert_eq!(
        report.failures,
        vec![
            Failure { file: "site/b.md".to_string(), error: RoxyError { kind: ErrorKind::Render, message: "Variable `x` not found".to_string() } },
            Failure { file: "site/c.md".to_string(), error: RoxyError { kind: ErrorKind::Io, message: "permission denied".to_string() } },
        ]
    );
    assert!(report.has_failures());
    assert_eq!(report.exit_code(), 1);
    assert_eq!(
        report.failure_lines(),
        strings(&["site/b.md: render error: Variable `x` not found", "site/c.md: io error: permission denied"])
    );
}

#[test]
fn failure_line_names_file_kind_and_message() {
    let failure = Failure { file: "site/x.md".to_string(), error: RoxyError::new(ErrorKind::Path, "prefix not found".to_string()) };
    assert_eq!(failure.line(), "site/x.md: path error: prefix not found");
}

#[test]
fn error_text_starts_with_the_kind() {
    assert_eq!(RoxyError::new(ErrorKind::Pattern, "m".to_string()).to_text(), "pattern error: m");
    assert_eq!(RoxyError::new(ErrorKind::Path, "m".to_string()).to_text(), "path error: m");
    assert_eq!(RoxyError::new(ErrorKind::Decode, "m".to_string()).to_text(), "decode error: m");
    assert_eq!(RoxyError::new(ErrorKind::Render, "m".to_string()).to_text(), "render error: m");
    assert_eq!(RoxyError::new(ErrorKind::Io, "".to_string()).to_text(), "io error: ");
}

#[test]
fn one_bad_file_does_not_stop_the_batch() {
    let fp = FilePath::new("site", "out");
    let content = strings(&["site/good.md", "site/bad.md", "site/also_good.md"]);
    let sources = vec![b"fine".to_vec(), b"{{ undefined.key }}".to_vec(), b"fine too".to_vec()];
    let jobs = plan(&fp, &content);
    let rendered = render_all(&ProcessorChain::standard(), &RenderContext::new(), &sources);
    let mut report = Report::new();
    for (job, outcome) in jobs.into_iter().zip(rendered) {
        let result = match (job.target, outcome) {
            (Ok(target), Ok(_)) => Ok(target),
            (Err(e), _) | (_, Err(e)) => Err(e),
        };
        report.record(&job.source, result);
    }
    assert_eq!(report.written, strings(&["out/good.html", "out/also_good.html"]));
    assert_eq!(report.failures.len(), 1);
    assert_eq!(report.failures[0].file, "site/bad.md");
    assert_eq!(report.failures[0].error.kind, ErrorKind::Render);
    assert_eq!(report.exit_code(), 1);
}
