//! The driver's decisions: the setup of a run, the output path of every
//! content file, the rendering of a batch, and the report of what failed.
//! Reading and writing the files is left to the caller.

use vstd::prelude::*;
use vstd::slice::slice_to_vec;
use crate::bindings::{path_with_extension, with_extension};
use crate::chain::{chain_gives, Content, ContentType, ProcessorChain};
use crate::context::{file_message, RenderContext};
use crate::discovery::{
    is_pattern_message, lemma_partition_is_exact, pattern_expands, select, spec_is_metadata,
    validate_pattern,
};
use crate::error::{ErrorKind, RoxyError};
use crate::file_path::{outside_root_message, FilePath};

verus! {

/// What a run is started with.
#[derive(Clone, Debug, PartialEq, Eq)]
pub struct Options {
    /// The input: a directory, or a path with wildcards.
    pub input: String,
    /// The output root.
    pub output: String,
}

/// The extension of every file that is written.
pub open spec fn html_extension() -> Seq<char> {
    seq!['h', 't', 'm', 'l']
}

/// The output path of the content file `file`, or `None` where the file
/// does not lie under the root directory: its path with the extension of
/// HTML, relative to the root directory, under the output root.
pub open spec fn spec_output_path(file_path: FilePath, file: Seq<char>) -> Option<Seq<char>> {
    file_path.spec_to_output(path_with_extension(file, html_extension()))
}

/// Sets a run up: resolves the paths and checks the search pattern. A
/// malformed pattern is fatal.
pub fn resolve(options: &Options) -> (r: Result<FilePath, RoxyError>)
    ensures
        match r {
            Ok(file_path) => file_path.resolves(options.input@, options.output@)
                && pattern_expands(file_path.input@),
            Err(e) => e.kind == ErrorKind::Pattern && is_pattern_message(e.message)
                && !pattern_expands(FilePath::spec_search_pattern(options.input@)),
        },
{
    let file_path = FilePath::new(options.input.as_str(), options.output.as_str());
    match validate_pattern(file_path.input.as_str()) {
        Ok(()) => Ok(file_path),
        Err(e) => Err(e),
    }
}

/// The output path of the content file `file`.
pub fn output_path(file_path: &FilePath, file: &str) -> (r: Result<String, RoxyError>)
    ensures
        match spec_output_path(*file_path, file@) {
            Some(p) => r matches Ok(out) && out@ == p,
            None => r matches Err(e) && e.kind == ErrorKind::Path && e.message@
                == outside_root_message(),
        },
{
    proof {
        reveal_strlit("html");
        assert("html"@ == html_extension());
    }
    let named = with_extension(file, "html");
    file_path.to_output(named.as_str())
}

/// A content file with the place that its rendering is written to.
#[derive(Debug, PartialEq, Eq)]
pub struct Job {
    /// The content file, as discovered.
    pub source: String,
    /// The output path, or the error that keeps the file from being
    /// written.
    pub target: Result<String, RoxyError>,
}

impl Job {
    /// Whether this is the job of the content file `file`.
    pub open spec fn is_for(&self, file_path: FilePath, file: Seq<char>) -> bool {
        &&& self.source@ == file
        &&& match spec_output_path(file_path, file) {
            Some(p) => self.target matches Ok(out) && out@ == p,
            None => self.target matches Err(e) && e.kind == ErrorKind::Path && e.message@
                == outside_root_message(),
        }
    }
}

/// The jobs of a run: one for each content file, in the order of
/// discovery, and none for anything else.
pub fn plan(file_path: &FilePath, content: &Vec<String>) -> (jobs: Vec<Job>)
    ensures
        jobs.len() == content.len(),
        forall|i: int| 0 <= i < jobs.len() ==> (#[trigger] jobs[i]).is_for(*file_path, content[i]@),
{
    let mut jobs: Vec<Job> = Vec::new();
    let mut i: usize = 0;
    while i < content.len()
        invariant
            i <= content.len(),
            jobs.len() == i,
            forall|j: int| 0 <= j < i ==> (#[trigger] jobs[j]).is_for(*file_path, content[j]@),
        decreases content.len() - i,
    {
        let file = &content[i];
        let target = output_path(file_path, file.as_str());
        jobs.push(Job { source: file.clone(), target });
        i = i + 1;
    }
    jobs
}

/// Metadata files are not written. The jobs planned for the content side
/// of a partition are one for each file that is not metadata, and none of
/// them is the job of a metadata file.
pub proof fn lemma_no_job_for_metadata(file_path: FilePath, files: Seq<Seq<char>>, jobs: Seq<Job>)
    requires
        jobs.len() == select(files, false).len(),
        forall|i: int|
            0 <= i < jobs.len() ==> (#[trigger] jobs[i]).is_for(file_path, select(files, false)[i]),
    ensures
        jobs.len() + select(files, true).len() == files.len(),
        forall|i: int| 0 <= i < jobs.len() ==> !spec_is_metadata((#[trigger] jobs[i]).source@),
{
    lemma_partition_is_exact(files);
    assert forall|i: int| 0 <= i < jobs.len() implies !spec_is_metadata(
        (#[trigger] jobs[i]).source@,
    ) by {
        assert(jobs[i].source@ == select(files, false)[i]);
    }
}

/// Renders the bytes of one content file. Every content file enters the
/// chain as Markdown source.
pub fn render(chain: &ProcessorChain, context: &RenderContext, source: &[u8]) -> (r: Result<
    Content,
    RoxyError,
>)
    ensures
        chain_gives(chain.stages@, (source@, ContentType::Markdown), r),
{
    chain.run(Content { bytes: slice_to_vec(source), kind: ContentType::Markdown }, context)
}

/// Renders a batch of content files. Every file has its own outcome: one
/// that fails does not keep the others from being rendered.
pub fn render_all(chain: &ProcessorChain, context: &RenderContext, sources: &Vec<Vec<u8>>) -> (all:
    Vec<Result<Content, RoxyError>>)
    ensures
        all.len() == sources.len(),
        forall|i: int|
            0 <= i < all.len() ==> chain_gives(
                chain.stages@,
                (sources[i]@, ContentType::Markdown),
                #[trigger] all[i],
            ),
{
    let mut all: Vec<Result<Content, RoxyError>> = Vec::new();
    let mut i: usize = 0;
    while i < sources.len()
        invariant
            i <= sources.len(),
            all.len() == i,
            forall|j: int|
                0 <= j < i ==> chain_gives(
                    chain.stages@,
                    (sources[j]@, ContentType::Markdown),
                    #[trigger] all[j],
                ),
        decreases sources.len() - i,
    {
        let r = render(chain, context, sources[i].as_slice());
        all.push(r);
        i = i + 1;
    }
    all
}

/// A content file that was not written, with the reason.
#[derive(Clone, Debug, PartialEq, Eq)]
pub struct Failure {
    pub file: String,
    pub error: RoxyError,
}

impl Failure {
    /// The line that a report shows for this failure: the file, a colon
    /// and a space, then the error.
    pub open spec fn spec_line(&self) -> Seq<char> {
        file_message(self.file@, self.error.spec_text())
    }

    /// The line that a report shows for this failure.
    pub fn line(&self) -> (s: String)
        ensures
            s@ == self.spec_line(),
    {
        let mut s = self.file.clone();
        s.append(": ");
        s.append(self.error.to_text().as_str());
        s
    }
}

/// Whether `after` is `before` with one more failure, that of `file` with
/// `error`.
pub open spec fn follows_with(
    before: Seq<Failure>,
    after: Seq<Failure>,
    file: Seq<char>,
    error: RoxyError,
) -> bool {
    &&& after.len() == before.len() + 1
    &&& after.drop_last() == before
    &&& after.last().file@ == file
    &&& after.last().error == error
}

/// What became of the content files of a run.
#[derive(Clone, Debug, PartialEq, Eq)]
pub struct Report {
    /// The output paths that were written, in order.
    pub written: Vec<String>,
    /// The files that failed, in order.
    pub failures: Vec<Failure>,
}

impl Report {
    /// The report of a run in which nothing has happened yet.
    pub fn new() -> (report: Report)
        ensures
            report.written@.len() == 0,
            report.failures@.len() == 0,
    {
        Report { written: Vec::new(), failures: Vec::new() }
    }

    /// Records what became of the content file `file`: the output path
    /// that was written, or the error. An error is kept with its file, and
    /// what was recorded before stays.
    pub fn record(&mut self, file: &str, outcome: Result<String, RoxyError>)
        ensures
            match outcome {
                Ok(target) => final(self).written@ == old(self).written@.push(target),
                Err(_) => final(self).written@ == old(self).written@,
            },
            match outcome {
                Ok(_) => final(self).failures@ == old(self).failures@,
                Err(error) => follows_with(old(self).failures@, final(self).failures@, file@, error),
            },
    {
        match outcome {
            Ok(target) => {
                self.written.push(target);
            },
            Err(error) => {
                self.failures.push(Failure { file: String::from_str(file), error });
                assert(self.failures@.drop_last() == old(self).failures@);
            },
        }
    }

    /// Whether any file failed.
    pub fn has_failures(&self) -> (r: bool)
        ensures
            r == (self.failures@.len() > 0),
    {
        self.failures.len() > 0
    }

    /// The exit status of the run: zero where every file was written, one
    /// where any failed.
    pub fn exit_code(&self) -> (code: u8)
        ensures
            code == if self.failures@.len() == 0 { 0u8 } else { 1u8 },
    {
        if self.has_failures() {
            1
        } else {
            0
        }
    }

    /// The lines that list the failures: one for each, in order.
    pub fn failure_lines(&self) -> (lines: Vec<String>)
        ensures
            lines.len() == self.failures@.len(),
            forall|i: int|
                0 <= i < lines.len() ==> (#[trigger] lines[i])@ == self.failures@[i].spec_line(),
    {
        let mut lines: Vec<String> = Vec::new();
        let mut i: usize = 0;
        while i < self.failures.len()
            invariant
                i <= self.failures.len(),
                lines.len() == i,
                forall|j: int|
                    0 <= j < i ==> (#[trigger] lines[j])@ == self.failures@[j].spec_line(),
            decreases self.failures.len() - i,
        {
            lines.push(self.failures[i].line());
            i = i + 1;
        }
        lines
    }
}

} // verus!
