//! The processor chain: an ordered list of content transformers through
//! which the bytes of a content file are threaded, each stage's output being
//! the next stage's input.

use vstd::prelude::*;
use vstd::string::to_string_from_display_ensures;
use vstd::utf8::encode_utf8;
use crate::bindings::{lossy_text, markdown_html, render_markdown, render_one_off, utf8_lossy};
use crate::context::RenderContext;
use crate::error::{ErrorKind, RoxyError};
use crate::template::{is_safe_template, template_is_safe};

verus! {

/// What a stage is handed, or hands on.
#[derive(Clone, Copy, Debug, PartialEq, Eq, Structural)]
pub enum ContentType {
    /// Markdown source.
    Markdown,
    /// HTML that is still a template body.
    HtmlTemplate,
    /// HTML as it is written out.
    RenderedHtml,
}

/// Bytes with the format that they are in.
#[derive(Clone, Debug, PartialEq, Eq)]
pub struct Content {
    pub bytes: Vec<u8>,
    pub kind: ContentType,
}

impl View for Content {
    type V = (Seq<u8>, ContentType);

    open spec fn view(&self) -> (Seq<u8>, ContentType) {
        (self.bytes@, self.kind)
    }
}

impl Content {
    /// The bytes read as text, as a template engine is handed them: each
    /// sequence that is not UTF-8 is replaced.
    pub fn to_text(&self) -> (text: String)
        ensures
            text@ == utf8_lossy(self.bytes@),
    {
        lossy_text(self.bytes.as_slice())
    }
}

/// A content transformer.
#[derive(Clone, Copy, Debug, PartialEq, Eq, Structural)]
pub enum Stage {
    /// Renders Markdown to HTML.
    Markdown,
    /// Renders a template body with the render context.
    Template,
}

/// What went through a chain, or the kind of the error that stopped it. The
/// error's message is left out.
pub type Outcome = Result<(Seq<u8>, ContentType), ErrorKind>;

/// The message of the error for a template body that is not safe.
pub open spec fn unsafe_template_message() -> Seq<char> {
    "template holds what the template engine cannot be trusted with"@
}

/// Whether `r` is what the Markdown stage gives for what the renderer
/// returned: the HTML as a template body, or a render error with the text
/// of the renderer's error as its message.
pub open spec fn markdown_gives(
    rendered: Result<Vec<u8>, roxy_core::error::Error>,
    r: Result<Content, RoxyError>,
) -> bool {
    match rendered {
        Ok(html) => r matches Ok(content) && content@ == (html@, ContentType::HtmlTemplate),
        Err(err) => r matches Err(e) && e.kind == ErrorKind::Render
            && to_string_from_display_ensures::<roxy_core::error::Error>(&err, e.message),
    }
}

/// Whether `r` is what the template stage gives for what the template
/// engine returned: the bytes of the rendered text as final HTML, or a
/// render error with the text of the engine's error as its message.
pub open spec fn template_gives(
    rendered: Result<String, tera::Error>,
    r: Result<Content, RoxyError>,
) -> bool {
    match rendered {
        Ok(html) => r matches Ok(content) && content@ == (
            encode_utf8(html@),
            ContentType::RenderedHtml,
        ),
        Err(err) => r matches Err(e) && e.kind == ErrorKind::Render
            && to_string_from_display_ensures::<tera::Error>(&err, e.message),
    }
}

impl Stage {
    /// The format that the stage transforms. Content in any other format
    /// passes through it unchanged.
    pub open spec fn accepts(self) -> ContentType {
        match self {
            Stage::Markdown => ContentType::Markdown,
            Stage::Template => ContentType::HtmlTemplate,
        }
    }

    /// The format of what the stage produces.
    pub open spec fn produces(self) -> ContentType {
        match self {
            Stage::Markdown => ContentType::HtmlTemplate,
            Stage::Template => ContentType::RenderedHtml,
        }
    }

    /// Whether `r` is a result that the stage may give for `input`.
    /// Content in a format that the stage does not accept passes through.
    /// Markdown rendering is a function of the source; where the renderer
    /// fails, the error is what `markdown_outcome` makes of the renderer's.
    /// A template body that is not safe is a render error with a fixed
    /// message. For a safe one, the result is what `template_outcome` makes
    /// of some result of the engine, which may read the clock and the
    /// environment.
    pub open spec fn gives(self, input: (Seq<u8>, ContentType), r: Result<Content, RoxyError>) -> bool {
        if input.1 != self.accepts() {
            r matches Ok(content) && content@ == input
        } else {
            match self {
                Stage::Markdown => match markdown_html(input.0) {
                    Some(html) => r matches Ok(content) && content@ == (html, self.produces()),
                    None => exists|rendered: Result<Vec<u8>, roxy_core::error::Error>|
                        rendered is Err && #[trigger] markdown_gives(rendered, r),
                },
                Stage::Template => if template_is_safe(utf8_lossy(input.0)) {
                    exists|rendered: Result<String, tera::Error>| #[trigger]
                        template_gives(rendered, r)
                } else {
                    r matches Err(e) && e.kind == ErrorKind::Render && e.message@
                        == unsafe_template_message()
                },
            }
        }
    }

    /// Whether `after` is a result that the stage may give after `before`:
    /// an earlier error stands, and content is transformed.
    pub open spec fn follows(
        self,
        before: Result<Content, RoxyError>,
        after: Result<Content, RoxyError>,
    ) -> bool {
        match before {
            Ok(content) => self.gives(content@, after),
            Err(_) => after == before,
        }
    }

    /// Runs the stage on `input`. The template engine is not called on a
    /// body that is not safe.
    pub fn apply(self, input: Content, context: &RenderContext) -> (r: Result<Content, RoxyError>)
        ensures
            self.gives(input@, r),
    {
        match self {
            Stage::Markdown => {
                if input.kind == ContentType::Markdown {
                    let rendered = render_markdown("", input.bytes.as_slice());
                    let ghost seen = rendered;
                    let r = markdown_outcome(rendered);
                    assert(markdown_gives(seen, r));
                    r
                } else {
                    Ok(input)
                }
            },
            Stage::Template => {
                if input.kind == ContentType::HtmlTemplate {
                    let template = input.to_text();
                    if is_safe_template(template.as_str()) {
                        let rendered = render_one_off(template.as_str(), &context.inner, false);
                        let ghost seen = rendered;
                        let r = template_outcome(rendered);
                        assert(template_gives(seen, r));
                        r
                    } else {
                        Err(
                            RoxyError::new(
                                ErrorKind::Render,
                                String::from_str(
                                    "template holds what the template engine cannot be trusted with",
                                ),
                            ),
                        )
                    }
                } else {
                    Ok(input)
                }
            },
        }
    }
}

/// The outcome of a run without the message of its error: the content, or
/// the kind of the error.
pub open spec fn outcome_kind_of(r: Result<Content, RoxyError>) -> Outcome {
    match r {
        Ok(content) => Ok(content@),
        Err(e) => Err(e.kind),
    }
}

/// What the Markdown stage gives for what the renderer returned.
pub fn markdown_outcome(rendered: Result<Vec<u8>, roxy_core::error::Error>) -> (r: Result<
    Content,
    RoxyError,
>)
    ensures
        markdown_gives(rendered, r),
{
    match rendered {
        Ok(html) => Ok(Content { bytes: html, kind: ContentType::HtmlTemplate }),
        Err(err) => {
            let message = err.to_string();
            Err(RoxyError { kind: ErrorKind::Render, message })
        },
    }
}

/// What the template stage gives for what the template engine returned.
pub fn template_outcome(rendered: Result<String, tera::Error>) -> (r: Result<Content, RoxyError>)
    ensures
        template_gives(rendered, r),
{
    match rendered {
        Ok(html) => Ok(
            Content { bytes: html.as_str().as_bytes_vec(), kind: ContentType::RenderedHtml },
        ),
        Err(err) => {
            let message = err.to_string();
            Err(RoxyError { kind: ErrorKind::Render, message })
        },
    }
}

/// Whether `trace` records a run of the stages on `input`: it starts with
/// the input, and each stage follows what stands before it.
pub open spec fn is_trace(
    stages: Seq<Stage>,
    input: (Seq<u8>, ContentType),
    trace: Seq<Result<Content, RoxyError>>,
) -> bool {
    &&& trace.len() == stages.len() + 1
    &&& trace[0] matches Ok(content) && content@ == input
    &&& forall|i: int|
        #![trigger stages[i]]
        0 <= i < stages.len() ==> stages[i].follows(trace[i], trace[i + 1])
}

/// Whether `r` is a result that the stages, run in order on `input`, may
/// give: each stage is handed what the stage before it gave, and the first
/// error ends the run and is the result.
pub open spec fn chain_gives(
    stages: Seq<Stage>,
    input: (Seq<u8>, ContentType),
    r: Result<Content, RoxyError>,
) -> bool {
    exists|trace: Seq<Result<Content, RoxyError>>| #[trigger]
        is_trace(stages, input, trace) && trace.last() == r
}

/// A trace that ends in an error, continued by that error for every stage
/// that is left.
pub open spec fn ended_trace(trace: Seq<Result<Content, RoxyError>>, len: nat) -> Seq<
    Result<Content, RoxyError>,
> {
    Seq::new(len, |i: int| if i < trace.len() { trace[i] } else { trace.last() })
}

/// An error that ended a run after some stages is the result of the whole
/// chain.
pub proof fn lemma_error_ends_chain(
    stages: Seq<Stage>,
    upto: int,
    input: (Seq<u8>, ContentType),
    r: Result<Content, RoxyError>,
)
    requires
        0 <= upto <= stages.len(),
        r is Err,
        chain_gives(stages.take(upto), input, r),
    ensures
        chain_gives(stages, input, r),
{
    let trace = choose|trace: Seq<Result<Content, RoxyError>>| #[trigger]
        is_trace(stages.take(upto), input, trace) && trace.last() == r;
    let whole = ended_trace(trace, stages.len() + 1);
    assert forall|i: int| 0 <= i < stages.len() implies #[trigger] stages[i].follows(
        whole[i],
        whole[i + 1],
    ) by {
        if i < upto {
            assert(stages.take(upto)[i] == stages[i]);
        }
    }
    assert(is_trace(stages, input, whole));
}

/// Without a template stage a run is a function of its input, but for the
/// message of an error: two results that such a chain may give for one
/// input hold the same content, or errors of the same kind.
pub proof fn lemma_chain_without_template_is_function(
    stages: Seq<Stage>,
    input: (Seq<u8>, ContentType),
    first: Result<Content, RoxyError>,
    second: Result<Content, RoxyError>,
)
    requires
        forall|i: int| 0 <= i < stages.len() ==> stages[i] == Stage::Markdown,
        chain_gives(stages, input, first),
        chain_gives(stages, input, second),
    ensures
        outcome_kind_of(first) == outcome_kind_of(second),
{
    let a = choose|trace: Seq<Result<Content, RoxyError>>| #[trigger]
        is_trace(stages, input, trace) && trace.last() == first;
    let b = choose|trace: Seq<Result<Content, RoxyError>>| #[trigger]
        is_trace(stages, input, trace) && trace.last() == second;
    lemma_traces_agree(stages, input, a, b, stages.len() as int);
}

/// Two traces of a chain without a template stage agree at every position.
proof fn lemma_traces_agree(
    stages: Seq<Stage>,
    input: (Seq<u8>, ContentType),
    a: Seq<Result<Content, RoxyError>>,
    b: Seq<Result<Content, RoxyError>>,
    at: int,
)
    requires
        forall|i: int| 0 <= i < stages.len() ==> stages[i] == Stage::Markdown,
        is_trace(stages, input, a),
        is_trace(stages, input, b),
        0 <= at <= stages.len(),
    ensures
        outcome_kind_of(a[at]) == outcome_kind_of(b[at]),
    decreases at,
{
    if at > 0 {
        lemma_traces_agree(stages, input, a, b, at - 1);
        assert(stages[at - 1].follows(a[at - 1], a[at - 1 + 1]));
        assert(stages[at - 1].follows(b[at - 1], b[at - 1 + 1]));
    }
}

/// An ordered list of content transformers, fixed for a run.
#[derive(Clone, Debug, PartialEq, Eq)]
pub struct ProcessorChain {
    pub stages: Vec<Stage>,
}

impl ProcessorChain {
    /// A chain without stages, which hands content back as it is.
    pub fn new() -> (chain: ProcessorChain)
        ensures
            chain.stages@ == Seq::<Stage>::empty(),
    {
        ProcessorChain { stages: Vec::new() }
    }

    /// The chain of a site build: Markdown rendering, then template
    /// rendering.
    pub fn standard() -> (chain: ProcessorChain)
        ensures
            chain.stages@ == seq![Stage::Markdown, Stage::Template],
    {
        let mut chain = ProcessorChain::new();
        chain.push(Stage::Markdown);
        chain.push(Stage::Template);
        chain
    }

    /// Adds a stage at the end of the chain.
    pub fn push(&mut self, stage: Stage)
        ensures
            final(self).stages@ == old(self).stages@.push(stage),
    {
        self.stages.push(stage);
    }

    /// Threads `input` through the stages, in order.
    pub fn run(&self, input: Content, context: &RenderContext) -> (r: Result<Content, RoxyError>)
        ensures
            chain_gives(self.stages@, input@, r),
    {
        let ghost start = input@;
        let ghost mut trace: Seq<Result<Content, RoxyError>> = seq![Ok(input)];
        let mut current = input;
        let mut i: usize = 0;
        while i < self.stages.len()
            invariant
                i <= self.stages.len(),
                start == input@,
                is_trace(self.stages@.take(i as int), start, trace),
                trace.last() == Ok::<Content, RoxyError>(current),
            decreases self.stages.len() - i,
        {
            let ghost done = self.stages@.take(i as int);
            let ghost next = self.stages@.take(i + 1);
            let ghost before = trace;
            let stage = self.stages[i];
            let r = stage.apply(current, context);
            proof {
                trace = before.push(r);
                assert forall|j: int| 0 <= j < next.len() implies #[trigger] next[j].follows(
                    trace[j],
                    trace[j + 1],
                ) by {
                    if j < i {
                        assert(done[j] == next[j]);
                    }
                }
                assert(is_trace(next, start, trace));
            }
            match r {
                Ok(content) => {
                    current = content;
                },
                Err(e) => {
                    proof {
                        lemma_error_ends_chain(self.stages@, i + 1, start, r);
                    }
                    return Err(e);
                },
            }
            i = i + 1;
        }
        assert(self.stages@.take(self.stages.len() as int) == self.stages@);
        Ok(current)
    }
}

} // verus!
