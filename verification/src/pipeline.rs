//! The render pipeline: one pass of the markdown transformer per distinct
//! content value, intercepting its event stream for the outline builder while
//! the HTML emission runs untouched, memoized on the raw content.

use vstd::prelude::*;
use pulldown_cmark::{html, Event, Options, Parser, Tag, TagEnd};
use crate::events::{EventModel, ParseEvent};
use crate::outline::{outline_fold, outline_step, toc_markup, toc_markup_spec, OutlineBuilder};

verus! {

/// What the markdown transformer's HTML emission produces for a document; a
/// function of the raw text alone.
pub uninterp spec fn html_of(s: Seq<char>) -> Seq<char>;

/// The event stream the markdown transformer produces for a document,
/// abstracted to the shapes the outline builder reads; a function of the raw
/// text alone.
pub uninterp spec fn events_of(s: Seq<char>) -> Seq<EventModel>;

/// Relies on pulldown_cmark's `Parser::new_ext` (with heading attributes
/// enabled) and `html::push_html`: both are deterministic in the input text.
/// Every event is forwarded unmodified to HTML emission; the returned vector
/// records each event's abstraction, one variant each, in stream order.
#[verifier::external_body]
fn transform(content: &str) -> (r: (String, Vec<ParseEvent>))
    ensures
        r.0@ == html_of(content@),
        r.1.deep_view() == events_of(content@),
{
    let mut body = String::new();
    let mut events: Vec<ParseEvent> = Vec::new();
    let parser = Parser::new_ext(content, Options::ENABLE_HEADING_ATTRIBUTES);
    html::push_html(&mut body, parser.map(|ev| {
        events.push(match &ev {
            Event::Start(Tag::Heading { level, .. }) => ParseEvent::HeadingStart(*level as u32),
            Event::Text(t) => ParseEvent::Text(t.to_string()),
            Event::End(TagEnd::Heading(_)) => ParseEvent::HeadingEnd,
            _ => ParseEvent::Other,
        });
        ev
    }));
    (body, events)
}

/// Mathematical model of one render result.
pub struct RenderResultModel {
    pub toc_markup: Seq<char>,
    pub body_html: Seq<char>,
}

/// The unit the pipeline produces and memoizes: the table-of-contents markup
/// and the body HTML of one document version.
pub struct RenderResult {
    pub toc_markup: String,
    pub body_html: String,
}

impl View for RenderResult {
    type V = RenderResultModel;

    open spec fn view(&self) -> RenderResultModel {
        RenderResultModel { toc_markup: self.toc_markup@, body_html: self.body_html@ }
    }
}

impl Clone for RenderResult {
    fn clone(&self) -> (r: Self)
        ensures
            r@ == self@,
    {
        RenderResult { toc_markup: self.toc_markup.clone(), body_html: self.body_html.clone() }
    }
}

/// What rendering a document produces: the table of contents built from the
/// document's event stream, and the transformer's body HTML.
pub open spec fn render_spec(content: Seq<char>) -> RenderResultModel {
    RenderResultModel {
        toc_markup: toc_markup_spec(outline_fold(events_of(content)).entries),
        body_html: html_of(content),
    }
}

proof fn lemma_outline_fold_snoc(s: Seq<EventModel>, i: int)
    requires
        0 <= i < s.len(),
    ensures
        outline_fold(s.take(i + 1)) == outline_step(outline_fold(s.take(i)), s[i]),
{
    assert(s.take(i + 1).drop_last() =~= s.take(i));
    assert(s.take(i + 1).last() == s[i]);
}

/// One full, unmemoized recomputation: runs the transformer once, feeds every
/// event through a fresh outline builder, and stitches the result.  Never a
/// partial result: whatever event stream the transformer yields, a well-formed
/// pair comes back.
pub fn render_once(content: &str) -> (r: RenderResult)
    ensures
        r@ == render_spec(content@),
{
    let (body, events) = transform(content);
    let mut builder = OutlineBuilder::new();
    let n = events.len();
    let mut i: usize = 0;
    while i < n
        invariant
            n == events.len(),
            i <= n,
            events.deep_view() == events_of(content@),
            builder@ == outline_fold(events.deep_view().take(i as int)),
        decreases n - i,
    {
        proof {
            lemma_outline_fold_snoc(events.deep_view(), i as int);
            assert(events.deep_view()[i as int] == events[i as int]@);
        }
        builder.observe(&events[i]);
        i = i + 1;
    }
    proof {
        assert(events.deep_view().take(n as int) =~= events.deep_view());
    }
    let entries = builder.finish();
    let toc = toc_markup(&entries);
    RenderResult { toc_markup: toc, body_html: body }
}

/// Drives the pipeline across content changes: recomputes at most once per
/// distinct content value, and answers repeated renders of the same content
/// from the memoized result without re-running the transformer.
pub struct Renderer {
    cache: Option<(String, RenderResult)>,
    transforms: u64,
}

impl Renderer {
    /// The memoized result is always the rendering of the memoized key.
    pub closed spec fn wf(&self) -> bool {
        match self.cache {
            Some(p) => p.1@ == render_spec(p.0@),
            None => true,
        }
    }

    /// The content the memoized result belongs to, if any.
    pub closed spec fn cached_key(&self) -> Option<Seq<char>> {
        match self.cache {
            Some(p) => Some(p.0@),
            None => None,
        }
    }

    /// How often the transformer has been run.
    pub closed spec fn spec_transform_count(&self) -> u64 {
        self.transforms
    }

    /// A renderer with an empty memo and no transformer run yet.
    pub fn new() -> (r: Renderer)
        ensures
            r.wf(),
            r.cached_key() is None,
            r.spec_transform_count() == 0,
    {
        Renderer { cache: None, transforms: 0 }
    }

    /// How often the transformer has been run.
    pub fn transform_count(&self) -> (n: u64)
        ensures
            n == self.spec_transform_count(),
    {
        self.transforms
    }

    /// Renders a document.  The result is always exactly the rendering of the
    /// given content; when the content equals the memoized key the memoized
    /// result is returned as is and the transformer does not run again.
    pub fn render(&mut self, content: &String) -> (r: RenderResult)
        requires
            old(self).wf(),
        ensures
            final(self).wf(),
            r@ == render_spec(content@),
            final(self).cached_key() == Some(content@),
            old(self).cached_key() == Some(content@) ==> final(self).spec_transform_count()
                == old(self).spec_transform_count(),
            old(self).cached_key() != Some(content@) ==> final(self).spec_transform_count() == (
            if old(self).spec_transform_count() == u64::MAX {
                u64::MAX
            } else {
                (old(self).spec_transform_count() + 1) as u64
            }),
    {
        match &self.cache {
            Some(p) => {
                if p.0.eq(content) {
                    return p.1.clone();
                }
            },
            None => {},
        }
        let r = render_once(content.as_str());
        if self.transforms < u64::MAX {
            self.transforms = self.transforms + 1;
        }
        self.cache = Some((content.clone(), r.clone()));
        r
    }
}

/// Idempotent memoization, seen from the result side: rendering is a pure
/// function of the content, so equal content strings always yield identical
/// results, however often and in whatever order they are rendered.
pub proof fn lemma_render_deterministic(c1: Seq<char>, c2: Seq<char>)
    requires
        c1 == c2,
    ensures
        render_spec(c1) == render_spec(c2),
{
}

} // verus!
