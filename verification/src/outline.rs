//! The outline builder: a single pass over the parse event stream that
//! accumulates heading text, resolves each finished heading to a unique
//! anchor, and emits ordered table-of-contents entries with their rendering
//! metadata baked in.

use vstd::prelude::*;
use crate::anchor::{lemma_pick_anchor_fresh, pick_anchor, slug, AnchorRegistry};
use crate::events::{EventModel, ParseEvent};
use crate::slug::slug_base_spec;

verus! {

/// Mathematical model of one table-of-contents entry.
pub struct TocEntryModel {
    pub level: u32,
    pub text: Seq<char>,
    pub anchor: Seq<char>,
    pub markup: Seq<char>,
}

/// One entry of the table of contents: the heading level, the accumulated
/// heading text, the unique anchor, and the rendered list-item markup.
pub struct TocEntry {
    pub level: u32,
    pub text: String,
    pub anchor: String,
    pub markup: String,
}

impl View for TocEntry {
    type V = TocEntryModel;

    open spec fn view(&self) -> TocEntryModel {
        TocEntryModel {
            level: self.level,
            text: self.text@,
            anchor: self.anchor@,
            markup: self.markup@,
        }
    }
}

impl DeepView for TocEntry {
    type V = TocEntryModel;

    open spec fn deep_view(&self) -> TocEntryModel {
        self.view()
    }
}

/// The list-item class for a heading level: top-level indent for H1,
/// secondary for H2, nested for H3 and deeper.
pub open spec fn li_class_spec(level: u32) -> Seq<char> {
    if level == 1 {
        "mt-3"@
    } else if level == 2 {
        "mt-1"@
    } else {
        "mt-1 ml-4"@
    }
}

/// The link class for a heading level: bold for H1, normal weight otherwise.
pub open spec fn a_class_spec(level: u32) -> Seq<char> {
    if level == 1 {
        "font-semibold text-sm text-gray-800 dark:text-gray-200"@
    } else {
        "text-sm text-gray-600 dark:text-gray-400"@
    }
}

/// The prefix glyph span: absent for H1 and H2, a ">" continuation glyph for
/// H3 and deeper.
pub open spec fn prefix_span_spec(level: u32) -> Seq<char> {
    if level == 1 || level == 2 {
        Seq::<char>::empty()
    } else {
        "<span class=\"mr-2 text-gray-400 dark:text-gray-500\">></span>"@
    }
}

/// The rendered list-item markup of one entry.
pub open spec fn li_markup_spec(level: u32, text: Seq<char>, anchor: Seq<char>) -> Seq<char> {
    "<li class=\"flex items-center "@ + li_class_spec(level) + "\">"@ + prefix_span_spec(level)
        + "<a href=\"#"@ + anchor + "\" class=\"hover:text-blue-500 "@ + a_class_spec(level)
        + "\">"@ + text + "</a></li>"@
}

/// The entry produced when a heading of the given level, text and anchor is
/// finalized.
pub open spec fn entry_model(level: u32, text: Seq<char>, anchor: Seq<char>) -> TocEntryModel {
    TocEntryModel { level, text, anchor, markup: li_markup_spec(level, text, anchor) }
}

/// Model of the builder's accumulation state: idle, or inside a heading of a
/// known level with the text gathered so far.
pub enum OutlineStateModel {
    Idle,
    Accumulating(u32, Seq<char>),
}

/// The builder's accumulation state.
pub enum OutlineState {
    Idle,
    Accumulating { level: u32, buffer: String },
}

impl View for OutlineState {
    type V = OutlineStateModel;

    open spec fn view(&self) -> OutlineStateModel {
        match self {
            OutlineState::Idle => OutlineStateModel::Idle,
            OutlineState::Accumulating { level, buffer } => OutlineStateModel::Accumulating(
                *level,
                buffer@,
            ),
        }
    }
}

/// Mathematical model of the whole builder: accumulation state, the entries
/// emitted so far, and the registry of anchors assigned so far.
pub struct OutlineModel {
    pub state: OutlineStateModel,
    pub entries: Seq<TocEntryModel>,
    pub registry: Seq<Seq<char>>,
}

/// The builder's starting point: idle, nothing emitted, no anchor taken.
pub open spec fn outline_init() -> OutlineModel {
    OutlineModel {
        state: OutlineStateModel::Idle,
        entries: Seq::<TocEntryModel>::empty(),
        registry: Seq::<Seq<char>>::empty(),
    }
}

/// One transition of the builder.  A heading start (re)opens accumulation; a
/// text run extends an open accumulation and is otherwise ignored; a heading
/// end finalizes an open accumulation into an entry whose anchor is the first
/// free candidate, and is a no-op while idle; any other event changes
/// nothing.
pub open spec fn outline_step(m: OutlineModel, ev: EventModel) -> OutlineModel {
    match ev {
        EventModel::HeadingStart(level) => OutlineModel {
            state: OutlineStateModel::Accumulating(level, Seq::<char>::empty()),
            entries: m.entries,
            registry: m.registry,
        },
        EventModel::Text(t) => match m.state {
            OutlineStateModel::Accumulating(level, buf) => OutlineModel {
                state: OutlineStateModel::Accumulating(level, buf + t),
                entries: m.entries,
                registry: m.registry,
            },
            OutlineStateModel::Idle => m,
        },
        EventModel::HeadingEnd => match m.state {
            OutlineStateModel::Accumulating(level, buf) => {
                let anchor = pick_anchor(m.registry, slug_base_spec(buf));
                OutlineModel {
                    state: OutlineStateModel::Idle,
                    entries: m.entries.push(entry_model(level, buf, anchor)),
                    registry: m.registry.push(anchor),
                }
            },
            OutlineStateModel::Idle => m,
        },
        EventModel::Other => m,
    }
}

/// The builder run over a whole event stream.
pub open spec fn outline_fold(events: Seq<EventModel>) -> OutlineModel
    decreases events.len(),
{
    if events.len() == 0 {
        outline_init()
    } else {
        outline_step(outline_fold(events.drop_last()), events.last())
    }
}

/// The rendered list-item markup of one entry, assembled exactly as
/// `li_markup_spec` states.
pub fn li_markup(level: u32, text: &String, anchor: &String) -> (r: String)
    ensures
        r@ == li_markup_spec(level, text@, anchor@),
{
    let mut r = String::new();
    r.append("<li class=\"flex items-center ");
    if level == 1 {
        r.append("mt-3");
    } else if level == 2 {
        r.append("mt-1");
    } else {
        r.append("mt-1 ml-4");
    }
    r.append("\">");
    if level == 1 || level == 2 {
    } else {
        r.append("<span class=\"mr-2 text-gray-400 dark:text-gray-500\">></span>");
    }
    r.append("<a href=\"#");
    r.append(anchor.as_str());
    r.append("\" class=\"hover:text-blue-500 ");
    if level == 1 {
        r.append("font-semibold text-sm text-gray-800 dark:text-gray-200");
    } else {
        r.append("text-sm text-gray-600 dark:text-gray-400");
    }
    r.append("\">");
    r.append(text.as_str());
    r.append("</a></li>");
    proof {
        assert(r@ =~= li_markup_spec(level, text@, anchor@));
    }
    r
}

/// Consumes the parse event stream one event at a time and accumulates the
/// table of contents.  Fresh per document recomputation.
pub struct OutlineBuilder {
    state: OutlineState,
    entries: Vec<TocEntry>,
    registry: AnchorRegistry,
}

impl View for OutlineBuilder {
    type V = OutlineModel;

    closed spec fn view(&self) -> OutlineModel {
        OutlineModel {
            state: self.state@,
            entries: self.entries.deep_view(),
            registry: self.registry@,
        }
    }
}

impl OutlineBuilder {
    /// A fresh builder: idle, no entries, empty anchor registry.
    pub fn new() -> (r: OutlineBuilder)
        ensures
            r@ == outline_init(),
    {
        let r = OutlineBuilder {
            state: OutlineState::Idle,
            entries: Vec::new(),
            registry: AnchorRegistry::new(),
        };
        proof {
            assert(r@.entries =~= outline_init().entries);
        }
        r
    }

    /// Observes one event of the stream; the event itself is left untouched
    /// for HTML emission.
    pub fn observe(&mut self, ev: &ParseEvent)
        ensures
            final(self)@ == outline_step(old(self)@, ev@),
    {
        match ev {
            ParseEvent::HeadingStart(level) => {
                self.state = OutlineState::Accumulating { level: *level, buffer: String::new() };
            },
            ParseEvent::Text(t) => {
                let mut st = OutlineState::Idle;
                core::mem::swap(&mut self.state, &mut st);
                match st {
                    OutlineState::Accumulating { level, mut buffer } => {
                        buffer.append(t.as_str());
                        self.state = OutlineState::Accumulating { level, buffer };
                    },
                    OutlineState::Idle => {},
                }
            },
            ParseEvent::HeadingEnd => {
                let mut st = OutlineState::Idle;
                core::mem::swap(&mut self.state, &mut st);
                match st {
                    OutlineState::Accumulating { level, buffer } => {
                        let ghost buf0 = buffer@;
                        let ghost reg0 = self.registry@;
                        let anchor = slug(buffer.as_str(), &mut self.registry);
                        let markup = li_markup(level, &buffer, &anchor);
                        let entry = TocEntry { level, text: buffer, anchor, markup };
                        let ghost entry0 = entry@;
                        proof {
                            assert(entry0 == entry_model(
                                level,
                                buf0,
                                pick_anchor(reg0, slug_base_spec(buf0)),
                            ));
                        }
                        self.entries.push(entry);
                        proof {
                            assert(self.entries.deep_view() =~= old(
                                self,
                            ).entries.deep_view().push(entry0));
                        }
                    },
                    OutlineState::Idle => {},
                }
            },
            ParseEvent::Other => {},
        }
    }

    /// Hands out the finished entry sequence, in document order.
    pub fn finish(self) -> (r: Vec<TocEntry>)
        ensures
            r.deep_view() == self@.entries,
    {
        self.entries
    }
}

/// The concatenated list-item markup of an entry sequence.
pub open spec fn entries_markup_spec(entries: Seq<TocEntryModel>) -> Seq<char>
    decreases entries.len(),
{
    if entries.len() == 0 {
        Seq::<char>::empty()
    } else {
        entries_markup_spec(entries.drop_last()) + entries.last().markup
    }
}

/// The full table-of-contents markup: the entries' items wrapped in one list.
pub open spec fn toc_markup_spec(entries: Seq<TocEntryModel>) -> Seq<char> {
    "<ul class=\"list-none pl-0\">"@ + entries_markup_spec(entries) + "</ul>"@
}

proof fn lemma_entries_markup_snoc(entries: Seq<TocEntryModel>, i: int)
    requires
        0 <= i < entries.len(),
    ensures
        entries_markup_spec(entries.take(i + 1)) == entries_markup_spec(entries.take(i))
            + entries[i].markup,
{
    assert(entries.take(i + 1).drop_last() =~= entries.take(i));
    assert(entries.take(i + 1).last() == entries[i]);
}

/// Joins the entries into the table-of-contents markup.
pub fn toc_markup(entries: &Vec<TocEntry>) -> (r: String)
    ensures
        r@ == toc_markup_spec(entries.deep_view()),
{
    let mut items = String::new();
    let n = entries.len();
    let mut i: usize = 0;
    while i < n
        invariant
            n == entries.len(),
            i <= n,
            items@ == entries_markup_spec(entries.deep_view().take(i as int)),
        decreases n - i,
    {
        proof {
            lemma_entries_markup_snoc(entries.deep_view(), i as int);
        }
        items.append(entries[i].markup.as_str());
        i = i + 1;
    }
    let mut r = String::new();
    r.append("<ul class=\"list-none pl-0\">");
    r.append(items.as_str());
    r.append("</ul>");
    proof {
        assert(entries.deep_view().take(n as int) =~= entries.deep_view());
        assert(r@ =~= toc_markup_spec(entries.deep_view()));
    }
    r
}

/// The anchors of an entry sequence, in order.
pub open spec fn anchors_of(entries: Seq<TocEntryModel>) -> Seq<Seq<char>> {
    entries.map_values(|e: TocEntryModel| e.anchor)
}

/// Running invariant of the builder: the registry holds exactly the anchors
/// assigned so far, in order.
proof fn lemma_outline_registry(events: Seq<EventModel>)
    ensures
        outline_fold(events).registry == anchors_of(outline_fold(events).entries),
    decreases events.len(),
{
    if events.len() > 0 {
        lemma_outline_registry(events.drop_last());
        let m = outline_fold(events.drop_last());
        let m2 = outline_fold(events);
        if m2.entries.len() == m.entries.len() {
            assert(m2.registry == m.registry && m2.entries == m.entries);
        } else {
            let e = m2.entries.last();
            assert(m2.entries == m.entries.push(e));
            assert(m2.registry =~= anchors_of(m2.entries)) by {
                assert(anchors_of(m.entries.push(e)) =~= anchors_of(m.entries).push(e.anchor));
            }
        }
    }
}

/// Anchor uniqueness: however many headings a document has, and even when
/// they all share identical text, every table-of-contents entry carries its
/// own anchor.
pub proof fn lemma_anchor_uniqueness(events: Seq<EventModel>)
    ensures
        forall|i: int, j: int|
            0 <= i < j < outline_fold(events).entries.len()
                ==> #[trigger] outline_fold(events).entries[i].anchor
                != #[trigger] outline_fold(events).entries[j].anchor,
    decreases events.len(),
{
    if events.len() > 0 {
        lemma_anchor_uniqueness(events.drop_last());
        lemma_outline_registry(events.drop_last());
        let m = outline_fold(events.drop_last());
        let m2 = outline_fold(events);
        if m2.entries.len() != m.entries.len() {
            let e = m2.entries.last();
            assert(m2.entries == m.entries.push(e));
            match m.state {
                OutlineStateModel::Accumulating(level, buf) => {
                    lemma_pick_anchor_fresh(m.registry, slug_base_spec(buf));
                    assert forall|i: int| 0 <= i < m.entries.len() implies m.entries[i].anchor
                        != e.anchor by {
                        assert(m.registry[i] == m.entries[i].anchor);
                        assert(m.registry.contains(m.entries[i].anchor));
                    }
                },
                OutlineStateModel::Idle => {
                    assert(false);
                },
            }
        }
    }
}

/// One transition of the reference heading machine, which gathers only the
/// completed headings' levels and texts.
pub open spec fn headings_step(
    st: OutlineStateModel,
    hs: Seq<(u32, Seq<char>)>,
    ev: EventModel,
) -> (OutlineStateModel, Seq<(u32, Seq<char>)>) {
    match ev {
        EventModel::HeadingStart(level) => (
            OutlineStateModel::Accumulating(level, Seq::<char>::empty()),
            hs,
        ),
        EventModel::Text(t) => match st {
            OutlineStateModel::Accumulating(level, buf) => (
                OutlineStateModel::Accumulating(level, buf + t),
                hs,
            ),
            OutlineStateModel::Idle => (st, hs),
        },
        EventModel::HeadingEnd => match st {
            OutlineStateModel::Accumulating(level, buf) => (
                OutlineStateModel::Idle,
                hs.push((level, buf)),
            ),
            OutlineStateModel::Idle => (st, hs),
        },
        EventModel::Other => (st, hs),
    }
}

/// The reference heading machine run over a whole event stream.
pub open spec fn headings_fold(events: Seq<EventModel>) -> (OutlineStateModel, Seq<
    (u32, Seq<char>),
>)
    decreases events.len(),
{
    if events.len() == 0 {
        (OutlineStateModel::Idle, Seq::<(u32, Seq<char>)>::empty())
    } else {
        let prev = headings_fold(events.drop_last());
        headings_step(prev.0, prev.1, events.last())
    }
}

/// The completed headings of an event stream, in order of appearance.
pub open spec fn headings_of(events: Seq<EventModel>) -> Seq<(u32, Seq<char>)> {
    headings_fold(events).1
}

/// Order preservation: the entry sequence lists exactly the document's
/// completed headings — same levels, same texts, in their order of
/// appearance in the source.
pub proof fn lemma_order_preservation(events: Seq<EventModel>)
    ensures
        outline_fold(events).state == headings_fold(events).0,
        outline_fold(events).entries.len() == headings_of(events).len(),
        forall|i: int|
            0 <= i < headings_of(events).len()
                ==> #[trigger] outline_fold(events).entries[i].level == headings_of(events)[i].0
                && outline_fold(events).entries[i].text == headings_of(events)[i].1,
    decreases events.len(),
{
    if events.len() > 0 {
        lemma_order_preservation(events.drop_last());
        let m = outline_fold(events.drop_last());
        let h = headings_fold(events.drop_last());
        let m2 = outline_fold(events);
        let h2 = headings_fold(events);
        assert forall|i: int| 0 <= i < h2.1.len() implies m2.entries[i].level == h2.1[i].0
            && m2.entries[i].text == h2.1[i].1 by {
            if i < h.1.len() {
                assert(m2.entries[i] == m.entries[i]);
                assert(h2.1[i] == h.1[i]);
            } else {
                match m.state {
                    OutlineStateModel::Accumulating(level, buf) => {
                        assert(m2.entries[i] == entry_model(
                            level,
                            buf,
                            pick_anchor(m.registry, slug_base_spec(buf)),
                        ));
                        assert(h2.1[i] == (level, buf));
                    },
                    OutlineStateModel::Idle => {},
                }
            }
        }
    }
}

/// Orphan event tolerance: a heading end that closes no open heading is a
/// no-op — no spurious entry, no anchor taken, no fault.
pub proof fn lemma_orphan_heading_end(m: OutlineModel)
    requires
        m.state is Idle,
    ensures
        outline_step(m, EventModel::HeadingEnd) == m,
{
}

/// Level classification: an H1 entry carries the top-level indent, the bold
/// style and no prefix glyph; an H2 the secondary indent, normal weight and
/// no glyph; every level of H3 and deeper shares the nested indent, normal
/// weight and the ">" continuation glyph.
pub proof fn lemma_level_classification(level: u32, text: Seq<char>, anchor: Seq<char>)
    ensures
        level == 1 ==> li_class_spec(level) == "mt-3"@ && a_class_spec(level)
            == "font-semibold text-sm text-gray-800 dark:text-gray-200"@ && prefix_span_spec(level)
            == Seq::<char>::empty(),
        level == 2 ==> li_class_spec(level) == "mt-1"@ && a_class_spec(level)
            == "text-sm text-gray-600 dark:text-gray-400"@ && prefix_span_spec(level)
            == Seq::<char>::empty(),
        level >= 3 ==> li_class_spec(level) == "mt-1 ml-4"@ && prefix_span_spec(level)
            == "<span class=\"mr-2 text-gray-400 dark:text-gray-500\">></span>"@
            && li_markup_spec(level, text, anchor) == li_markup_spec(3, text, anchor),
{
}

} // verus!
