//! The markdown event stream and the pass over it that replaces each code
//! block by its highlighted HTML.

use pulldown_cmark::{html, CodeBlockKind, Event, Options, Parser, Tag, TagEnd};
use vstd::prelude::*;
use vstd::string::*;

use crate::markdown::{highlighted_block, MarkdownRenderer};

verus! {

/// One event of a parsed markdown document, as far as code highlighting
/// needs to tell events apart.
#[derive(Clone, Debug)]
pub enum MdEvent {
    /// The start of a code block, with the info string of a fenced block, or
    /// `None` for an indented block.
    CodeBlockStart(Option<String>),
    /// The end of a code block.
    CodeBlockEnd,
    /// A run of text.
    Text(String),
    /// Any other event.
    Other,
}

/// The mathematical value of an [`MdEvent`].
pub enum MdEventView {
    CodeBlockStart(Option<Seq<char>>),
    CodeBlockEnd,
    Text(Seq<char>),
    Other,
}

impl View for MdEvent {
    type V = MdEventView;

    open spec fn view(&self) -> MdEventView {
        match self {
            MdEvent::CodeBlockStart(info) => MdEventView::CodeBlockStart(
                match info {
                    Some(l) => Some(l@),
                    None => None,
                },
            ),
            MdEvent::CodeBlockEnd => MdEventView::CodeBlockEnd,
            MdEvent::Text(t) => MdEventView::Text(t@),
            MdEvent::Other => MdEventView::Other,
        }
    }
}

/// One piece of the HTML output: an event of the document, rendered as it
/// stands, or a fragment of raw HTML.
#[derive(Clone, Debug)]
pub enum HtmlPiece {
    /// The event at this position of the document's event stream.
    Source(usize),
    /// Raw HTML.
    Html(String),
}

/// The mathematical value of an [`HtmlPiece`].
pub enum HtmlPieceView {
    Source(nat),
    Html(Seq<char>),
}

impl View for HtmlPiece {
    type V = HtmlPieceView;

    open spec fn view(&self) -> HtmlPieceView {
        match self {
            HtmlPiece::Source(i) => HtmlPieceView::Source(*i as nat),
            HtmlPiece::Html(h) => HtmlPieceView::Html(h@),
        }
    }
}

/// The values of a sequence of events.
pub open spec fn events_view(events: Seq<MdEvent>) -> Seq<MdEventView> {
    events.map_values(|e: MdEvent| e@)
}

/// The values of a sequence of pieces.
pub open spec fn pieces_view(pieces: Seq<HtmlPiece>) -> Seq<HtmlPieceView> {
    pieces.map_values(|p: HtmlPiece| p@)
}

/// The event stream of `markdown`: one entry per event that pulldown-cmark's
/// parser yields for it (with tables, footnotes, strikethrough, task lists,
/// smart punctuation and heading attributes enabled), in order.
pub uninterp spec fn markdown_events(markdown: Seq<char>) -> Seq<MdEventView>;

/// The HTML that pulldown-cmark's `push_html` writes for the events of
/// `markdown` arranged as `pieces` say.
pub uninterp spec fn markdown_html(markdown: Seq<char>, pieces: Seq<HtmlPieceView>) -> Seq<char>;

/// Whether every `Source` piece names an event of a stream of `n` events.
pub open spec fn sources_below(pieces: Seq<HtmlPieceView>, n: nat) -> bool {
    forall|i: int|
        0 <= i < pieces.len() ==> (#[trigger] pieces[i] matches HtmlPieceView::Source(k) ==> k < n)
}

/// Parses `markdown` with `pulldown_cmark::Parser::new_ext` (tables,
/// footnotes, strikethrough, task lists, smart punctuation and heading
/// attributes enabled) and keeps, for each event in order, what code
/// highlighting reads of it. The contract says only that the result is the
/// event stream of `markdown`, which the parser determines.
#[verifier::external_body]
pub(crate) fn parse_events(markdown: &str) -> (events: Vec<MdEvent>)
    ensures
        events_view(events@) == markdown_events(markdown@),
{
    let options = Options::ENABLE_STRIKETHROUGH | Options::ENABLE_TABLES
        | Options::ENABLE_FOOTNOTES | Options::ENABLE_TASKLISTS
        | Options::ENABLE_SMART_PUNCTUATION | Options::ENABLE_HEADING_ATTRIBUTES;
    Parser::new_ext(markdown, options).map(|event| match event {
        Event::Start(Tag::CodeBlock(CodeBlockKind::Fenced(l))) => MdEvent::CodeBlockStart(Some(l.to_string())),
        Event::Start(Tag::CodeBlock(CodeBlockKind::Indented)) => MdEvent::CodeBlockStart(None),
        Event::End(TagEnd::CodeBlock) => MdEvent::CodeBlockEnd,
        Event::Text(t) => MdEvent::Text(t.to_string()),
        _ => MdEvent::Other,
    }).collect()
}

/// Writes HTML with `pulldown_cmark::html::push_html` into an empty string,
/// for the events of `markdown` (parsed as in `parse_events`) arranged as
/// `pieces` say: `Source(i)` is the `i`-th event, `Html(h)` an HTML event of
/// `h`. The contract says only that the result is the HTML of those events.
#[verifier::external_body]
pub(crate) fn render_pieces(markdown: &str, pieces: &Vec<HtmlPiece>) -> (html: String)
    requires
        sources_below(pieces_view(pieces@), markdown_events(markdown@).len()),
    ensures
        html@ == markdown_html(markdown@, pieces_view(pieces@)),
{
    let options = Options::ENABLE_STRIKETHROUGH | Options::ENABLE_TABLES
        | Options::ENABLE_FOOTNOTES | Options::ENABLE_TASKLISTS
        | Options::ENABLE_SMART_PUNCTUATION | Options::ENABLE_HEADING_ATTRIBUTES;
    let source: Vec<Event> = Parser::new_ext(markdown, options).collect();
    let mut out = String::new();
    html::push_html(&mut out, pieces.iter().map(|piece| match piece {
        HtmlPiece::Source(i) => source[*i].clone(),
        HtmlPiece::Html(h) => Event::Html(h.clone().into()),
    }));
    out
}

// ---------------------------------------------------------------------------
// The highlighting pass
// ---------------------------------------------------------------------------

/// What the highlighting pass remembers between events.
pub struct HighlightState {
    /// Inside a code block.
    pub in_code: bool,
    /// The language of the current code block.
    pub lang: Option<Seq<char>>,
    /// The text of the current code block so far.
    pub buffer: Seq<char>,
}

/// The state before the first event.
pub open spec fn initial_state() -> HighlightState {
    HighlightState { in_code: false, lang: None, buffer: seq![] }
}

/// The language of a code block: the fence's info string, or `text` for an
/// empty info string or an indented block.
pub open spec fn fence_lang(info: Option<Seq<char>>) -> Seq<char> {
    match info {
        Some(l) => if l.len() == 0 {
            "text"@
        } else {
            l
        },
        None => "text"@,
    }
}

/// The language a closing code block is highlighted as.
pub open spec fn block_lang(s: HighlightState) -> Seq<char> {
    match s.lang {
        Some(l) => l,
        None => "text"@,
    }
}

/// The state after event `e`.
pub open spec fn next_state(s: HighlightState, e: MdEventView) -> HighlightState {
    match e {
        MdEventView::CodeBlockStart(info) => HighlightState {
            in_code: true,
            lang: Some(fence_lang(info)),
            buffer: seq![],
        },
        MdEventView::CodeBlockEnd => HighlightState { in_code: false, lang: None, buffer: seq![] },
        MdEventView::Text(t) => if s.in_code {
            HighlightState { in_code: s.in_code, lang: s.lang, buffer: s.buffer + t }
        } else {
            s
        },
        MdEventView::Other => s,
    }
}

/// The pieces that event `e`, at position `index`, adds to the output: none
/// for the start of a code block or text inside one; the code block's
/// highlighted HTML at its end; the event itself otherwise.
pub open spec fn emitted(s: HighlightState, e: MdEventView, index: nat) -> Seq<HtmlPieceView> {
    match e {
        MdEventView::CodeBlockStart(_) => seq![],
        MdEventView::CodeBlockEnd => seq![
            HtmlPieceView::Html(highlighted_block(s.buffer, block_lang(s))),
        ],
        MdEventView::Text(_) => if s.in_code {
            seq![]
        } else {
            seq![HtmlPieceView::Source(index)]
        },
        MdEventView::Other => seq![HtmlPieceView::Source(index)],
    }
}

/// The number of code blocks that `events` closes.
pub open spec fn closings(events: Seq<MdEventView>) -> nat
    decreases events.len(),
{
    if events.len() == 0 {
        0
    } else {
        closings(events.drop_last()) + if events.last() is CodeBlockEnd {
            1nat
        } else {
            0nat
        }
    }
}

/// The state after `events` and the pieces they produce.
pub open spec fn highlight_run(events: Seq<MdEventView>) -> (HighlightState, Seq<HtmlPieceView>)
    decreases events.len(),
{
    if events.len() == 0 {
        (initial_state(), seq![])
    } else {
        let prev = highlight_run(events.drop_last());
        (
            next_state(prev.0, events.last()),
            prev.1 + emitted(prev.0, events.last(), (events.len() - 1) as nat),
        )
    }
}

/// The pieces of a document with the event stream `events`.
pub open spec fn highlighted_pieces(events: Seq<MdEventView>) -> Seq<HtmlPieceView> {
    highlight_run(events).1
}

/// The number of HTML fragments among `pieces`.
pub open spec fn fragments(pieces: Seq<HtmlPieceView>) -> nat
    decreases pieces.len(),
{
    if pieces.len() == 0 {
        0
    } else {
        fragments(pieces.drop_last()) + if pieces.last() is Html {
            1nat
        } else {
            0nat
        }
    }
}

/// `fragments` adds up over concatenation.
proof fn lemma_fragments_concat(a: Seq<HtmlPieceView>, b: Seq<HtmlPieceView>)
    ensures
        fragments(a + b) == fragments(a) + fragments(b),
    decreases b.len(),
{
    if b.len() == 0 {
        assert(a + b =~= a);
    } else {
        lemma_fragments_concat(a, b.drop_last());
        assert((a + b).drop_last() =~= a + b.drop_last());
    }
}

/// The highlighting pass replaces each code block by exactly one HTML
/// fragment, and keeps every other event as itself, in order: the output
/// has one fragment per closed code block, and the events it keeps appear
/// at increasing positions.
pub proof fn law_one_fragment_per_code_block(events: Seq<MdEventView>)
    ensures
        fragments(highlighted_pieces(events)) == closings(events),
        forall|a: int, b: int|
            0 <= a < b < highlighted_pieces(events).len()
                && (#[trigger] highlighted_pieces(events)[a]) is Source
                && (#[trigger] highlighted_pieces(events)[b]) is Source
                ==> highlighted_pieces(events)[a]->Source_0
                < highlighted_pieces(events)[b]->Source_0,
        forall|a: int|
            0 <= a < highlighted_pieces(events).len()
                && (#[trigger] highlighted_pieces(events)[a]) is Source
                ==> highlighted_pieces(events)[a]->Source_0 < events.len(),
    decreases events.len(),
{
    if events.len() > 0 {
        let init = events.drop_last();
        law_one_fragment_per_code_block(init);
        let prev = highlight_run(init);
        let n = (events.len() - 1) as nat;
        let e = emitted(prev.0, events.last(), n);
        lemma_fragments_concat(prev.1, e);
        if e.len() > 0 {
            assert(e.drop_last() =~= Seq::<HtmlPieceView>::empty());
            assert(fragments(e.drop_last()) == 0);
        }
        assert(fragments(e) == if events.last() is CodeBlockEnd {
            1nat
        } else {
            0nat
        });
        let all = prev.1 + e;
        assert(highlighted_pieces(events) == all);
        assert forall|a: int, b: int|
            0 <= a < b < all.len() && (#[trigger] all[a]) is Source && (#[trigger] all[b]) is Source
                implies all[a]->Source_0 < all[b]->Source_0 by {
            if b >= prev.1.len() {
                assert(all[b] == e[b - prev.1.len()]);
                if a < prev.1.len() {
                    assert(all[a] == prev.1[a]);
                }
            } else {
                assert(all[a] == prev.1[a]);
                assert(all[b] == prev.1[b]);
            }
        }
        assert forall|a: int| 0 <= a < all.len() && (#[trigger] all[a]) is Source implies all[a]->Source_0 < events.len() by {
            if a < prev.1.len() {
                assert(all[a] == prev.1[a]);
            } else {
                assert(all[a] == e[a - prev.1.len()]);
            }
        }
    }
}

/// The texts of a run of text events, joined in order.
pub open spec fn joined(texts: Seq<Seq<char>>) -> Seq<char>
    decreases texts.len(),
{
    if texts.len() == 0 {
        seq![]
    } else {
        joined(texts.drop_last()) + texts.last()
    }
}

/// The events of a code block: its start with info string `info`, a text
/// event for each of `texts`, and its end.
pub open spec fn code_block_events(info: Option<Seq<char>>, texts: Seq<Seq<char>>) -> Seq<MdEventView> {
    seq![MdEventView::CodeBlockStart(info)] + texts.map_values(|t: Seq<char>| MdEventView::Text(t))
        + seq![MdEventView::CodeBlockEnd]
}

/// Inside a code block, the first `k` text events only gather their text.
proof fn lemma_code_block_texts(
    before: Seq<MdEventView>,
    info: Option<Seq<char>>,
    texts: Seq<Seq<char>>,
    k: int,
)
    requires
        0 <= k <= texts.len(),
    ensures
        highlight_run(
            before + seq![MdEventView::CodeBlockStart(info)] + texts.map_values(
                |t: Seq<char>| MdEventView::Text(t),
            ).take(k),
        ) == (
            HighlightState { in_code: true, lang: Some(fence_lang(info)), buffer: joined(texts.take(k)) },
            highlight_run(before).1,
        ),
    decreases k,
{
    let start = before + seq![MdEventView::CodeBlockStart(info)];
    let tmap = texts.map_values(|t: Seq<char>| MdEventView::Text(t));
    if k == 0 {
        assert(start + tmap.take(0) =~= start);
        assert(start.drop_last() =~= before);
        assert(texts.take(0) =~= Seq::<Seq<char>>::empty());
        assert(highlight_run(before).1 + Seq::<HtmlPieceView>::empty() =~= highlight_run(before).1);
    } else {
        lemma_code_block_texts(before, info, texts, k - 1);
        let evs = start + tmap.take(k);
        assert(evs.drop_last() =~= start + tmap.take(k - 1));
        assert(evs.last() == MdEventView::Text(texts[k - 1]));
        assert(texts.take(k).drop_last() =~= texts.take(k - 1));
        let prev = highlight_run(start + tmap.take(k - 1)).1;
        assert(prev + Seq::<HtmlPieceView>::empty() =~= prev);
    }
}

/// The highlighting pass turns a code block into exactly one HTML fragment:
/// after any events, the start of a code block, its text events and its end
/// add one piece, the block's joined text highlighted in the fence's
/// language (`text` for an indented block or an empty info string), and
/// none of the text events themselves; afterwards the pass is outside any
/// code block and carries no code over.
pub proof fn law_code_block_becomes_one_fragment(
    before: Seq<MdEventView>,
    info: Option<Seq<char>>,
    texts: Seq<Seq<char>>,
)
    ensures
        highlight_run(before + code_block_events(info, texts)) == (
            initial_state(),
            highlight_run(before).1.push(
                HtmlPieceView::Html(highlighted_block(joined(texts), fence_lang(info))),
            ),
        ),
{
    let tmap = texts.map_values(|t: Seq<char>| MdEventView::Text(t));
    lemma_code_block_texts(before, info, texts, texts.len() as int);
    assert(tmap.take(texts.len() as int) =~= tmap);
    assert(texts.take(texts.len() as int) =~= texts);
    let evs = before + code_block_events(info, texts);
    assert(evs.drop_last() =~= before + seq![MdEventView::CodeBlockStart(info)] + tmap);
    assert(evs.last() == MdEventView::CodeBlockEnd);
}

/// The exec state of the highlighting pass.
pub(crate) struct SyntaxHighlighter {
    in_code_block: bool,
    code_lang: Option<String>,
    code_buffer: String,
}

impl View for SyntaxHighlighter {
    type V = HighlightState;

    closed spec fn view(&self) -> HighlightState {
        HighlightState {
            in_code: self.in_code_block,
            lang: match self.code_lang {
                Some(l) => Some(l@),
                None => None,
            },
            buffer: self.code_buffer@,
        }
    }
}

impl SyntaxHighlighter {
    pub(crate) fn new() -> (h: Self)
        ensures
            h@ == initial_state(),
    {
        SyntaxHighlighter { in_code_block: false, code_lang: None, code_buffer: String::new() }
    }

    /// Takes event `event`, at position `index`, and returns the piece it
    /// adds to the output, if any.
    pub(crate) fn next_piece(&mut self, renderer: &MarkdownRenderer, index: usize, event: &MdEvent) -> (piece: Option<HtmlPiece>)
        ensures
            final(self)@ == next_state(old(self)@, event@),
            emitted(old(self)@, event@, index as nat) == match piece {
                Some(p) => seq![p@],
                None => Seq::<HtmlPieceView>::empty(),
            },
    {
        let ghost s = self@;
        match event {
            MdEvent::CodeBlockStart(info) => {
                self.in_code_block = true;
                self.code_buffer = String::new();
                let text = "text";
                self.code_lang = match info {
                    Some(l) => if l.as_str().is_empty() {
                        Some(text.to_owned())
                    } else {
                        Some(l.clone())
                    },
                    None => Some(text.to_owned()),
                };
                assert(emitted(s, event@, index as nat) == Seq::<HtmlPieceView>::empty());
                None
            },
            MdEvent::CodeBlockEnd => {
                self.in_code_block = false;
                let lang = match &self.code_lang {
                    Some(l) => l.clone(),
                    None => "text".to_owned(),
                };
                self.code_lang = None;
                let highlighted = renderer.highlight_code(self.code_buffer.as_str(), lang.as_str());
                self.code_buffer = String::new();
                assert(emitted(s, event@, index as nat) == seq![HtmlPiece::Html(highlighted)@]);
                Some(HtmlPiece::Html(highlighted))
            },
            MdEvent::Text(t) => {
                if self.in_code_block {
                    self.code_buffer.append(t.as_str());
                    assert(emitted(s, event@, index as nat) == Seq::<HtmlPieceView>::empty());
                    None
                } else {
                    assert(emitted(s, event@, index as nat) == seq![HtmlPiece::Source(index)@]);
                    Some(HtmlPiece::Source(index))
                }
            },
            MdEvent::Other => {
                assert(emitted(s, event@, index as nat) == seq![HtmlPiece::Source(index)@]);
                Some(HtmlPiece::Source(index))
            },
        }
    }
}

} // verus!
