//! Lesson markdown: the events the markdown parser reports, and the content blocks a lesson
//! is shown as, with hints (H2 headings starting with "Hint - ") collected into collapsible
//! blocks.

use crate::text::{has_prefix, owned, trimmed, trim};
use pulldown_cmark::{CodeBlockKind, Parser, Tag, TagEnd};
use vstd::prelude::*;
use vstd::string::*;

verus! {

#[verifier::external_type_specification]
#[verifier::external_body]
pub struct ExEvent<'a>(pulldown_cmark::Event<'a>);

#[verifier::external_type_specification]
#[verifier::external_body]
pub struct ExTag<'a>(Tag<'a>);

/// A markdown event, holding what the lesson view reads of it.
#[derive(Clone, Debug)]
pub enum MdEvent {
    StartHeading(u8),
    EndHeading,
    StartParagraph,
    EndParagraph,
    StartItem,
    EndItem,
    /// The start of a code block: the info string of a fenced block, or none for an indented one.
    StartCodeBlock(Option<String>),
    EndCodeBlock,
    Text(String),
    Code(String),
    SoftBreak,
    HardBreak,
    Other,
}

/// A markdown event with its text taken by value.
pub enum MdEventView {
    StartHeading(u8),
    EndHeading,
    StartParagraph,
    EndParagraph,
    StartItem,
    EndItem,
    StartCodeBlock(Option<Seq<char>>),
    EndCodeBlock,
    Text(Seq<char>),
    Code(Seq<char>),
    SoftBreak,
    HardBreak,
    Other,
}

impl View for MdEvent {
    type V = MdEventView;

    open spec fn view(&self) -> MdEventView {
        match self {
            MdEvent::StartHeading(l) => MdEventView::StartHeading(*l),
            MdEvent::EndHeading => MdEventView::EndHeading,
            MdEvent::StartParagraph => MdEventView::StartParagraph,
            MdEvent::EndParagraph => MdEventView::EndParagraph,
            MdEvent::StartItem => MdEventView::StartItem,
            MdEvent::EndItem => MdEventView::EndItem,
            MdEvent::StartCodeBlock(l) => MdEventView::StartCodeBlock(
                match l {
                    Some(s) => Some(s@),
                    None => None,
                },
            ),
            MdEvent::EndCodeBlock => MdEventView::EndCodeBlock,
            MdEvent::Text(s) => MdEventView::Text(s@),
            MdEvent::Code(s) => MdEventView::Code(s@),
            MdEvent::SoftBreak => MdEventView::SoftBreak,
            MdEvent::HardBreak => MdEventView::HardBreak,
            MdEvent::Other => MdEventView::Other,
        }
    }
}

/// The events of a sequence, by value.
pub open spec fn events_view(s: Seq<MdEvent>) -> Seq<MdEventView> {
    Seq::new(s.len(), |i: int| s[i]@)
}

/// The events the markdown parser reports for a text.
pub uninterp spec fn markdown_events(text: Seq<char>) -> Seq<MdEventView>;

/// Converts a start tag of the markdown parser into the event read here.
#[verifier::external_body]
fn start_event(tag: Tag) -> MdEvent {
    match tag {
        Tag::Heading { level, .. } => MdEvent::StartHeading(level as u8),
        Tag::Paragraph => MdEvent::StartParagraph,
        Tag::Item => MdEvent::StartItem,
        Tag::CodeBlock(CodeBlockKind::Fenced(lang)) => MdEvent::StartCodeBlock(Some(lang.into_string())),
        Tag::CodeBlock(CodeBlockKind::Indented) => MdEvent::StartCodeBlock(None),
        _ => MdEvent::Other,
    }
}

/// Converts an event of the markdown parser into the event read here.
#[verifier::external_body]
fn md_event(event: pulldown_cmark::Event) -> MdEvent {
    match event {
        pulldown_cmark::Event::Start(tag) => start_event(tag),
        pulldown_cmark::Event::End(TagEnd::Heading(_)) => MdEvent::EndHeading,
        pulldown_cmark::Event::End(TagEnd::Paragraph) => MdEvent::EndParagraph,
        pulldown_cmark::Event::End(TagEnd::Item) => MdEvent::EndItem,
        pulldown_cmark::Event::End(TagEnd::CodeBlock) => MdEvent::EndCodeBlock,
        pulldown_cmark::Event::Text(text) => MdEvent::Text(text.into_string()),
        pulldown_cmark::Event::Code(code) => MdEvent::Code(code.into_string()),
        pulldown_cmark::Event::SoftBreak => MdEvent::SoftBreak,
        pulldown_cmark::Event::HardBreak => MdEvent::HardBreak,
        _ => MdEvent::Other,
    }
}

/// Runs `pulldown_cmark::Parser` over a text and collects its events; the result is named
/// `markdown_events`.
#[verifier::external_body]
pub(crate) fn parse_events(markdown: &str) -> (r: Vec<MdEvent>)
    ensures
        events_view(r@) == markdown_events(markdown@),
{
    Parser::new(markdown).map(md_event).collect()
}


/// A heading content block (H1, H2, H3, etc.)
#[derive(Clone, Debug)]
pub struct Heading {
    pub level: u8,
    pub text: String,
}

/// A paragraph content block
#[derive(Clone, Debug)]
pub struct ParagraphBlock {
    pub text: String,
}

/// A list item content block
#[derive(Clone, Debug)]
pub struct ListItem {
    pub text: String,
    pub indent_level: u8,
}

/// A code block content block
#[derive(Clone, Debug)]
pub struct CodeBlock {
    pub language: Option<String>,
    pub code: String,
}

/// Enum representing different types of content blocks
#[derive(Debug)]
pub enum Content {
    Heading(Heading),
    Paragraph(ParagraphBlock),
    ListItem(ListItem),
    CodeBlock(CodeBlock),
    Hint(Hint),
}

/// A hint content block that can be collapsed or expanded
#[derive(Debug)]
pub struct Hint {
    pub title: String,
    pub content: Vec<Content>,
    pub expanded: bool,
}

impl Hint {
    /// Toggle the expanded state of the hint
    pub fn toggle(&mut self)
        ensures
            final(self).title == old(self).title,
            final(self).content == old(self).content,
            final(self).expanded == !old(self).expanded,
    {
        self.expanded = !self.expanded;
    }

    /// Create a new collapsed hint
    pub fn new(title: String, content: Vec<Content>) -> (r: Self)
        ensures
            r.title == title,
            r.content == content,
            !r.expanded,
    {
        Hint { title, content, expanded: false }
    }
}

/// A content block with its text taken by value.
pub enum ContentView {
    Heading { level: u8, text: Seq<char> },
    Paragraph { text: Seq<char> },
    ListItem { text: Seq<char>, indent_level: u8 },
    CodeBlock { language: Option<Seq<char>>, code: Seq<char> },
    Hint { title: Seq<char>, content: Seq<ContentView>, expanded: bool },
}

/// An optional string, by value.
pub open spec fn opt_view(o: Option<String>) -> Option<Seq<char>> {
    match o {
        Some(s) => Some(s@),
        None => None,
    }
}

/// A content block, by value.
pub open spec fn content_view(c: Content) -> ContentView
    decreases c,
{
    match c {
        Content::Heading(h) => ContentView::Heading { level: h.level, text: h.text@ },
        Content::Paragraph(p) => ContentView::Paragraph { text: p.text@ },
        Content::ListItem(l) => ContentView::ListItem { text: l.text@, indent_level: l.indent_level },
        Content::CodeBlock(b) => ContentView::CodeBlock { language: opt_view(b.language), code: b.code@ },
        Content::Hint(h) => ContentView::Hint {
            title: h.title@,
            content: contents_view(h.content@),
            expanded: h.expanded,
        },
    }
}

/// A sequence of content blocks, by value.
pub open spec fn contents_view(s: Seq<Content>) -> Seq<ContentView>
    decreases s,
{
    if s.len() == 0 {
        Seq::empty()
    } else {
        contents_view(s.subrange(0, s.len() - 1)).push(content_view(s[s.len() - 1]))
    }
}

/// Viewing a sequence one block longer adds the view of that block.
pub proof fn lemma_contents_view_push(s: Seq<Content>, c: Content)
    ensures
        contents_view(s.push(c)) == contents_view(s).push(content_view(c)),
{
    assert(s.push(c).subrange(0, s.len() as int) =~= s);
}

/// Viewing a sequence keeps its length.
pub proof fn lemma_contents_view_len(s: Seq<Content>)
    ensures
        contents_view(s).len() == s.len(),
    decreases s.len(),
{
    if s.len() > 0 {
        lemma_contents_view_len(s.subrange(0, s.len() - 1));
    }
}

/// The view of a block at a position of a sequence.
pub proof fn lemma_contents_view_index(s: Seq<Content>, i: int)
    requires
        0 <= i < s.len(),
    ensures
        contents_view(s).len() == s.len(),
        contents_view(s)[i] == content_view(s[i]),
    decreases s.len(),
{
    lemma_contents_view_len(s);
    if i < s.len() - 1 {
        lemma_contents_view_index(s.subrange(0, s.len() - 1), i);
    }
}

/// The state of reading a lesson's markdown events.
pub struct ParseState {
    pub blocks: Seq<ContentView>,
    pub text: Seq<char>,
    pub in_heading: bool,
    pub heading_level: u8,
    pub in_paragraph: bool,
    pub in_list_item: bool,
    pub in_code_block: bool,
    pub code_language: Option<Seq<char>>,
    pub code_content: Seq<char>,
    pub collecting_hint: bool,
    pub hint_title: Seq<char>,
    pub hint_content: Seq<ContentView>,
}

/// The state before any event has been read.
pub open spec fn initial_parse_state() -> ParseState {
    ParseState {
        blocks: Seq::empty(),
        text: Seq::empty(),
        in_heading: false,
        heading_level: 1,
        in_paragraph: false,
        in_list_item: false,
        in_code_block: false,
        code_language: None,
        code_content: Seq::empty(),
        collecting_hint: false,
        hint_title: Seq::empty(),
        hint_content: Seq::empty(),
    }
}

/// The hint being collected is complete: its block, collapsed.
pub open spec fn finished_hint(st: ParseState) -> ContentView {
    ContentView::Hint { title: st.hint_title, content: st.hint_content, expanded: false }
}

/// A completed block goes into the hint being collected, or else into the lesson.
pub open spec fn add_block(st: ParseState, b: ContentView) -> ParseState {
    if st.collecting_hint {
        ParseState { hint_content: st.hint_content.push(b), ..st }
    } else {
        ParseState { blocks: st.blocks.push(b), ..st }
    }
}

/// A heading is a hint heading: an H2 whose text starts with "Hint - ".
pub open spec fn is_hint_heading(level: u8, text: Seq<char>) -> bool {
    level == 2 && crate::text::starts_with(text, "Hint - "@)
}

/// The state after a heading ends.
pub open spec fn end_heading(st: ParseState) -> ParseState {
    let t = trimmed(st.text);
    let pending = st.collecting_hint && st.hint_title.len() > 0;
    let st1 = if pending {
        ParseState { blocks: st.blocks.push(finished_hint(st)), hint_content: Seq::empty(), ..st }
    } else {
        st
    };
    let st2 = if is_hint_heading(st.heading_level, t) {
        ParseState {
            collecting_hint: true,
            hint_title: t.subrange("Hint - "@.len() as int, t.len() as int),
            ..st1
        }
    } else {
        ParseState {
            collecting_hint: if pending { false } else { st1.collecting_hint },
            blocks: st1.blocks.push(ContentView::Heading { level: st.heading_level, text: t }),
            ..st1
        }
    };
    ParseState { in_heading: false, text: Seq::empty(), ..st2 }
}

/// How one markdown event changes the state.
pub open spec fn parse_step(st: ParseState, e: MdEventView) -> ParseState {
    match e {
        MdEventView::StartHeading(level) => ParseState {
            in_heading: true,
            heading_level: level,
            text: Seq::empty(),
            ..st
        },
        MdEventView::EndHeading => if st.in_heading {
            end_heading(st)
        } else {
            st
        },
        MdEventView::StartParagraph => ParseState { in_paragraph: true, text: Seq::empty(), ..st },
        MdEventView::EndParagraph => {
            let st1 = if st.in_paragraph && trimmed(st.text).len() > 0 {
                add_block(st, ContentView::Paragraph { text: trimmed(st.text) })
            } else {
                st
            };
            ParseState { in_paragraph: false, text: Seq::empty(), ..st1 }
        },
        MdEventView::StartItem => ParseState { in_list_item: true, text: Seq::empty(), ..st },
        MdEventView::EndItem => {
            let st1 = if st.in_list_item && trimmed(st.text).len() > 0 {
                add_block(st, ContentView::ListItem { text: trimmed(st.text), indent_level: 0 })
            } else {
                st
            };
            ParseState { in_list_item: false, text: Seq::empty(), ..st1 }
        },
        MdEventView::StartCodeBlock(lang) => ParseState {
            in_code_block: true,
            code_language: match lang {
                Some(l) => if l.len() == 0 {
                    None
                } else {
                    Some(l)
                },
                None => None,
            },
            code_content: Seq::empty(),
            ..st
        },
        MdEventView::EndCodeBlock => {
            let st1 = if st.in_code_block {
                add_block(
                    st,
                    ContentView::CodeBlock { language: st.code_language, code: st.code_content },
                )
            } else {
                st
            };
            ParseState { in_code_block: false, code_language: None, code_content: Seq::empty(), ..st1 }
        },
        MdEventView::Text(t) => if st.in_code_block {
            ParseState { code_content: st.code_content + t, ..st }
        } else {
            ParseState { text: st.text + t, ..st }
        },
        MdEventView::Code(c) => ParseState { text: st.text + "`"@ + c + "`"@, ..st },
        MdEventView::SoftBreak | MdEventView::HardBreak => if st.in_code_block {
            ParseState { code_content: st.code_content + "\n"@, ..st }
        } else if st.text.len() > 0 {
            ParseState { text: st.text + " "@, ..st }
        } else {
            st
        },
        MdEventView::Other => st,
    }
}

/// The state after reading a sequence of events.
pub open spec fn parse_run(st: ParseState, events: Seq<MdEventView>) -> ParseState
    decreases events.len(),
{
    if events.len() == 0 {
        st
    } else {
        parse_step(parse_run(st, events.subrange(0, events.len() - 1)), events[events.len() - 1])
    }
}

/// The lesson's blocks once every event has been read: a hint still being collected is
/// completed.
pub open spec fn parse_finish(st: ParseState) -> Seq<ContentView> {
    if st.collecting_hint && st.hint_title.len() > 0 {
        st.blocks.push(finished_hint(st))
    } else {
        st.blocks
    }
}

/// The content blocks a sequence of markdown events makes.
pub open spec fn blocks_of(events: Seq<MdEventView>) -> Seq<ContentView> {
    parse_finish(parse_run(initial_parse_state(), events))
}

/// A block that can stand inside a hint: a paragraph, a list item or a code block.
pub open spec fn flat_block(c: ContentView) -> bool {
    c is Paragraph || c is ListItem || c is CodeBlock
}

/// A block is no hint, or a hint that holds only blocks that can stand inside one.
pub open spec fn hint_holds_flat(c: ContentView) -> bool {
    c is Hint ==> forall|j: int|
        0 <= j < c->Hint_content.len() ==> flat_block(#[trigger] c->Hint_content[j])
}

/// The parser's hint being collected and every block so far keep hints flat.
spec fn state_keeps_hints_flat(st: ParseState) -> bool {
    &&& forall|j: int| 0 <= j < st.hint_content.len() ==> flat_block(#[trigger] st.hint_content[j])
    &&& forall|i: int| 0 <= i < st.blocks.len() ==> hint_holds_flat(#[trigger] st.blocks[i])
}

proof fn lemma_step_keeps_hints_flat(st: ParseState, e: MdEventView)
    requires
        state_keeps_hints_flat(st),
    ensures
        state_keeps_hints_flat(parse_step(st, e)),
{
    let r = parse_step(st, e);
    assert forall|i: int| 0 <= i < r.blocks.len() implies hint_holds_flat(#[trigger] r.blocks[i]) by {
        if i < st.blocks.len() {
            assert(r.blocks[i] == st.blocks[i]);
        }
    }
    assert forall|j: int| 0 <= j < r.hint_content.len() implies flat_block(#[trigger] r.hint_content[j]) by {
        if j < st.hint_content.len() {
            assert(r.hint_content[j] == st.hint_content[j]);
        }
    }
}

proof fn lemma_run_keeps_hints_flat(events: Seq<MdEventView>)
    ensures
        state_keeps_hints_flat(parse_run(initial_parse_state(), events)),
    decreases events.len(),
{
    if events.len() > 0 {
        lemma_run_keeps_hints_flat(events.subrange(0, events.len() - 1));
        lemma_step_keeps_hints_flat(
            parse_run(initial_parse_state(), events.subrange(0, events.len() - 1)),
            events[events.len() - 1],
        );
    }
}

/// A hint holds only paragraphs, list items and code blocks: the next heading, of any kind,
/// ends it, so no heading and no other hint is ever inside one.
pub proof fn lemma_hints_hold_no_headings(events: Seq<MdEventView>)
    ensures
        forall|i: int|
            0 <= i < blocks_of(events).len() ==> hint_holds_flat(#[trigger] blocks_of(events)[i]),
{
    lemma_run_keeps_hints_flat(events);
    let st = parse_run(initial_parse_state(), events);
    assert forall|i: int| 0 <= i < parse_finish(st).len() implies hint_holds_flat(
        #[trigger] parse_finish(st)[i],
    ) by {
        if i < st.blocks.len() {
            assert(parse_finish(st)[i] == st.blocks[i]);
        }
    }
}

/// The running state of the parser, in values the program holds.
struct BlockParser {
    blocks: Vec<Content>,
    text: String,
    in_heading: bool,
    heading_level: u8,
    in_paragraph: bool,
    in_list_item: bool,
    in_code_block: bool,
    code_language: Option<String>,
    code_content: String,
    collecting_hint: bool,
    hint_title: String,
    hint_content: Vec<Content>,
}

impl View for BlockParser {
    type V = ParseState;

    closed spec fn view(&self) -> ParseState {
        ParseState {
            blocks: contents_view(self.blocks@),
            text: self.text@,
            in_heading: self.in_heading,
            heading_level: self.heading_level,
            in_paragraph: self.in_paragraph,
            in_list_item: self.in_list_item,
            in_code_block: self.in_code_block,
            code_language: opt_view(self.code_language),
            code_content: self.code_content@,
            collecting_hint: self.collecting_hint,
            hint_title: self.hint_title@,
            hint_content: contents_view(self.hint_content@),
        }
    }
}

impl BlockParser {
    fn add_block(&mut self, b: Content)
        ensures
            final(self)@ == add_block(old(self)@, content_view(b)),
    {
        proof {
            lemma_contents_view_push(self.blocks@, b);
            lemma_contents_view_push(self.hint_content@, b);
        }
        if self.collecting_hint {
            self.hint_content.push(b);
        } else {
            self.blocks.push(b);
        }
    }

    fn finish_hint(&mut self)
        requires
            old(self).collecting_hint,
        ensures
            final(self)@ == (ParseState {
                blocks: old(self)@.blocks.push(finished_hint(old(self)@)),
                hint_content: Seq::empty(),
                ..old(self)@
            }),
    {
        let mut content: Vec<Content> = Vec::new();
        std::mem::swap(&mut content, &mut self.hint_content);
        let hint = Content::Hint(Hint::new(self.hint_title.clone(), content));
        proof {
            lemma_contents_view_push(self.blocks@, hint);
            assert(contents_view(Seq::<Content>::empty()) =~= Seq::<ContentView>::empty());
        }
        self.blocks.push(hint);
    }

    fn end_heading(&mut self)
        requires
            old(self).in_heading,
        ensures
            final(self)@ == end_heading(old(self)@),
    {
        let t = trim(self.text.as_str());
        let pending = self.collecting_hint && self.hint_title.unicode_len() > 0;
        if pending {
            self.finish_hint();
        }
        if self.heading_level == 2 && has_prefix(t.as_str(), "Hint - ") {
            self.collecting_hint = true;
            self.hint_title = owned(t.as_str().substring_char("Hint - ".unicode_len(), t.as_str().unicode_len()));
        } else {
            if pending {
                self.collecting_hint = false;
            }
            let h = Content::Heading(Heading { level: self.heading_level, text: t });
            proof {
                lemma_contents_view_push(self.blocks@, h);
            }
            self.blocks.push(h);
        }
        self.in_heading = false;
        self.text = String::new();
    }

    fn step(&mut self, e: &MdEvent)
        ensures
            final(self)@ == parse_step(old(self)@, e@),
    {
        match e {
            MdEvent::StartHeading(level) => {
                self.in_heading = true;
                self.heading_level = *level;
                self.text = String::new();
            },
            MdEvent::EndHeading => {
                if self.in_heading {
                    self.end_heading();
                }
            },
            MdEvent::StartParagraph => {
                self.in_paragraph = true;
                self.text = String::new();
            },
            MdEvent::EndParagraph => {
                let t = trim(self.text.as_str());
                if self.in_paragraph && t.as_str().unicode_len() > 0 {
                    self.add_block(Content::Paragraph(ParagraphBlock { text: t }));
                }
                self.in_paragraph = false;
                self.text = String::new();
            },
            MdEvent::StartItem => {
                self.in_list_item = true;
                self.text = String::new();
            },
            MdEvent::EndItem => {
                let t = trim(self.text.as_str());
                if self.in_list_item && t.as_str().unicode_len() > 0 {
                    self.add_block(Content::ListItem(ListItem { text: t, indent_level: 0 }));
                }
                self.in_list_item = false;
                self.text = String::new();
            },
            MdEvent::StartCodeBlock(lang) => {
                self.in_code_block = true;
                self.code_language = match lang {
                    Some(l) => if l.as_str().unicode_len() == 0 {
                        None
                    } else {
                        Some(l.clone())
                    },
                    None => None,
                };
                self.code_content = String::new();
            },
            MdEvent::EndCodeBlock => {
                if self.in_code_block {
                    let mut language: Option<String> = None;
                    std::mem::swap(&mut language, &mut self.code_language);
                    let mut code = String::new();
                    std::mem::swap(&mut code, &mut self.code_content);
                    self.add_block(Content::CodeBlock(CodeBlock { language, code }));
                }
                self.in_code_block = false;
                self.code_language = None;
                self.code_content = String::new();
            },
            MdEvent::Text(t) => {
                if self.in_code_block {
                    self.code_content.append(t.as_str());
                } else {
                    self.text.append(t.as_str());
                }
            },
            MdEvent::Code(c) => {
                self.text.append("`");
                self.text.append(c.as_str());
                self.text.append("`");
            },
            MdEvent::SoftBreak | MdEvent::HardBreak => {
                if self.in_code_block {
                    self.code_content.append("\n");
                } else if self.text.as_str().unicode_len() > 0 {
                    self.text.append(" ");
                }
            },
            MdEvent::Other => {},
        }
    }
}

/// Reading one more event continues the run.
pub proof fn lemma_parse_run_push(st: ParseState, events: Seq<MdEventView>, e: MdEventView)
    ensures
        parse_run(st, events.push(e)) == parse_step(parse_run(st, events), e),
{
    assert(events.push(e).subrange(0, events.len() as int) =~= events);
}

/// Builds the content blocks from a sequence of markdown events.
pub fn blocks_from_events(events: &Vec<MdEvent>) -> (r: Vec<Content>)
    ensures
        contents_view(r@) == blocks_of(events_view(events@)),
{
    let mut p = BlockParser {
        blocks: Vec::new(),
        text: String::new(),
        in_heading: false,
        heading_level: 1,
        in_paragraph: false,
        in_list_item: false,
        in_code_block: false,
        code_language: None,
        code_content: String::new(),
        collecting_hint: false,
        hint_title: String::new(),
        hint_content: Vec::new(),
    };
    proof {
        assert(contents_view(Seq::<Content>::empty()) =~= Seq::<ContentView>::empty());
        assert(p@ == initial_parse_state());
        assert(events_view(events@).take(0) =~= Seq::<MdEventView>::empty());
    }
    let n = events.len();
    let ghost all = events_view(events@);
    let mut i: usize = 0;
    while i < n
        invariant
            n == all.len(),
            n == events.len(),
            all == events_view(events@),
            i <= n,
            p@ == parse_run(initial_parse_state(), all.take(i as int)),
        decreases n - i,
    {
        let e = &events[i];
        proof {
            assert(e@ == all[i as int]);
            assert(all.take(i + 1) =~= all.take(i as int).push(all[i as int]));
            lemma_parse_run_push(initial_parse_state(), all.take(i as int), all[i as int]);
        }
        p.step(e);
        i = i + 1;
    }
    proof {
        assert(all.take(n as int) =~= all);
    }
    if p.collecting_hint && p.hint_title.unicode_len() > 0 {
        p.finish_hint();
    }
    p.blocks
}

/// Parse markdown text into a vector of Content blocks
pub fn parse_markdown(markdown: &str) -> (r: Vec<Content>)
    ensures
        contents_view(r@) == blocks_of(markdown_events(markdown@)),
{
    blocks_from_events(&parse_events(markdown))
}

} // verus!
