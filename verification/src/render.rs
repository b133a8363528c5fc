//! Rendering lesson content blocks into styled, wrapped text lines.

use crate::highlight::{code_line_highlightable, code_line_renders, code_line_spans, code_spans, lines_of, split_lines};
use crate::markdown::{
    content_view, contents_view, lemma_contents_view_index, opt_view, CodeBlock, Content, ContentView,
    Heading, Hint, ListItem, ParagraphBlock,
};
use crate::text::{owned, strings_view};
use vstd::prelude::*;
use vstd::string::*;
use vstd::utf8::encode_utf8;

verus! {

/// The look of a span of text, which the terminal front end maps to colors.
#[derive(Clone, Copy, Debug, PartialEq, Eq, Structural)]
pub enum SpanStyle {
    /// Unstyled text.
    Plain,
    /// Heading text: light blue, bold.
    Heading,
    /// List item text: light yellow.
    ListItem,
    /// Code block borders: gray.
    Border,
    /// Code text: white on black.
    Code,
    /// A keyword in code: light blue on black.
    Keyword,
    /// A string literal in code: green on black.
    StringLiteral,
    /// A comment in code: gray on black.
    Comment,
    /// A macro name in code: yellow on black.
    Macro,
    /// The title line of a hint: cyan, bold.
    HintTitle,
}

/// A run of text in one style.
#[derive(Clone, Debug)]
pub struct StyledSpan {
    pub text: String,
    pub style: SpanStyle,
}

/// A line of styled spans.
#[derive(Clone, Debug)]
pub struct StyledLine {
    pub spans: Vec<StyledSpan>,
}

/// A span, by value.
pub type SpanView = (Seq<char>, SpanStyle);

/// A line, by value.
pub type LineView = Seq<SpanView>;

/// A span by value.
pub open spec fn span_view(s: StyledSpan) -> SpanView {
    (s.text@, s.style)
}

/// The spans of a sequence, by value.
pub open spec fn spans_view(s: Seq<StyledSpan>) -> LineView {
    Seq::new(s.len(), |i: int| span_view(s[i]))
}

/// A line by value.
pub open spec fn line_view(l: StyledLine) -> LineView {
    spans_view(l.spans@)
}

/// The lines of a sequence, by value.
pub open spec fn lines_view(v: Seq<StyledLine>) -> Seq<LineView> {
    Seq::new(v.len(), |i: int| line_view(v[i]))
}

/// The lines `textwrap::wrap` breaks a text into at a width.
pub uninterp spec fn wrapped(text: Seq<char>, width: usize) -> Seq<Seq<char>>;

/// Wrapper around `textwrap::wrap`; its result is named `wrapped`.
#[verifier::external_body]
pub(crate) fn wrap_text(text: &str, width: usize) -> (r: Vec<String>)
    ensures
        strings_view(r@) == wrapped(text@, width),
{
    textwrap::wrap(text, width).into_iter().map(|line| line.into_owned()).collect()
}

/// A line of one span.
pub fn single_line(text: String, style: SpanStyle) -> (r: StyledLine)
    ensures
        line_view(r) == seq![(text@, style)],
{
    let mut spans: Vec<StyledSpan> = Vec::new();
    spans.push(StyledSpan { text, style });
    proof {
        assert(spans_view(spans@) =~= seq![(text@, style)]);
    }
    StyledLine { spans }
}

/// The empty line that separates blocks.
pub open spec fn blank_line() -> LineView {
    seq![(Seq::<char>::empty(), SpanStyle::Plain)]
}

/// An empty line.
pub fn blank() -> (r: StyledLine)
    ensures
        line_view(r) == blank_line(),
{
    single_line(String::new(), SpanStyle::Plain)
}

/// Each text as a line of one span in a style.
pub open spec fn styled_lines(texts: Seq<Seq<char>>, style: SpanStyle) -> Seq<LineView> {
    Seq::new(texts.len(), |i: int| seq![(texts[i], style)])
}

/// Appending a line appends its view.
proof fn lemma_lines_view_push(v: Seq<StyledLine>, l: StyledLine)
    ensures
        lines_view(v.push(l)) == lines_view(v).push(line_view(l)),
{
    assert(lines_view(v.push(l)) =~= lines_view(v).push(line_view(l)));
}

/// The view of two sequences of lines put together.
proof fn lemma_lines_view_add(a: Seq<StyledLine>, b: Seq<StyledLine>)
    ensures
        lines_view(a + b) == lines_view(a) + lines_view(b),
{
    assert(lines_view(a + b) =~= lines_view(a) + lines_view(b));
}

/// Each string as a line of one span in a style.
fn to_lines(texts: Vec<String>, style: SpanStyle) -> (r: Vec<StyledLine>)
    ensures
        lines_view(r@) == styled_lines(strings_view(texts@), style),
{
    let ghost all = styled_lines(strings_view(texts@), style);
    let mut r: Vec<StyledLine> = Vec::new();
    let mut i: usize = 0;
    proof {
        assert(lines_view(r@) =~= all.take(0));
    }
    while i < texts.len()
        invariant
            i <= texts.len(),
            all == styled_lines(strings_view(texts@), style),
            lines_view(r@) == all.take(i as int),
        decreases texts.len() - i,
    {
        let line = single_line(texts[i].clone(), style);
        let ghost before = r@;
        r.push(line);
        proof {
            lemma_lines_view_push(before, line);
            assert(all[i as int] == seq![(texts@[i as int]@, style)]);
            assert(all.take(i + 1) =~= all.take(i as int).push(all[i as int]));
        }
        i = i + 1;
    }
    proof {
        assert(all.take(texts.len() as int) =~= all);
    }
    r
}

/// `s` written `n` times.
pub open spec fn repeated(s: Seq<char>, n: nat) -> Seq<char>
    decreases n,
{
    if n == 0 {
        Seq::empty()
    } else {
        repeated(s, (n - 1) as nat) + s
    }
}

/// `s` written `n` times.
pub fn repeat(s: &str, n: usize) -> (r: String)
    ensures
        r@ == repeated(s@, n as nat),
{
    let mut r = String::new();
    let mut i: usize = 0;
    while i < n
        invariant
            i <= n,
            r@ == repeated(s@, i as nat),
        decreases n - i,
    {
        r.append(s);
        i = i + 1;
    }
    r
}

/// The lines of a heading.
pub open spec fn heading_lines(text: Seq<char>, width: u16) -> Seq<LineView> {
    styled_lines(wrapped(text, width as usize), SpanStyle::Heading)
}

/// The lines of a paragraph.
pub open spec fn paragraph_lines(text: Seq<char>, width: u16) -> Seq<LineView> {
    styled_lines(wrapped(text, width as usize), SpanStyle::Plain)
}

/// The bullet in front of a list item's first line.
pub open spec fn bullet_prefix(indent_level: u8) -> Seq<char> {
    repeated("  "@, indent_level as nat) + "• "@
}

/// The indentation of a list item's later lines, under its first line's text.
pub open spec fn continuation_prefix(indent_level: u8) -> Seq<char> {
    repeated("  "@, indent_level as nat) + "  "@
}

/// The width a list item's text wraps at: what the bullet's bytes leave of the width (the byte
/// count taken modulo 2^16, as a `u16` holds it), but at least ten.
pub open spec fn list_wrap_width(indent_level: u8, width: u16) -> usize {
    let prefix_len = (encode_utf8(bullet_prefix(indent_level)).len() as usize) as u16;
    let available: u16 = if width >= prefix_len {
        (width - prefix_len) as u16
    } else {
        0
    };
    if available >= 10 {
        available as usize
    } else {
        10
    }
}

/// The lines of a list item.
pub open spec fn list_item_lines(text: Seq<char>, indent_level: u8, width: u16) -> Seq<LineView> {
    let w = wrapped(text, list_wrap_width(indent_level, width));
    Seq::new(
        w.len(),
        |i: int|
            seq![
                (if i == 0 {
                    bullet_prefix(indent_level)
                } else {
                    continuation_prefix(indent_level)
                } + w[i], SpanStyle::ListItem),
            ],
    )
}

/// The lines of a code block: a top border, each code line behind a side border, and a bottom
/// border.
pub open spec fn code_block_lines(language: Option<Seq<char>>, code: Seq<char>) -> Seq<LineView> {
    let body = lines_of(code);
    seq![seq![("┌─"@, SpanStyle::Border)]] + Seq::new(
        body.len(),
        |i: int| seq![("│ "@, SpanStyle::Border)] + code_line_spans(language, body[i]),
    ) + seq![seq![("└─"@, SpanStyle::Border)]]
}

/// The title line of a hint, with an arrow showing whether it is expanded.
pub open spec fn hint_title_line(title: Seq<char>, expanded: bool) -> LineView {
    seq![(if expanded { "▼ Hint: "@ } else { "▶ Hint: "@ } + title, SpanStyle::HintTitle)]
}

/// The lines of a content block at a width.
pub open spec fn block_lines(c: ContentView, width: u16) -> Seq<LineView>
    decreases c,
{
    match c {
        ContentView::Heading { level, text } => heading_lines(text, width),
        ContentView::Paragraph { text } => paragraph_lines(text, width),
        ContentView::ListItem { text, indent_level } => list_item_lines(text, indent_level, width),
        ContentView::CodeBlock { language, code } => code_block_lines(language, code),
        ContentView::Hint { title, content, expanded } => if expanded {
            seq![hint_title_line(title, true)] + (if content.len() > 0 {
                seq![blank_line()]
            } else {
                Seq::empty()
            }) + separated_lines(content, width)
        } else {
            seq![hint_title_line(title, false)]
        },
    }
}

/// The lines of a sequence of blocks, with an empty line between consecutive blocks.
pub open spec fn separated_lines(s: Seq<ContentView>, width: u16) -> Seq<LineView>
    decreases s,
{
    if s.len() == 0 {
        Seq::empty()
    } else {
        let last = block_lines(s[s.len() - 1], width);
        let init = separated_lines(s.subrange(0, s.len() - 1), width);
        if s.len() == 1 {
            last
        } else {
            init + seq![blank_line()] + last
        }
    }
}

/// Every line of a code block can be highlighted.
pub open spec fn code_block_renders(language: Option<Seq<char>>, code: Seq<char>) -> bool {
    forall|i: int|
        0 <= i < lines_of(code).len() ==> #[trigger] code_line_renders(language, lines_of(code)[i])
}

/// A block can be rendered: each code block in it, nested hints included, can be highlighted.
pub open spec fn block_renders(c: ContentView) -> bool
    decreases c,
{
    match c {
        ContentView::CodeBlock { language, code } => code_block_renders(language, code),
        ContentView::Hint { title, content, expanded } => blocks_render(content),
        _ => true,
    }
}

/// Each block of a sequence can be rendered.
pub open spec fn blocks_render(s: Seq<ContentView>) -> bool
    decreases s,
{
    if s.len() == 0 {
        true
    } else {
        blocks_render(s.subrange(0, s.len() - 1)) && block_renders(s[s.len() - 1])
    }
}

/// A sequence of blocks renders exactly when each of its blocks does.
pub proof fn lemma_blocks_render(s: Seq<ContentView>)
    ensures
        blocks_render(s) <==> forall|i: int| 0 <= i < s.len() ==> #[trigger] block_renders(s[i]),
    decreases s.len(),
{
    if s.len() > 0 {
        let init = s.subrange(0, s.len() - 1);
        lemma_blocks_render(init);
        if blocks_render(s) {
            assert forall|i: int| 0 <= i < s.len() implies #[trigger] block_renders(s[i]) by {
                if i < s.len() - 1 {
                    assert(init[i] == s[i]);
                }
            }
        }
        if forall|i: int| 0 <= i < s.len() ==> #[trigger] block_renders(s[i]) {
            assert forall|i: int| 0 <= i < init.len() implies #[trigger] block_renders(init[i]) by {
                assert(init[i] == s[i]);
            }
            assert(block_renders(s[s.len() - 1]));
            assert(blocks_render(s));
        }
    }
}

/// Appends the lines of `more` to `out`.
fn append_lines(out: &mut Vec<StyledLine>, more: Vec<StyledLine>)
    ensures
        lines_view(final(out)@) == lines_view(old(out)@) + lines_view(more@),
{
    let mut more = more;
    let ghost a = out@;
    let ghost b = more@;
    out.append(&mut more);
    proof {
        lemma_lines_view_add(a, b);
    }
}

/// Whether every line of a code block can be highlighted.
pub fn code_block_highlightable(b: &CodeBlock) -> (r: bool)
    ensures
        r == code_block_renders(opt_view(b.language), b.code@),
{
    let lang: Option<&str> = match &b.language {
        Some(l) => Some(l.as_str()),
        None => None,
    };
    let ghost lang_view: Option<Seq<char>> = opt_view(b.language);
    let body = split_lines(b.code.as_str());
    let ghost all = lines_of(b.code@);
    let mut i: usize = 0;
    while i < body.len()
        invariant
            i <= body.len(),
            strings_view(body@) == all,
            all == lines_of(b.code@),
            lang_view == match lang {
                Some(l) => Some(l@),
                None => None::<Seq<char>>,
            },
            lang_view == opt_view(b.language),
            forall|j: int| 0 <= j < i ==> #[trigger] code_line_renders(lang_view, all[j]),
        decreases body.len() - i,
    {
        proof {
            assert(body@[i as int]@ == all[i as int]);
        }
        if !code_line_highlightable(lang, body[i].as_str()) {
            proof {
                assert(!code_line_renders(lang_view, all[i as int]));
            }
            return false;
        }
        i = i + 1;
    }
    true
}

/// Whether a content block can be rendered: whether `block_renders` holds of it.
pub fn content_renders(c: &Content) -> (r: bool)
    ensures
        r == block_renders(content_view(*c)),
    decreases c,
{
    match c {
        Content::CodeBlock(b) => code_block_highlightable(b),
        Content::Hint(h) => hint_renders(h),
        _ => true,
    }
}

/// Whether each block of a hint can be rendered.
fn hint_renders(h: &Hint) -> (r: bool)
    ensures
        r == block_renders(content_view(Content::Hint(*h))),
    decreases h,
{
    let ghost content = contents_view(h.content@);
    proof {
        crate::markdown::lemma_contents_view_len(h.content@);
        lemma_blocks_render(content);
    }
    let mut i: usize = 0;
    while i < h.content.len()
        invariant
            i <= h.content.len(),
            content == contents_view(h.content@),
            content.len() == h.content.len(),
            blocks_render(content) <==> forall|j: int|
                0 <= j < content.len() ==> #[trigger] block_renders(content[j]),
            forall|j: int| 0 <= j < i ==> #[trigger] block_renders(content[j]),
        decreases h.content.len() - i,
    {
        proof {
            lemma_contents_view_index(h.content@, i as int);
        }
        assert(decreases_to!(h => h.content@[i as int]));
        if !content_renders(&h.content[i]) {
            proof {
                assert(!block_renders(content[i as int]));
            }
            return false;
        }
        i = i + 1;
    }
    true
}

/// Whether each block of a sequence can be rendered.
pub fn contents_render(v: &Vec<Content>) -> (r: bool)
    ensures
        r == blocks_render(contents_view(v@)),
{
    let ghost content = contents_view(v@);
    proof {
        crate::markdown::lemma_contents_view_len(v@);
        lemma_blocks_render(content);
    }
    let mut i: usize = 0;
    while i < v.len()
        invariant
            i <= v.len(),
            content == contents_view(v@),
            content.len() == v.len(),
            blocks_render(content) <==> forall|j: int|
                0 <= j < content.len() ==> #[trigger] block_renders(content[j]),
            forall|j: int| 0 <= j < i ==> #[trigger] block_renders(content[j]),
        decreases v.len() - i,
    {
        proof {
            lemma_contents_view_index(v@, i as int);
        }
        if !content_renders(&v[i]) {
            proof {
                assert(!block_renders(content[i as int]));
            }
            return false;
        }
        i = i + 1;
    }
    true
}

impl Heading {
    /// Render the heading to styled lines wrapped at `width`.
    pub fn render(&self, width: u16) -> (r: Vec<StyledLine>)
        ensures
            lines_view(r@) == heading_lines(self.text@, width),
    {
        to_lines(wrap_text(self.text.as_str(), width as usize), SpanStyle::Heading)
    }
}

impl ParagraphBlock {
    /// Render the paragraph to lines wrapped at `width`.
    pub fn render(&self, width: u16) -> (r: Vec<StyledLine>)
        ensures
            lines_view(r@) == paragraph_lines(self.text@, width),
    {
        to_lines(wrap_text(self.text.as_str(), width as usize), SpanStyle::Plain)
    }
}

impl ListItem {
    /// Render the list item to lines wrapped at `width`: a bullet on the first line, and later
    /// lines indented under its text.
    pub fn render(&self, width: u16) -> (r: Vec<StyledLine>)
        ensures
            lines_view(r@) == list_item_lines(self.text@, self.indent_level, width),
    {
        let indent = repeat("  ", self.indent_level as usize);
        let mut bullet = indent.clone();
        bullet.append("• ");
        let mut continuation = indent;
        continuation.append("  ");
        let prefix_len = #[verifier::truncate] (bullet.as_str().len() as u16);
        let available = width.saturating_sub(prefix_len);
        let wrap_width: usize = if available >= 10 {
            available as usize
        } else {
            10
        };
        let w = wrap_text(self.text.as_str(), wrap_width);
        let ghost spec_lines = list_item_lines(self.text@, self.indent_level, width);
        let mut r: Vec<StyledLine> = Vec::new();
        let mut i: usize = 0;
        while i < w.len()
            invariant
                i <= w.len(),
                strings_view(w@) == wrapped(self.text@, list_wrap_width(self.indent_level, width)),
                bullet@ == bullet_prefix(self.indent_level),
                continuation@ == continuation_prefix(self.indent_level),
                spec_lines == list_item_lines(self.text@, self.indent_level, width),
                lines_view(r@) == spec_lines.take(i as int),
            decreases w.len() - i,
        {
            let mut text = if i == 0 {
                bullet.clone()
            } else {
                continuation.clone()
            };
            text.append(w[i].as_str());
            let line = single_line(text, SpanStyle::ListItem);
            let ghost before = r@;
            r.push(line);
            proof {
                lemma_lines_view_push(before, line);
                assert(w@[i as int]@ == strings_view(w@)[i as int]);
                assert(spec_lines.take(i + 1) =~= spec_lines.take(i as int).push(spec_lines[i as int]));
            }
            i = i + 1;
        }
        proof {
            assert(spec_lines.take(w.len() as int) =~= spec_lines);
        }
        r
    }
}

impl CodeBlock {
    /// Render the code block: a top border, each code line behind a side border (highlighted
    /// when the language is known), and a bottom border.
    pub fn render(&self, _width: u16) -> (r: Vec<StyledLine>)
        requires
            code_block_renders(opt_view(self.language), self.code@),
        ensures
            lines_view(r@) == code_block_lines(opt_view(self.language), self.code@),
    {
        let lang: Option<&str> = match &self.language {
            Some(l) => Some(l.as_str()),
            None => None,
        };
        let ghost lang_view: Option<Seq<char>> = opt_view(self.language);
        let body = split_lines(self.code.as_str());
        let ghost spec_lines = code_block_lines(lang_view, self.code@);
        let mut r: Vec<StyledLine> = Vec::new();
        r.push(single_line(owned("┌─"), SpanStyle::Border));
        let mut i: usize = 0;
        while i < body.len()
            invariant
                i <= body.len(),
                strings_view(body@) == lines_of(self.code@),
                spec_lines == code_block_lines(lang_view, self.code@),
                lang_view == match lang {
                    Some(l) => Some(l@),
                    None => None::<Seq<char>>,
                },
                lines_view(r@) == spec_lines.take(i + 1),
                code_block_renders(lang_view, self.code@),
            decreases body.len() - i,
        {
            proof {
                assert(body@[i as int]@ == strings_view(body@)[i as int]);
                assert(code_line_renders(lang_view, lines_of(self.code@)[i as int]));
            }
            let mut spans: Vec<StyledSpan> = Vec::new();
            spans.push(StyledSpan { text: owned("│ "), style: SpanStyle::Border });
            let mut code = code_spans(lang, body[i].as_str());
            spans.append(&mut code);
            proof {
                assert(spans_view(spans@) =~= seq![("│ "@, SpanStyle::Border)] + code_line_spans(lang_view, body@[i as int]@));
            }
            let line = StyledLine { spans };
            let ghost before = r@;
            r.push(line);
            proof {
                lemma_lines_view_push(before, line);
                assert(spec_lines.take(i + 2) =~= spec_lines.take(i + 1).push(spec_lines[i + 1]));
            }
            i = i + 1;
        }
        let last = single_line(owned("└─"), SpanStyle::Border);
        let ghost before = r@;
        r.push(last);
        proof {
            lemma_lines_view_push(before, last);
            assert(spec_lines =~= spec_lines.take(body.len() + 1).push(spec_lines[body.len() + 1]));
        }
        r
    }
}

/// Render a content block to lines at `width`.
pub fn render_content(c: &Content, width: u16) -> (r: Vec<StyledLine>)
    requires
        block_renders(content_view(*c)),
    ensures
        lines_view(r@) == block_lines(content_view(*c), width),
    decreases c,
{
    match c {
        Content::Heading(h) => h.render(width),
        Content::Paragraph(p) => p.render(width),
        Content::ListItem(l) => l.render(width),
        Content::CodeBlock(b) => b.render(width),
        Content::Hint(h) => render_hint(h, width),
    }
}

/// Render a hint: its title line alone when collapsed; when expanded, the title, an empty line,
/// and its blocks separated by empty lines.
pub fn render_hint(h: &Hint, width: u16) -> (r: Vec<StyledLine>)
    requires
        block_renders(content_view(Content::Hint(*h))),
    ensures
        lines_view(r@) == block_lines(content_view(Content::Hint(*h)), width),
    decreases h,
{
    let mut title = owned(if h.expanded {
        "▼ Hint: "
    } else {
        "▶ Hint: "
    });
    title.append(h.title.as_str());
    let mut r: Vec<StyledLine> = Vec::new();
    r.push(single_line(title, SpanStyle::HintTitle));
    if !h.expanded {
        proof {
            assert(lines_view(r@) =~= seq![hint_title_line(h.title@, false)]);
        }
        return r;
    }
    let ghost content = contents_view(h.content@);
    proof {
        crate::markdown::lemma_contents_view_len(h.content@);
        lemma_blocks_render(content);
    }
    if h.content.len() > 0 {
        let b = blank();
        let ghost before = r@;
        r.push(b);
        proof {
            lemma_lines_view_push(before, b);
        }
    }
    let ghost head = lines_view(r@);
    proof {
        assert(head =~= seq![hint_title_line(h.title@, true)] + (if content.len() > 0 {
            seq![blank_line()]
        } else {
            Seq::empty()
        }));
        assert(content.subrange(0, 0) =~= Seq::<ContentView>::empty());
    }
    let mut i: usize = 0;
    while i < h.content.len()
        invariant
            i <= h.content.len(),
            content == contents_view(h.content@),
            content.len() == h.content.len(),
            forall|j: int| 0 <= j < content.len() ==> #[trigger] block_renders(content[j]),
            lines_view(r@) == head + separated_lines(content.subrange(0, i as int), width),
        decreases h.content.len() - i,
    {
        let ghost before_sep = r@;
        if i > 0 {
            let b = blank();
            r.push(b);
            proof {
                lemma_lines_view_push(before_sep, b);
            }
        }
        let ghost mid = lines_view(r@);
        proof {
            lemma_contents_view_index(h.content@, i as int);
            assert(block_renders(content[i as int]));
        }
        assert(decreases_to!(h => h.content@[i as int]));
        let lines = render_content(&h.content[i], width);
        append_lines(&mut r, lines);
        proof {
            let s = content.subrange(0, i + 1);
            assert(s.subrange(0, s.len() - 1) =~= content.subrange(0, i as int));
            assert(s[s.len() - 1] == content_view(h.content@[i as int]));
            assert(lines_view(r@) =~= head + separated_lines(s, width));
        }
        i = i + 1;
    }
    proof {
        assert(content.subrange(0, content.len() as int) =~= content);
    }
    r
}

} // verus!
