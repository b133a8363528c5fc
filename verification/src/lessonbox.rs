//! The state of the lesson box: a lesson's content blocks, their rendered lines with the hint
//! each belongs to, the highlighted line, and the scroll position.

use crate::markdown::{
    blocks_of, content_view, contents_view, lemma_contents_view_index, lemma_contents_view_len,
    markdown_events, parse_markdown, Content, ContentView, Hint,
};
use crate::render::{
    block_lines, block_renders, blank, blank_line, blocks_render, contents_render,
    lemma_blocks_render, line_view, render_content, LineView, StyledLine,
};
use crate::scrolltext::{
    current_offset, sat_add, sat_sub, scroll_down_from, scroll_up_from, scrolled_down, scrolled_up,
    settle, settled, Scroll,
};
use vstd::prelude::*;

verus! {

/// A rendered line with the hint it belongs to, if any, and whether it is that hint's title.
pub struct CachedLine {
    pub line: StyledLine,
    pub hint_index: Option<usize>,
    pub is_hint_title: bool,
}

/// A cached line, by value.
pub type CachedView = (LineView, Option<nat>, bool);

/// A cached line by value.
pub open spec fn cached_view(c: CachedLine) -> CachedView {
    (
        line_view(c.line),
        match c.hint_index {
            Some(h) => Some(h as nat),
            None => None,
        },
        c.is_hint_title,
    )
}

/// Cached lines by value.
pub open spec fn cached_views(s: Seq<CachedLine>) -> Seq<CachedView> {
    Seq::new(s.len(), |i: int| cached_view(s[i]))
}

/// The number of hints among a sequence of blocks.
pub open spec fn hint_count(s: Seq<ContentView>) -> nat
    decreases s.len(),
{
    if s.len() == 0 {
        0
    } else {
        hint_count(s.drop_last()) + if s.last() is Hint {
            1nat
        } else {
            0nat
        }
    }
}

/// Lines tagged with the hint they belong to; the first line of a hint is its title.
pub open spec fn tag_lines(lines: Seq<LineView>, hint: Option<nat>) -> Seq<CachedView> {
    Seq::new(lines.len(), |i: int| (lines[i], hint, hint is Some && i == 0))
}

/// The empty line put before block `k`: before every block but the first, except between two
/// consecutive list items.
pub open spec fn separator(s: Seq<ContentView>, k: int) -> Seq<CachedView> {
    if k > 0 && !(s[k - 1] is ListItem && s[k] is ListItem) {
        seq![(blank_line(), None::<nat>, false)]
    } else {
        Seq::empty()
    }
}

/// The cached lines of block `k`: its separator, then its lines, tagged with the hint's index
/// among the hints when it is one.
pub open spec fn block_cache(s: Seq<ContentView>, k: int, width: u16) -> Seq<CachedView> {
    separator(s, k) + tag_lines(
        block_lines(s[k], width),
        if s[k] is Hint {
            Some(hint_count(s.take(k)))
        } else {
            None
        },
    )
}

/// The cached lines of a sequence of blocks rendered at a width.
pub open spec fn cache_of(s: Seq<ContentView>, width: u16) -> Seq<CachedView>
    decreases s.len(),
{
    if s.len() == 0 {
        Seq::empty()
    } else {
        cache_of(s.drop_last(), width) + block_cache(s, s.len() - 1, width)
    }
}

/// The cached lines of a prefix one block longer.
proof fn lemma_cache_of_take(s: Seq<ContentView>, k: int, width: u16)
    requires
        0 <= k < s.len(),
    ensures
        cache_of(s.take(k + 1), width) == cache_of(s.take(k), width) + block_cache(s, k, width),
{
    let t = s.take(k + 1);
    assert(t.drop_last() =~= s.take(k));
    assert(t.take(k) =~= s.take(k));
    assert(t[k] == s[k]);
    if k > 0 {
        assert(t[k - 1] == s[k - 1]);
    }
}

/// A prefix holds no more hints than blocks.
proof fn lemma_hint_count_bound(s: Seq<ContentView>)
    ensures
        hint_count(s) <= s.len(),
    decreases s.len(),
{
    if s.len() > 0 {
        lemma_hint_count_bound(s.drop_last());
    }
}

/// The hints of a prefix one block longer.
proof fn lemma_hint_count_take(s: Seq<ContentView>, k: int)
    requires
        0 <= k < s.len(),
    ensures
        hint_count(s.take(k + 1)) == hint_count(s.take(k)) + if s[k] is Hint {
            1nat
        } else {
            0nat
        },
{
    assert(s.take(k + 1).drop_last() =~= s.take(k));
}

/// Render each block with its separator and tag each line with its hint.
fn build_cache(content: &Vec<Content>, width: u16) -> (r: Vec<CachedLine>)
    requires
        blocks_render(contents_view(content@)),
    ensures
        cached_views(r@) == cache_of(contents_view(content@), width),
{
    let ghost s = contents_view(content@);
    proof {
        lemma_contents_view_len(content@);
        lemma_blocks_render(s);
        assert(s.take(0) =~= Seq::<ContentView>::empty());
    }
    let mut r: Vec<CachedLine> = Vec::new();
    let mut hint_index: usize = 0;
    let mut last_was_list_item = false;
    let mut k: usize = 0;
    while k < content.len()
        invariant
            k <= content.len(),
            s == contents_view(content@),
            s.len() == content.len(),
            forall|j: int| 0 <= j < s.len() ==> #[trigger] block_renders(s[j]),
            hint_index == hint_count(s.take(k as int)),
            k > 0 ==> last_was_list_item == (s[k - 1] is ListItem),
            cached_views(r@) == cache_of(s.take(k as int), width),
        decreases content.len() - k,
    {
        proof {
            lemma_contents_view_index(content@, k as int);
            lemma_cache_of_take(s, k as int, width);
            lemma_hint_count_take(s, k as int);
            lemma_hint_count_bound(s.take(k as int));
        }
        let block = &content[k];
        let is_list_item = match block {
            Content::ListItem(_) => true,
            _ => false,
        };
        let ghost before = cached_views(r@);
        if k > 0 && !(last_was_list_item && is_list_item) {
            r.push(CachedLine { line: blank(), hint_index: None, is_hint_title: false });
        }
        proof {
            assert(cached_views(r@) =~= before + separator(s, k as int));
        }
        let ghost mid = cached_views(r@);
        let lines = render_content(block, width);
        let is_hint = match block {
            Content::Hint(_) => true,
            _ => false,
        };
        let tag: Option<usize> = if is_hint {
            Some(hint_index)
        } else {
            None
        };
        let ghost tagged = tag_lines(
            block_lines(s[k as int], width),
            if s[k as int] is Hint {
                Some(hint_count(s.take(k as int)))
            } else {
                None
            },
        );
        let mut lines = lines;
        let ghost orig = lines@;
        let n = lines.len();
        let mut i: usize = 0;
        proof {
            assert(cached_views(r@) =~= mid + tagged.take(0));
        }
        while i < n
            invariant
                i <= n,
                orig.len() == n,
                lines@ == orig.skip(i as int),
                crate::render::lines_view(orig) == block_lines(s[k as int], width),
                tagged == tag_lines(
                    block_lines(s[k as int], width),
                    match tag {
                        Some(h) => Some(h as nat),
                        None => None,
                    },
                ),
                is_hint == tag is Some,
                cached_views(r@) == mid + tagged.take(i as int),
            decreases n - i,
        {
            let line = lines.remove(0);
            proof {
                assert(line == orig[i as int]);
                assert(lines@ =~= orig.skip(i + 1));
                assert(line_view(line) == crate::render::lines_view(orig)[i as int]);
            }
            let cached = CachedLine { line, hint_index: tag, is_hint_title: is_hint && i == 0 };
            let ghost before_push = r@;
            r.push(cached);
            proof {
                assert(cached_views(r@) =~= cached_views(before_push).push(cached_view(cached)));
                assert(cached_views(r@) =~= mid + tagged.take(i + 1));
            }
            i = i + 1;
        }
        proof {
            assert(tagged.take(n as int) =~= tagged);
            assert(cached_views(r@) =~= cache_of(s.take(k + 1), width));
        }
        if is_hint {
            hint_index = hint_index + 1;
        }
        last_was_list_item = is_list_item;
        k = k + 1;
    }
    proof {
        assert(s.take(content.len() as int) =~= s);
    }
    r
}

/// A line of the lesson box as shown: its spans, how it is highlighted, and how many columns of
/// highlight fill it gets after its text.
pub struct DisplayLine {
    pub spans: Vec<crate::render::StyledSpan>,
    pub mark: LineMark,
    pub fill: u16,
}

/// How a shown line is highlighted.
#[derive(Clone, Copy, Debug, PartialEq, Eq, Structural)]
pub enum LineMark {
    /// Not the highlighted line.
    Plain,
    /// The highlighted line, which is a hint's title: shown inverted.
    HintTitle,
    /// The highlighted line, any other: shown on a dark background.
    Line,
}

/// The state of the lesson box.
pub struct LessonBoxState {
    content: Vec<Content>,
    cached_lines: Vec<CachedLine>,
    scroll: Scroll,
    total_lines: usize,
    window_lines: usize,
    highlighted_line: usize,
    width: Ghost<u16>,
}

/// The lesson box's state, by value; `width` is the width the lines were last rendered at.
pub struct LessonBoxView {
    pub content: Seq<ContentView>,
    pub lines: Seq<CachedView>,
    pub scroll: Scroll,
    pub total_lines: usize,
    pub window_lines: usize,
    pub highlighted_line: usize,
    pub width: u16,
}

/// A lesson box with no content, at the top, with no window yet.
pub open spec fn empty_box() -> LessonBoxView {
    LessonBoxView {
        content: Seq::empty(),
        lines: Seq::empty(),
        scroll: Scroll::Top,
        total_lines: 0,
        window_lines: 0,
        highlighted_line: 0,
        width: 0,
    }
}

impl View for LessonBoxState {
    type V = LessonBoxView;

    closed spec fn view(&self) -> LessonBoxView {
        LessonBoxView {
            content: contents_view(self.content@),
            lines: cached_views(self.cached_lines@),
            scroll: self.scroll,
            total_lines: self.total_lines,
            window_lines: self.window_lines,
            highlighted_line: self.highlighted_line,
            width: self.width@,
        }
    }
}

/// The lesson box's invariant: the lines are its blocks rendered at its width, the highlighted
/// line is one of them (or the first where there is none), and every block can be rendered.
pub open spec fn lesson_box_inv(v: LessonBoxView) -> bool {
    &&& v.lines == cache_of(v.content, v.width)
    &&& v.total_lines == v.lines.len()
    &&& (v.highlighted_line < v.total_lines || v.highlighted_line == 0)
    &&& blocks_render(v.content)
}

/// The state with its lines rendered anew at a width, and the highlight pulled back onto the
/// last line where it fell past the end.
pub open spec fn rebuilt(v: LessonBoxView, width: u16) -> LessonBoxView {
    let lines = cache_of(v.content, width);
    let total = lines.len() as usize;
    LessonBoxView {
        lines,
        total_lines: total,
        highlighted_line: if v.highlighted_line >= total {
            sat_sub(total, 1)
        } else {
            v.highlighted_line
        },
        width,
        ..v
    }
}

/// The state scrolled, where needed, so that the highlighted line is inside the window.
pub open spec fn with_highlight_visible(v: LessonBoxView) -> LessonBoxView {
    if v.window_lines == 0 {
        v
    } else {
        let start = current_offset(v.scroll, v.total_lines, v.window_lines);
        let end = start + v.window_lines;
        if v.highlighted_line < start {
            LessonBoxView { scroll: Scroll::Offset(v.highlighted_line), ..v }
        } else if v.highlighted_line >= end {
            LessonBoxView {
                scroll: Scroll::Offset(sat_sub(v.highlighted_line, sat_sub(v.window_lines, 1))),
                ..v
            }
        } else {
            v
        }
    }
}

/// The end of the window, counted from the first line, fits in a `usize`.
pub open spec fn window_end_fits(v: LessonBoxView) -> bool {
    current_offset(v.scroll, v.total_lines, v.window_lines) + v.window_lines <= usize::MAX
}

/// The index of the hint whose title is highlighted, if the highlighted line is one.
pub open spec fn highlighted_hint(v: LessonBoxView) -> Option<nat> {
    if v.highlighted_line < v.lines.len() && v.lines[v.highlighted_line as int].2 {
        v.lines[v.highlighted_line as int].1
    } else {
        None
    }
}

/// Block `i` is the hint with index `n` among the hints.
pub open spec fn is_nth_hint(s: Seq<ContentView>, i: int, n: nat) -> bool {
    0 <= i < s.len() && s[i] is Hint && hint_count(s.take(i)) == n
}

/// A hint block with its expanded flag flipped; any other block unchanged.
pub open spec fn toggled(c: ContentView) -> ContentView {
    match c {
        ContentView::Hint { title, content, expanded } => ContentView::Hint {
            title,
            content,
            expanded: !expanded,
        },
        _ => c,
    }
}

/// The state after toggling hint `n` and rendering at a width; unchanged where there is no such
/// hint.
pub open spec fn after_toggle(v: LessonBoxView, n: nat, width: u16) -> LessonBoxView {
    if exists|i: int| is_nth_hint(v.content, i, n) {
        let i = choose|i: int| is_nth_hint(v.content, i, n);
        rebuilt(LessonBoxView { content: v.content.update(i, toggled(v.content[i])), ..v }, width)
    } else {
        v
    }
}

/// Two different blocks cannot both be hint `n`.
proof fn lemma_nth_hint_unique(s: Seq<ContentView>, i: int, j: int, n: nat)
    requires
        is_nth_hint(s, i, n),
        is_nth_hint(s, j, n),
    ensures
        i == j,
{
    if i < j {
        lemma_hint_count_grows(s, i, j);
    } else if j < i {
        lemma_hint_count_grows(s, j, i);
    }
}

/// Past a hint, the count of hints is larger.
proof fn lemma_hint_count_grows(s: Seq<ContentView>, i: int, j: int)
    requires
        0 <= i < j <= s.len(),
        s[i] is Hint,
    ensures
        hint_count(s.take(j)) >= hint_count(s.take(i)) + 1,
    decreases j - i,
{
    lemma_hint_count_take(s, j - 1);
    if j - 1 > i {
        lemma_hint_count_grows(s, i, j - 1);
    }
}

/// Toggling a hint leaves what can be rendered unchanged.
proof fn lemma_toggle_renders(s: Seq<ContentView>, i: int)
    requires
        0 <= i < s.len(),
        blocks_render(s),
    ensures
        blocks_render(s.update(i, toggled(s[i]))),
{
    let t = s.update(i, toggled(s[i]));
    lemma_blocks_render(s);
    lemma_blocks_render(t);
    assert forall|j: int| 0 <= j < t.len() implies #[trigger] block_renders(t[j]) by {
        assert(block_renders(s[j]));
    }
}

/// The view of a sequence of blocks with one block replaced.
proof fn lemma_contents_view_update(v: Seq<Content>, i: int, c: Content)
    requires
        0 <= i < v.len(),
    ensures
        contents_view(v.update(i, c)) == contents_view(v).update(i, content_view(c)),
{
    let u = v.update(i, c);
    lemma_contents_view_len(v);
    lemma_contents_view_len(u);
    assert forall|j: int| 0 <= j < v.len() implies contents_view(u)[j] == contents_view(v).update(
        i,
        content_view(c),
    )[j] by {
        lemma_contents_view_index(u, j);
        lemma_contents_view_index(v, j);
    }
    assert(contents_view(u) =~= contents_view(v).update(i, content_view(c)));
}

/// The number of characters of a line.
pub open spec fn line_width(l: LineView) -> nat
    decreases l.len(),
{
    if l.len() == 0 {
        0
    } else {
        line_width(l.drop_last()) + l.last().0.len()
    }
}

/// How line `i` is shown highlighted.
pub open spec fn mark_of(v: LessonBoxView, i: int) -> LineMark {
    if i == v.highlighted_line {
        if v.lines[i].2 {
            LineMark::HintTitle
        } else {
            LineMark::Line
        }
    } else {
        LineMark::Plain
    }
}

/// The columns of highlight after the text of line `i` in a view `content_width` wide: what the
/// text leaves of the width (its character count taken modulo 2^16, as a `u16` holds it) on the
/// highlighted line, none on any other.
pub open spec fn fill_of(v: LessonBoxView, i: int, content_width: u16) -> u16 {
    if i == v.highlighted_line {
        let used = (line_width(v.lines[i].0) % 65536) as u16;
        if content_width >= used {
            (content_width - used) as u16
        } else {
            0
        }
    } else {
        0
    }
}

/// A shown line is line `i` of the box: its spans, its mark, and its fill.
pub open spec fn shows(v: LessonBoxView, d: DisplayLine, i: int, content_width: u16) -> bool {
    &&& crate::render::spans_view(d.spans@) == v.lines[i].0
    &&& d.mark == mark_of(v, i)
    &&& d.fill == fill_of(v, i, content_width)
}

/// The state a layout leaves: lines rendered at the width where there were none, the window's
/// height recorded, and the scroll position settled.
pub open spec fn laid_out(v: LessonBoxView, width: u16, height: u16) -> LessonBoxView {
    let v1 = if v.lines.len() == 0 {
        rebuilt(v, width)
    } else {
        v
    };
    let v2 = LessonBoxView { window_lines: height as usize, ..v1 };
    LessonBoxView { scroll: settled(v2.scroll, v2.total_lines, v2.window_lines).0, ..v2 }
}

/// A copy of a line's spans.
fn copy_spans(v: &Vec<crate::render::StyledSpan>) -> (r: Vec<crate::render::StyledSpan>)
    ensures
        crate::render::spans_view(r@) == crate::render::spans_view(v@),
{
    let mut r: Vec<crate::render::StyledSpan> = Vec::new();
    let mut i: usize = 0;
    while i < v.len()
        invariant
            i <= v.len(),
            crate::render::spans_view(r@) == crate::render::spans_view(v@).take(i as int),
        decreases v.len() - i,
    {
        let span = crate::render::StyledSpan { text: v[i].text.clone(), style: v[i].style };
        let ghost before = r@;
        r.push(span);
        proof {
            assert(crate::render::spans_view(r@) =~= crate::render::spans_view(before).push(
                crate::render::span_view(span),
            ));
            assert(crate::render::span_view(span) == crate::render::spans_view(v@)[i as int]);
            assert(crate::render::spans_view(r@) =~= crate::render::spans_view(v@).take(i + 1));
        }
        i = i + 1;
    }
    proof {
        assert(crate::render::spans_view(v@).take(v.len() as int) =~= crate::render::spans_view(v@));
    }
    r
}

/// The character count of a line, modulo 2^16.
fn line_width_u16(l: &StyledLine) -> (r: u16)
    ensures
        r == line_width(line_view(*l)) % 65536,
{
    let ghost lv = line_view(*l);
    let mut acc: u32 = 0;
    let mut i: usize = 0;
    proof {
        assert(lv.take(0) =~= Seq::<crate::render::SpanView>::empty());
    }
    while i < l.spans.len()
        invariant
            i <= l.spans.len(),
            lv == line_view(*l),
            lv.len() == l.spans.len(),
            acc == line_width(lv.take(i as int)) % 65536,
        decreases l.spans.len() - i,
    {
        let n = l.spans[i].text.as_str().unicode_len();
        proof {
            assert(lv.take(i + 1).drop_last() =~= lv.take(i as int));
            assert(lv.take(i + 1).last() == lv[i as int]);
            vstd::arithmetic::div_mod::lemma_add_mod_noop(
                line_width(lv.take(i as int)) as int,
                n as int,
                65536,
            );
        }
        acc = (acc + (n % 65536) as u32) % 65536;
        i = i + 1;
    }
    proof {
        assert(lv.take(l.spans.len() as int) =~= lv);
    }
    acc as u16
}

/// Toggling the same hint twice, at the width the lines were rendered at, gives back the
/// blocks and the lines the box had.
pub proof fn lemma_toggle_twice(v: LessonBoxView, n: nat)
    requires
        lesson_box_inv(v),
    ensures
        after_toggle(after_toggle(v, n, v.width), n, v.width).content == v.content,
        after_toggle(after_toggle(v, n, v.width), n, v.width).lines == v.lines,
{
    if exists|i: int| is_nth_hint(v.content, i, n) {
        let i = choose|i: int| is_nth_hint(v.content, i, n);
        let c1 = v.content.update(i, toggled(v.content[i]));
        assert(c1.take(i) =~= v.content.take(i));
        assert(is_nth_hint(c1, i, n));
        let w = after_toggle(v, n, v.width);
        assert(w.content == c1);
        let j = choose|j: int| is_nth_hint(c1, j, n);
        lemma_nth_hint_unique(c1, i, j, n);
        assert(c1.update(i, toggled(c1[i])) =~= v.content);
    }
}

/// The number of hint title lines among cached lines.
pub open spec fn title_count(lines: Seq<CachedView>) -> nat
    decreases lines.len(),
{
    if lines.len() == 0 {
        0
    } else {
        title_count(lines.drop_last()) + if lines.last().2 {
            1nat
        } else {
            0nat
        }
    }
}

/// Title lines of two runs of lines put together.
proof fn lemma_title_count_add(a: Seq<CachedView>, b: Seq<CachedView>)
    ensures
        title_count(a + b) == title_count(a) + title_count(b),
    decreases b.len(),
{
    if b.len() > 0 {
        assert((a + b).drop_last() =~= a + b.drop_last());
        lemma_title_count_add(a, b.drop_last());
    } else {
        assert(a + b =~= a);
    }
}

/// The title lines of a block's lines: one for a hint, none for any other block.
proof fn lemma_title_count_tagged(lines: Seq<LineView>, hint: Option<nat>)
    requires
        hint is Some ==> lines.len() > 0,
    ensures
        title_count(tag_lines(lines, hint)) == if hint is Some {
            1nat
        } else {
            0nat
        },
    decreases lines.len(),
{
    let t = tag_lines(lines, hint);
    if lines.len() > 1 {
        assert(t.drop_last() =~= tag_lines(lines.drop_last(), hint));
        lemma_title_count_tagged(lines.drop_last(), hint);
        assert(!t.last().2);
    } else if lines.len() == 1 {
        assert(t.drop_last() =~= Seq::<CachedView>::empty());
        assert(title_count(t.drop_last()) == 0);
        assert(t.last().2 == hint is Some);
    } else {
        assert(t =~= Seq::<CachedView>::empty());
    }
}

/// A lesson box shows exactly one title line for each of its hints.
pub proof fn lemma_one_title_per_hint(s: Seq<ContentView>, width: u16)
    ensures
        title_count(cache_of(s, width)) == hint_count(s),
    decreases s.len(),
{
    if s.len() > 0 {
        let k = s.len() - 1;
        lemma_one_title_per_hint(s.drop_last(), width);
        let sep = separator(s, k);
        let tagged = tag_lines(
            block_lines(s[k], width),
            if s[k] is Hint {
                Some(hint_count(s.take(k)))
            } else {
                None
            },
        );
        lemma_title_count_add(cache_of(s.drop_last(), width), sep + tagged);
        lemma_title_count_add(sep, tagged);
        if sep.len() > 0 {
            assert(sep.drop_last() =~= Seq::<CachedView>::empty());
            assert(title_count(sep.drop_last()) == 0);
        } else {
            assert(sep =~= Seq::<CachedView>::empty());
        }
        assert(title_count(sep) == 0);
        assert(s.take(k) =~= s.drop_last());
        assert(cache_of(s, width) == cache_of(s.drop_last(), width) + (sep + tagged));
        if s[k] is Hint {
            assert(block_lines(s[k], width).len() > 0);
        }
        lemma_title_count_tagged(
            block_lines(s[k], width),
            if s[k] is Hint {
                Some(hint_count(s.take(k)))
            } else {
                None
            },
        );
    }
}

impl LessonBoxState {
    /// The lesson box's invariant holds.
    pub open spec fn wf(&self) -> bool {
        lesson_box_inv(self@)
    }

    /// The state of a lesson's blocks, rendered at a width of eighty columns, scrolled to the
    /// top with the first line highlighted.
    fn from_content(content: Vec<Content>) -> (r: Self)
        requires
            blocks_render(contents_view(content@)),
        ensures
            r.wf(),
            r@.content == contents_view(content@),
            r@.scroll == Scroll::Top,
            r@.window_lines == 0,
            r@.highlighted_line == 0,
            r@.width == 80,
    {
        let cached_lines = build_cache(&content, 80);
        let total_lines = cached_lines.len();
        LessonBoxState {
            content,
            cached_lines,
            scroll: Scroll::Top,
            total_lines,
            window_lines: 0,
            highlighted_line: 0,
            width: Ghost(80),
        }
    }

    /// An empty lesson box: no blocks, no lines, at the top.
    pub fn new() -> (r: Self)
        ensures
            r.wf(),
            r@ == empty_box(),
    {
        let r = LessonBoxState {
            content: Vec::new(),
            cached_lines: Vec::new(),
            scroll: Scroll::Top,
            total_lines: 0,
            window_lines: 0,
            highlighted_line: 0,
            width: Ghost(0),
        };
        proof {
            assert(contents_view(r.content@) =~= Seq::<ContentView>::empty());
            assert(cached_views(r.cached_lines@) =~= Seq::<CachedView>::empty());
        }
        r
    }

    /// Create a new state from markdown content
    pub fn from_markdown(markdown: &str) -> (r: Self)
        requires
            blocks_render(blocks_of(markdown_events(markdown@))),
        ensures
            r.wf(),
            r@.content == blocks_of(markdown_events(markdown@)),
            r@.scroll == Scroll::Top,
            r@.window_lines == 0,
            r@.highlighted_line == 0,
            r@.width == 80,
    {
        Self::from_content(parse_markdown(markdown))
    }

    /// The state of a lesson's markdown, where every code line in it can be highlighted; `None`
    /// where one cannot.
    pub fn try_from_markdown(markdown: &str) -> (r: Option<Self>)
        ensures
            r is Some <==> blocks_render(blocks_of(markdown_events(markdown@))),
            r matches Some(s) ==> {
                &&& s.wf()
                &&& s@.content == blocks_of(markdown_events(markdown@))
                &&& s@.scroll == Scroll::Top
                &&& s@.window_lines == 0
                &&& s@.highlighted_line == 0
                &&& s@.width == 80
            },
    {
        let blocks = parse_markdown(markdown);
        if contents_render(&blocks) {
            Some(Self::from_markdown(markdown))
        } else {
            None
        }
    }

    /// Rebuild the cached lines from content
    fn rebuild_cache(&mut self, width: u16)
        requires
            blocks_render(contents_view(old(self).content@)),
        ensures
            final(self)@ == rebuilt(old(self)@, width),
            final(self).wf(),
    {
        self.cached_lines = build_cache(&self.content, width);
        self.total_lines = self.cached_lines.len();
        self.width = Ghost(width);
        if self.highlighted_line >= self.total_lines {
            self.highlighted_line = self.total_lines.saturating_sub(1);
        }
    }

    /// Move highlight down
    pub fn highlight_down(&mut self)
        requires
            old(self).wf(),
            window_end_fits(old(self)@),
        ensures
            final(self).wf(),
            final(self)@ == if old(self)@.highlighted_line < sat_sub(old(self)@.total_lines, 1) {
                with_highlight_visible(
                    LessonBoxView {
                        highlighted_line: (old(self)@.highlighted_line + 1) as usize,
                        ..old(self)@
                    },
                )
            } else {
                old(self)@
            },
    {
        if self.highlighted_line < self.total_lines.saturating_sub(1) {
            self.highlighted_line = self.highlighted_line + 1;
            self.ensure_highlighted_visible();
        }
    }

    /// Move highlight up
    pub fn highlight_up(&mut self)
        requires
            old(self).wf(),
            window_end_fits(old(self)@),
        ensures
            final(self).wf(),
            final(self)@ == if old(self)@.highlighted_line > 0 {
                with_highlight_visible(
                    LessonBoxView {
                        highlighted_line: (old(self)@.highlighted_line - 1) as usize,
                        ..old(self)@
                    },
                )
            } else {
                old(self)@
            },
    {
        if self.highlighted_line > 0 {
            self.highlighted_line = self.highlighted_line - 1;
            self.ensure_highlighted_visible();
        }
    }

    /// Ensure the highlighted line is visible in the current view
    fn ensure_highlighted_visible(&mut self)
        requires
            window_end_fits(old(self)@),
        ensures
            final(self)@ == with_highlight_visible(old(self)@),
    {
        if self.window_lines == 0 {
            return;
        }
        let scroll_offset = match self.scroll {
            Scroll::Top => 0,
            Scroll::MaybeTop(offset) => offset,
            Scroll::Offset(offset) => offset,
            Scroll::MaybeBottom(offset) => offset,
            Scroll::Bottom => self.total_lines.saturating_sub(self.window_lines),
        };
        let view_start = scroll_offset;
        let view_end = scroll_offset + self.window_lines;
        if self.highlighted_line < view_start {
            self.scroll = Scroll::Offset(self.highlighted_line);
        } else if self.highlighted_line >= view_end {
            let new_offset = self.highlighted_line.saturating_sub(
                self.window_lines.saturating_sub(1),
            );
            self.scroll = Scroll::Offset(new_offset);
        }
    }

    /// Check if the highlighted line is a collapsed hint title
    pub fn is_highlighted_hint(&self) -> (r: Option<usize>)
        ensures
            match r {
                Some(h) => highlighted_hint(self@) == Some(h as nat),
                None => highlighted_hint(self@) is None,
            },
    {
        if self.highlighted_line < self.cached_lines.len() {
            let cached = &self.cached_lines[self.highlighted_line];
            if cached.is_hint_title {
                return cached.hint_index;
            }
        }
        None
    }

    /// Toggle hint at highlighted line if it's a hint title
    pub fn toggle_highlighted_hint(&mut self, width: u16) -> (r: bool)
        requires
            old(self).wf(),
        ensures
            final(self).wf(),
            r == highlighted_hint(old(self)@) is Some,
            final(self)@ == match highlighted_hint(old(self)@) {
                Some(n) => after_toggle(old(self)@, n, width),
                None => old(self)@,
            },
    {
        match self.is_highlighted_hint() {
            Some(hint_idx) => {
                self.toggle_hint(hint_idx, width);
                true
            },
            None => false,
        }
    }

    /// Toggle the hint at the specified index
    pub fn toggle_hint(&mut self, hint_index: usize, width: u16)
        requires
            old(self).wf(),
        ensures
            final(self).wf(),
            final(self)@ == after_toggle(old(self)@, hint_index as nat, width),
    {
        let ghost s = contents_view(self.content@);
        proof {
            lemma_contents_view_len(self.content@);
            assert(s.take(0) =~= Seq::<ContentView>::empty());
        }
        let mut content_hint_index: usize = 0;
        let mut k: usize = 0;
        while k < self.content.len()
            invariant
                k <= self.content.len(),
                s == contents_view(self.content@),
                s.len() == self.content.len(),
                content_hint_index == hint_count(s.take(k as int)),
                forall|i: int| 0 <= i < k ==> !is_nth_hint(s, i, hint_index as nat),
                self@ == old(self)@,
                old(self).wf(),
            decreases self.content.len() - k,
        {
            proof {
                lemma_contents_view_index(self.content@, k as int);
                lemma_hint_count_take(s, k as int);
                lemma_hint_count_bound(s.take(k as int));
            }
            let is_hint = match &self.content[k] {
                Content::Hint(_) => true,
                _ => false,
            };
            if is_hint {
                if content_hint_index == hint_index {
                    proof {
                        assert(is_nth_hint(s, k as int, hint_index as nat));
                        let c = choose|i: int| is_nth_hint(s, i, hint_index as nat);
                        lemma_nth_hint_unique(s, c, k as int, hint_index as nat);
                        lemma_toggle_renders(s, k as int);
                    }
                    let ghost before = self.content@;
                    let block = self.content.remove(k);
                    let block = match block {
                        Content::Hint(mut h) => {
                            h.toggle();
                            Content::Hint(h)
                        },
                        other => other,
                    };
                    self.content.insert(k, block);
                    proof {
                        assert(self.content@ =~= before.update(k as int, block));
                        lemma_contents_view_update(before, k as int, block);
                        assert(content_view(block) == toggled(s[k as int]));
                    }
                    self.rebuild_cache(width);
                    return;
                }
                content_hint_index = content_hint_index + 1;
            }
            proof {
                assert(!is_nth_hint(s, k as int, hint_index as nat));
            }
            k = k + 1;
        }
        proof {
            assert forall|i: int| !is_nth_hint(s, i, hint_index as nat) by {
                if 0 <= i < s.len() {
                    assert(i < k);
                }
            }
        }
    }

    /// Scroll to the top.
    pub fn scroll_top(&mut self)
        ensures
            final(self)@ == (LessonBoxView { scroll: Scroll::Top, ..old(self)@ }),
    {
        self.scroll = Scroll::Top;
    }

    /// Scroll to the bottom.
    pub fn scroll_bottom(&mut self)
        ensures
            final(self)@ == (LessonBoxView { scroll: Scroll::Bottom, ..old(self)@ }),
    {
        self.scroll = Scroll::Bottom;
    }

    /// Scroll up one line.
    pub fn scroll_up(&mut self)
        requires
            old(self)@.window_lines < usize::MAX,
        ensures
            final(self)@ == (LessonBoxView {
                scroll: scrolled_up(old(self)@.scroll, old(self)@.total_lines, old(self)@.window_lines),
                ..old(self)@
            }),
    {
        self.scroll = scroll_up_from(self.scroll, self.total_lines, self.window_lines);
    }

    /// Scroll down one line.
    pub fn scroll_down(&mut self)
        ensures
            final(self)@ == (LessonBoxView { scroll: scrolled_down(old(self)@.scroll), ..old(self)@ }),
    {
        self.scroll = scroll_down_from(self.scroll);
    }

    /// Where the box stands.
    pub fn get_scroll(&self) -> (r: Scroll)
        ensures
            r == self@.scroll,
    {
        self.scroll
    }

    /// The number of rendered lines.
    pub fn get_lines(&self) -> (r: usize)
        ensures
            r == self@.total_lines,
    {
        self.total_lines
    }

    /// Whether the window can be moved past where it stands without the offset of its end
    /// overflowing.
    pub fn window_end_fits_now(&self) -> (r: bool)
        ensures
            r == window_end_fits(self@),
    {
        let offset = match self.scroll {
            Scroll::Top => 0,
            Scroll::MaybeTop(o) => o,
            Scroll::Offset(o) => o,
            Scroll::MaybeBottom(o) => o,
            Scroll::Bottom => if self.total_lines >= self.window_lines {
                self.total_lines - self.window_lines
            } else {
                0
            },
        };
        offset <= usize::MAX - self.window_lines
    }

    /// The window's height at the last layout.
    pub fn get_window_lines(&self) -> (r: usize)
        ensures
            r == self@.window_lines,
    {
        self.window_lines
    }

    /// Set the window's height, as a layout does.
    pub fn set_window_lines(&mut self, window_lines: usize)
        ensures
            final(self)@ == (LessonBoxView { window_lines, ..old(self)@ }),
    {
        self.window_lines = window_lines;
    }

    /// The highlighted line.
    pub fn get_highlighted_line(&self) -> (r: usize)
        ensures
            r == self@.highlighted_line,
    {
        self.highlighted_line
    }

    /// Lay the box out in a window of the given inner size: render the lines at the width if
    /// there are none, record the height, settle the scroll position, and return the range of
    /// lines shown.
    pub fn layout(&mut self, width: u16, height: u16) -> (r: (usize, usize))
        requires
            old(self).wf(),
        ensures
            final(self).wf(),
            final(self)@ == laid_out(old(self)@, width, height),
            r.0 == settled(
                old(self)@.scroll,
                laid_out(old(self)@, width, height).total_lines,
                height as usize,
            ).1,
            r.1 == if sat_add(r.0, height as usize) < final(self)@.total_lines {
                sat_add(r.0, height as usize)
            } else {
                final(self)@.total_lines
            },
    {
        if self.cached_lines.len() == 0 {
            self.rebuild_cache(width);
        }
        self.window_lines = height as usize;
        let (scroll, offset) = settle(self.scroll, self.total_lines, self.window_lines);
        self.scroll = scroll;
        let end = offset.saturating_add(self.window_lines);
        let end = if end < self.total_lines {
            end
        } else {
            self.total_lines
        };
        (offset, end)
    }

    /// The lines from `start` up to `end` as shown in a view `content_width` columns wide: the
    /// highlighted one marked, with the highlight filling the rest of its width.
    pub fn visible_lines(&self, start: usize, end: usize, content_width: u16) -> (r: Vec<
        DisplayLine,
    >)
        requires
            self.wf(),
            start <= end <= self@.total_lines,
        ensures
            r.len() == end - start,
            forall|j: int| 0 <= j < r.len() ==> #[trigger] shows(self@, r[j], start + j, content_width),
    {
        let mut r: Vec<DisplayLine> = Vec::new();
        let mut i = start;
        while i < end
            invariant
                start <= i <= end,
                end <= self.cached_lines.len(),
                self.wf(),
                r.len() == i - start,
                forall|j: int|
                    0 <= j < r.len() ==> #[trigger] shows(self@, r[j], start + j, content_width),
            decreases end - i,
        {
            let cached = &self.cached_lines[i];
            proof {
                assert(self@.lines[i as int] == cached_view(*cached));
            }
            let spans = copy_spans(&cached.line.spans);
            let (mark, fill) = if i == self.highlighted_line {
                let used = line_width_u16(&cached.line);
                let fill = content_width.saturating_sub(used);
                if cached.is_hint_title {
                    (LineMark::HintTitle, fill)
                } else {
                    (LineMark::Line, fill)
                }
            } else {
                (LineMark::Plain, 0)
            };
            let ghost before = r@;
            let line = DisplayLine { spans, mark, fill };
            r.push(line);
            proof {
                let k = (i - start) as int;
                assert(shows(self@, line, i as int, content_width));
                assert forall|j: int|
                    0 <= j < r.len() implies #[trigger] shows(self@, r[j], start + j, content_width) by {
                    if j < k {
                        assert(r[j] == before[j]);
                    } else {
                        assert(r[j] == line);
                    }
                }
            }
            i = i + 1;
        }
        r
    }

    /// The lesson's blocks.
    pub fn content(&self) -> (r: &Vec<Content>)
        ensures
            contents_view(r@) == self@.content,
    {
        &self.content
    }

    /// The rendered lines.
    pub fn cached_lines(&self) -> (r: &Vec<CachedLine>)
        ensures
            cached_views(r@) == self@.lines,
    {
        &self.cached_lines
    }
}

} // verus!
