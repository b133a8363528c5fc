//! The scroll position of a vertically scrolling text view, measured from the top, and the
//! scroll box widget's state built on it.

use crate::render::wrap_text;
use crate::text::{lemma_strings_view_push, strings_view};
use crate::render::wrapped;
use vstd::prelude::*;

verus! {

/// Where a top-anchored scrolling view stands. The `Maybe` positions are requests that the next
/// layout settles against the number of lines and the window's height.
#[derive(Clone, Copy, Debug, PartialEq, Eq, Structural)]
pub enum Scroll {
    /// The first line at the top of the window.
    Top,
    /// Scroll to this offset, or to the top where it is zero.
    MaybeTop(usize),
    /// A fixed offset of the first line shown.
    Offset(usize),
    /// Scroll to this offset, or to the bottom where it does not leave a full window below.
    MaybeBottom(usize),
    /// The last line at the bottom of the window.
    Bottom,
}

impl Default for Scroll {
    fn default() -> (r: Self)
        ensures
            r == Scroll::Top,
    {
        Scroll::Top
    }
}

/// `a - b`, or zero where `b` is larger.
pub open spec fn sat_sub(a: usize, b: usize) -> usize {
    if a >= b {
        (a - b) as usize
    } else {
        0
    }
}

/// `a + b`, or the largest `usize` where the sum does not fit.
pub open spec fn sat_add(a: usize, b: usize) -> usize {
    if a + b <= usize::MAX {
        (a + b) as usize
    } else {
        usize::MAX
    }
}

/// The position one line further up.
pub open spec fn scrolled_up(s: Scroll, total: usize, window: usize) -> Scroll {
    match s {
        Scroll::Offset(o) => Scroll::MaybeTop(sat_sub(o, 1)),
        Scroll::Bottom => Scroll::MaybeTop(sat_sub(total, (window + 1) as usize)),
        _ => s,
    }
}

/// The position one line further down.
pub open spec fn scrolled_down(s: Scroll) -> Scroll {
    match s {
        Scroll::Top => Scroll::MaybeBottom(1),
        Scroll::Offset(o) => Scroll::MaybeBottom(sat_add(o, 1)),
        _ => s,
    }
}

/// The position a layout settles on, and the offset of the first line shown.
pub open spec fn settled(s: Scroll, total: usize, window: usize) -> (Scroll, usize) {
    match s {
        Scroll::Top => (Scroll::Top, 0),
        Scroll::MaybeTop(o) => if o > 0 {
            (Scroll::Offset(o), o)
        } else {
            (Scroll::Top, 0)
        },
        Scroll::Offset(o) => (Scroll::Offset(o), o),
        Scroll::MaybeBottom(o) => if o < sat_sub(total, window) {
            (Scroll::Offset(o), o)
        } else {
            (Scroll::Bottom, sat_sub(total, window))
        },
        Scroll::Bottom => (Scroll::Bottom, sat_sub(total, window)),
    }
}

/// The offset a position stands at before it is settled: the `Maybe` requests taken at their
/// word.
pub open spec fn current_offset(s: Scroll, total: usize, window: usize) -> usize {
    match s {
        Scroll::Top => 0,
        Scroll::MaybeTop(o) => o,
        Scroll::Offset(o) => o,
        Scroll::MaybeBottom(o) => o,
        Scroll::Bottom => sat_sub(total, window),
    }
}

/// A settled position is never a request.
pub open spec fn is_settled(s: Scroll) -> bool {
    !(s is MaybeTop) && !(s is MaybeBottom)
}

/// The position one line further up.
pub fn scroll_up_from(s: Scroll, total: usize, window: usize) -> (r: Scroll)
    requires
        window < usize::MAX,
    ensures
        r == scrolled_up(s, total, window),
{
    match s {
        Scroll::Offset(o) => Scroll::MaybeTop(o.saturating_sub(1)),
        Scroll::Bottom => Scroll::MaybeTop(total.saturating_sub(window + 1)),
        _ => s,
    }
}

/// The position one line further down.
pub fn scroll_down_from(s: Scroll) -> (r: Scroll)
    ensures
        r == scrolled_down(s),
{
    match s {
        Scroll::Top => Scroll::MaybeBottom(1),
        Scroll::Offset(o) => Scroll::MaybeBottom(o.saturating_add(1)),
        _ => s,
    }
}

/// Settle a position against the number of lines and the window's height.
pub fn settle(s: Scroll, total: usize, window: usize) -> (r: (Scroll, usize))
    ensures
        r == settled(s, total, window),
{
    let max_offset = total.saturating_sub(window);
    match s {
        Scroll::Top => (Scroll::Top, 0),
        Scroll::MaybeTop(o) => if o > 0 {
            (Scroll::Offset(o), o)
        } else {
            (Scroll::Top, 0)
        },
        Scroll::Offset(o) => (Scroll::Offset(o), o),
        Scroll::MaybeBottom(o) => if o < max_offset {
            (Scroll::Offset(o), o)
        } else {
            (Scroll::Bottom, max_offset)
        },
        Scroll::Bottom => (Scroll::Bottom, max_offset),
    }
}

/// Settling leaves no request behind, and settling again changes nothing.
pub proof fn lemma_settle_is_final(s: Scroll, total: usize, window: usize)
    ensures
        is_settled(settled(s, total, window).0),
        settled(settled(s, total, window).0, total, window) == settled(s, total, window),
{
}

/// From the top, scrolling down one line and settling shows the second line when more than a
/// window and one line remain; otherwise it settles at the bottom.
pub proof fn lemma_scroll_down_from_top(total: usize, window: usize)
    ensures
        settled(scrolled_down(Scroll::Top), total, window) == if 1 < sat_sub(total, window) {
            (Scroll::Offset(1), 1usize)
        } else {
            (Scroll::Bottom, sat_sub(total, window))
        },
{
}

/// Scrolling up from a settled offset and settling moves one line up, stopping at the top.
pub proof fn lemma_scroll_up_from_offset(o: usize, total: usize, window: usize)
    ensures
        settled(scrolled_up(Scroll::Offset(o), total, window), total, window) == if o > 1 {
            (Scroll::Offset((o - 1) as usize), (o - 1) as usize)
        } else {
            (Scroll::Top, 0usize)
        },
{
}

/// The state of a scrolling text: where it stands and the sizes it was last laid out with.
pub struct ScrollText {
    scroll: Scroll,
    lines: usize,
    window_lines: usize,
}

/// A scrolling text's state, by value.
pub struct ScrollTextView {
    pub scroll: Scroll,
    pub lines: usize,
    pub window_lines: usize,
}

impl View for ScrollText {
    type V = ScrollTextView;

    closed spec fn view(&self) -> ScrollTextView {
        ScrollTextView { scroll: self.scroll, lines: self.lines, window_lines: self.window_lines }
    }
}

impl Default for ScrollText {
    fn default() -> (r: Self)
        ensures
            r@ == (ScrollTextView { scroll: Scroll::Top, lines: 0, window_lines: 0 }),
    {
        ScrollText { scroll: Scroll::Top, lines: 0, window_lines: 0 }
    }
}

impl ScrollText {
    /// Where the text stands.
    pub fn get_scroll(&self) -> (r: Scroll)
        ensures
            r == self@.scroll,
    {
        self.scroll
    }

    /// The number of lines at the last layout.
    pub fn get_lines(&self) -> (r: usize)
        ensures
            r == self@.lines,
    {
        self.lines
    }

    /// The window's height at the last layout.
    pub fn get_window_lines(&self) -> (r: usize)
        ensures
            r == self@.window_lines,
    {
        self.window_lines
    }

    /// Scroll to the top.
    pub fn scroll_top(&mut self)
        ensures
            final(self)@ == (ScrollTextView { scroll: Scroll::Top, ..old(self)@ }),
    {
        self.scroll = Scroll::Top;
    }

    /// Scroll to the bottom.
    pub fn scroll_bottom(&mut self)
        ensures
            final(self)@ == (ScrollTextView { scroll: Scroll::Bottom, ..old(self)@ }),
    {
        self.scroll = Scroll::Bottom;
    }

    /// Scroll up one line.
    pub fn scroll_up(&mut self)
        requires
            old(self)@.window_lines < usize::MAX,
        ensures
            final(self)@ == (ScrollTextView {
                scroll: scrolled_up(old(self)@.scroll, old(self)@.lines, old(self)@.window_lines),
                ..old(self)@
            }),
    {
        self.scroll = scroll_up_from(self.scroll, self.lines, self.window_lines);
    }

    /// Scroll down one line.
    pub fn scroll_down(&mut self)
        ensures
            final(self)@ == (ScrollTextView { scroll: scrolled_down(old(self)@.scroll), ..old(self)@ }),
    {
        self.scroll = scroll_down_from(self.scroll);
    }

    /// Lay the text out in a window: record the sizes, settle the position, and return the
    /// range of lines shown.
    pub fn layout(&mut self, lines: usize, window_lines: usize) -> (r: (usize, usize))
        ensures
            final(self)@ == (ScrollTextView {
                scroll: settled(old(self)@.scroll, lines, window_lines).0,
                lines,
                window_lines,
            }),
            r.0 == settled(old(self)@.scroll, lines, window_lines).1,
            r.1 == if sat_add(r.0, window_lines) < lines {
                sat_add(r.0, window_lines)
            } else {
                lines
            },
    {
        self.lines = lines;
        self.window_lines = window_lines;
        let (scroll, offset) = settle(self.scroll, lines, window_lines);
        self.scroll = scroll;
        let end = offset.saturating_add(window_lines);
        let end = if end < lines {
            end
        } else {
            lines
        };
        (offset, end)
    }
}

/// A scrolling box of text.
pub struct ScrollBox {
    st: ScrollText,
    text: String,
}

/// A scroll box's state, by value.
pub struct ScrollBoxView {
    pub scroll: ScrollTextView,
    pub text: Seq<char>,
}

impl View for ScrollBox {
    type V = ScrollBoxView;

    closed spec fn view(&self) -> ScrollBoxView {
        ScrollBoxView { scroll: self.st@, text: self.text@ }
    }
}

impl Default for ScrollBox {
    fn default() -> (r: Self)
        ensures
            r@ == (ScrollBoxView {
                scroll: ScrollTextView { scroll: Scroll::Top, lines: 0, window_lines: 0 },
                text: Seq::empty(),
            }),
    {
        ScrollBox { st: ScrollText::default(), text: String::new() }
    }
}

impl ScrollBox {
    /// Replace the text shown.
    pub fn set_text(&mut self, text: &str)
        ensures
            final(self)@ == (ScrollBoxView { text: text@, ..old(self)@ }),
    {
        self.text = text.to_string();
    }

    /// The text shown.
    pub fn get_text(&self) -> (r: &str)
        ensures
            r@ == self@.text,
    {
        self.text.as_str()
    }

    /// The scrolling state.
    pub fn scroll_state(&self) -> (r: &ScrollText)
        ensures
            r@ == self@.scroll,
    {
        &self.st
    }

    /// Scroll to the top
    pub fn scroll_top(&mut self)
        ensures
            final(self)@ == (ScrollBoxView {
                scroll: ScrollTextView { scroll: Scroll::Top, ..old(self)@.scroll },
                ..old(self)@
            }),
    {
        self.st.scroll_top();
    }

    /// Scroll to the bottom
    pub fn scroll_bottom(&mut self)
        ensures
            final(self)@ == (ScrollBoxView {
                scroll: ScrollTextView { scroll: Scroll::Bottom, ..old(self)@.scroll },
                ..old(self)@
            }),
    {
        self.st.scroll_bottom();
    }

    /// Scroll up
    pub fn scroll_up(&mut self)
        requires
            old(self)@.scroll.window_lines < usize::MAX,
        ensures
            final(self)@ == (ScrollBoxView {
                scroll: ScrollTextView {
                    scroll: scrolled_up(
                        old(self)@.scroll.scroll,
                        old(self)@.scroll.lines,
                        old(self)@.scroll.window_lines,
                    ),
                    ..old(self)@.scroll
                },
                ..old(self)@
            }),
    {
        self.st.scroll_up();
    }

    /// Scroll down
    pub fn scroll_down(&mut self)
        ensures
            final(self)@ == (ScrollBoxView {
                scroll: ScrollTextView {
                    scroll: scrolled_down(old(self)@.scroll.scroll),
                    ..old(self)@.scroll
                },
                ..old(self)@
            }),
    {
        self.st.scroll_down();
    }

    /// Lay the box out in a window of the given size: wrap the text at the width, settle the
    /// position, and return the lines shown.
    pub fn layout(&mut self, width: u16, height: u16) -> (r: Vec<String>)
        ensures
            ({
                let all = wrapped(old(self)@.text, width as usize);
                let lines = all.len() as usize;
                let window = height as usize;
                let start = settled(old(self)@.scroll.scroll, lines, window).1;
                let end = if sat_add(start, window) < lines {
                    sat_add(start, window)
                } else {
                    lines
                };
                &&& final(self)@ == (ScrollBoxView {
                    scroll: ScrollTextView {
                        scroll: settled(old(self)@.scroll.scroll, lines, window).0,
                        lines,
                        window_lines: window,
                    },
                    ..old(self)@
                })
                &&& strings_view(r@) == if start <= end {
                    all.subrange(start as int, end as int)
                } else {
                    Seq::empty()
                }
            }),
    {
        let all = wrap_text(self.text.as_str(), width as usize);
        let ghost all_view = strings_view(all@);
        let (start, end) = self.st.layout(all.len(), height as usize);
        let mut r: Vec<String> = Vec::new();
        if start <= end {
            let mut i = start;
            proof {
                assert(strings_view(r@) =~= all_view.subrange(start as int, start as int));
            }
            while i < end
                invariant
                    start <= i <= end,
                    end <= all.len(),
                    all_view == strings_view(all@),
                    strings_view(r@) == all_view.subrange(start as int, i as int),
                decreases end - i,
            {
                let line = all[i].clone();
                let ghost before = r@;
                r.push(line);
                proof {
                    lemma_strings_view_push(before, line);
                    assert(all_view[i as int] == all@[i as int]@);
                    assert(strings_view(r@) =~= all_view.subrange(start as int, i + 1));
                }
                i = i + 1;
            }
        } else {
            proof {
                assert(strings_view(r@) =~= Seq::<Seq<char>>::empty());
            }
        }
        r
    }
}

} // verus!
