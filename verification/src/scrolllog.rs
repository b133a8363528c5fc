//! The scrolling log view: its position, counted from the newest message, and the lines it
//! shows, each message wrapped beside a column for its emoji.

use crate::describe::{decimal, push_decimal};
use crate::render::{repeat, repeated, wrap_text, wrapped};
use crate::scrolltext::{sat_add, sat_sub};
use crate::text::{owned, strings_view};
use std::collections::VecDeque;
use vstd::prelude::*;
use vstd::string::*;

verus! {

/// Where the log stands, counted back from its newest line.
#[derive(Clone, Copy, Debug, PartialEq, Eq, Structural)]
pub enum Scroll {
    /// Show oldest messages (at top of screen)
    Oldest,
    /// Maybe scroll to oldest messages
    MaybeOldest(usize),
    /// Fixed scroll offset from newest
    Offset(usize),
    /// Maybe scroll to newest messages
    MaybeNewest(usize),
    /// Show newest messages (at bottom of screen) - default for logs
    Newest,
}

impl Default for Scroll {
    fn default() -> (r: Self)
        ensures
            r == Scroll::Newest,
    {
        Scroll::Newest
    }
}

/// How a position is displayed: its name, and its offset in brackets where it has one.
pub open spec fn scroll_text(s: Scroll) -> Seq<char> {
    match s {
        Scroll::Oldest => "Oldest"@,
        Scroll::MaybeOldest(o) => "MaybeOldest("@ + decimal(o as nat) + ")"@,
        Scroll::Offset(o) => "Offset("@ + decimal(o as nat) + ")"@,
        Scroll::MaybeNewest(o) => "MaybeNewest("@ + decimal(o as nat) + ")"@,
        Scroll::Newest => "Newest"@,
    }
}

/// A string holding `head`, a number in decimal, and a closing bracket.
fn with_offset(head: &str, o: usize) -> (r: String)
    ensures
        r@ == head@ + decimal(o as nat) + ")"@,
{
    let mut r = owned(head);
    push_decimal(&mut r, o);
    r.append(")");
    r
}

impl Scroll {
    /// The position as it is displayed.
    pub fn to_string(&self) -> (r: String)
        ensures
            r@ == scroll_text(*self),
    {
        match self {
            Scroll::Oldest => owned("Oldest"),
            Scroll::MaybeOldest(o) => with_offset("MaybeOldest(", *o),
            Scroll::Offset(o) => with_offset("Offset(", *o),
            Scroll::MaybeNewest(o) => with_offset("MaybeNewest(", *o),
            Scroll::Newest => owned("Newest"),
        }
    }
}

/// The position one line toward older messages.
pub open spec fn scrolled_older(s: Scroll) -> Scroll {
    match s {
        Scroll::Newest => Scroll::MaybeOldest(1),
        Scroll::Offset(o) => Scroll::MaybeOldest(sat_add(o, 1)),
        _ => s,
    }
}

/// The position one line toward newer messages.
pub open spec fn scrolled_newer(s: Scroll) -> Scroll {
    match s {
        Scroll::Oldest => Scroll::MaybeNewest(1),
        Scroll::Offset(o) => Scroll::MaybeNewest(sat_sub(o, 1)),
        _ => s,
    }
}

/// The position a layout settles on, and how many lines back from the newest the window ends.
pub open spec fn settled_back(s: Scroll, lines: usize, window: usize) -> (Scroll, usize) {
    let max = sat_sub(lines, window);
    match s {
        Scroll::Oldest => (Scroll::Oldest, max),
        Scroll::MaybeOldest(o) => if o <= max {
            (Scroll::Offset(o), o)
        } else {
            (Scroll::Oldest, max)
        },
        Scroll::Offset(o) => (Scroll::Offset(o), if o < max {
            o
        } else {
            max
        }),
        Scroll::MaybeNewest(o) => if o > 0 {
            (Scroll::Offset(o), o)
        } else {
            (Scroll::Newest, 0)
        },
        Scroll::Newest => (Scroll::Newest, 0),
    }
}

/// The window can be laid out without counting back past the oldest line: only a request to
/// move toward newer lines can ask for more than there is.
pub open spec fn layout_fits(s: Scroll, lines: usize, window: usize) -> bool {
    lines > window ==> settled_back(s, lines, window).1 <= lines - window
}

/// The first line shown, once the position is settled.
pub open spec fn first_shown(lines: usize, window: usize, back: usize) -> usize {
    if lines > window {
        (lines - window - back) as usize
    } else {
        0
    }
}

/// The state of the log view.
pub struct ScrollLog {
    lines: usize,
    window_lines: usize,
    scroll: Scroll,
}

/// The log view's state, by value.
pub struct ScrollLogView {
    pub lines: usize,
    pub window_lines: usize,
    pub scroll: Scroll,
}

impl View for ScrollLog {
    type V = ScrollLogView;

    closed spec fn view(&self) -> ScrollLogView {
        ScrollLogView { lines: self.lines, window_lines: self.window_lines, scroll: self.scroll }
    }
}

impl Default for ScrollLog {
    fn default() -> (r: Self)
        ensures
            r@ == (ScrollLogView { lines: 0, window_lines: 0, scroll: Scroll::Newest }),
    {
        ScrollLog { lines: 0, window_lines: 0, scroll: Scroll::Newest }
    }
}

impl ScrollLog {
    /// get the current scroll position
    pub fn get_scroll(&self) -> (r: Scroll)
        ensures
            r == self@.scroll,
    {
        self.scroll
    }

    /// get the total lines
    pub fn get_lines(&self) -> (r: usize)
        ensures
            r == self@.lines,
    {
        self.lines
    }

    /// get the window lines
    pub fn get_window_lines(&self) -> (r: usize)
        ensures
            r == self@.window_lines,
    {
        self.window_lines
    }

    /// Scroll to the oldest messages
    pub fn scroll_oldest(&mut self)
        ensures
            final(self)@ == (ScrollLogView { scroll: Scroll::Oldest, ..old(self)@ }),
    {
        self.scroll = Scroll::Oldest;
    }

    /// Scroll to the newest messages
    pub fn scroll_newest(&mut self)
        ensures
            final(self)@ == (ScrollLogView { scroll: Scroll::Newest, ..old(self)@ }),
    {
        self.scroll = Scroll::Newest;
    }

    /// Scroll toward older messages
    pub fn scroll_older(&mut self)
        ensures
            final(self)@ == (ScrollLogView { scroll: scrolled_older(old(self)@.scroll), ..old(self)@ }),
    {
        self.scroll = match self.scroll {
            Scroll::Newest => Scroll::MaybeOldest(1),
            Scroll::Offset(offset) => Scroll::MaybeOldest(offset.saturating_add(1)),
            other => other,
        };
    }

    /// Scroll toward newer messages
    pub fn scroll_newer(&mut self)
        ensures
            final(self)@ == (ScrollLogView { scroll: scrolled_newer(old(self)@.scroll), ..old(self)@ }),
    {
        self.scroll = match self.scroll {
            Scroll::Oldest => Scroll::MaybeNewest(1),
            Scroll::Offset(offset) => Scroll::MaybeNewest(offset.saturating_sub(1)),
            other => other,
        };
    }

    /// Whether the window can be laid out for so many lines: only a request to move toward
    /// newer lines can ask for more lines back than there are.
    pub fn layout_fits_now(&self, lines: usize, window_lines: usize) -> (r: bool)
        ensures
            r == layout_fits(self@.scroll, lines, window_lines),
    {
        if lines <= window_lines {
            return true;
        }
        let max_offset = lines - window_lines;
        let back = match self.scroll {
            Scroll::Oldest => max_offset,
            Scroll::MaybeOldest(offset) => if offset <= max_offset {
                offset
            } else {
                max_offset
            },
            Scroll::Offset(offset) => if offset < max_offset {
                offset
            } else {
                max_offset
            },
            Scroll::MaybeNewest(offset) => offset,
            Scroll::Newest => 0,
        };
        back <= max_offset
    }

    /// Lay the log out: record the number of lines and the window's height, settle the
    /// position, and return the range of lines shown and how far back from the newest the
    /// window ends.
    pub fn layout(&mut self, lines: usize, window_lines: usize) -> (r: (usize, usize, usize))
        requires
            layout_fits(old(self)@.scroll, lines, window_lines),
        ensures
            final(self)@ == (ScrollLogView {
                lines,
                window_lines,
                scroll: settled_back(old(self)@.scroll, lines, window_lines).0,
            }),
            r.2 == settled_back(old(self)@.scroll, lines, window_lines).1,
            r.0 == first_shown(lines, window_lines, r.2),
            r.1 == if sat_add(r.0, window_lines) < lines {
                sat_add(r.0, window_lines)
            } else {
                lines
            },
    {
        self.lines = lines;
        self.window_lines = window_lines;
        let max_offset = lines.saturating_sub(window_lines);
        let back = match self.scroll {
            Scroll::Oldest => max_offset,
            Scroll::MaybeOldest(offset) => {
                if offset <= max_offset {
                    self.scroll = Scroll::Offset(offset);
                    offset
                } else {
                    self.scroll = Scroll::Oldest;
                    max_offset
                }
            },
            Scroll::Offset(offset) => if offset < max_offset {
                offset
            } else {
                max_offset
            },
            Scroll::MaybeNewest(offset) => {
                if offset > 0 {
                    self.scroll = Scroll::Offset(offset);
                    offset
                } else {
                    self.scroll = Scroll::Newest;
                    0
                }
            },
            Scroll::Newest => 0,
        };
        let start = if lines > window_lines {
            lines - window_lines - back
        } else {
            0
        };
        let end = start.saturating_add(window_lines);
        let end = if end < lines {
            end
        } else {
            lines
        };
        (start, end, back)
    }
}

/// An emoji padded with spaces to two characters, as the first column shows it.
pub open spec fn emoji_column(e: Seq<char>) -> Seq<char> {
    if e.len() < 2 {
        e + repeated(" "@, (2 - e.len()) as nat)
    } else {
        e
    }
}

/// The lines of one message wrapped at a width: the first behind its emoji column (three
/// spaces where it has none), the rest behind three spaces.
pub open spec fn message_lines(emoji: Option<Seq<char>>, message: Seq<char>, width: usize) -> Seq<
    Seq<char>,
> {
    let w = wrapped(message, width);
    Seq::new(
        w.len(),
        |i: int|
            if i == 0 {
                match emoji {
                    Some(e) => emoji_column(e) + w[0],
                    None => "   "@ + w[0],
                }
            } else {
                "   "@ + w[i]
            },
    )
}

/// A log entry, by value.
pub type EntryView = (Option<Seq<char>>, Seq<char>);

/// A log entry by value.
pub open spec fn entry_view(e: (Option<String>, String)) -> EntryView {
    (
        match e.0 {
            Some(s) => Some(s@),
            None => None,
        },
        e.1@,
    )
}

/// Log entries by value.
pub open spec fn entries_view(s: Seq<(Option<String>, String)>) -> Seq<EntryView> {
    Seq::new(s.len(), |i: int| entry_view(s[i]))
}

/// The lines of the log's entries wrapped at a width, one after another.
pub open spec fn log_lines(entries: Seq<EntryView>, width: usize) -> Seq<Seq<char>>
    decreases entries.len(),
{
    if entries.len() == 0 {
        Seq::empty()
    } else {
        log_lines(entries.drop_last(), width) + message_lines(
            entries.last().0,
            entries.last().1,
            width,
        )
    }
}

/// The width a message wraps at: what the three-column emoji column leaves of the width.
pub open spec fn message_width(width: u16) -> usize {
    if width >= 3 {
        (width - 3) as usize
    } else {
        0
    }
}

/// The emoji padded with spaces to two characters.
fn pad_emoji(e: &str) -> (r: String)
    ensures
        r@ == emoji_column(e@),
{
    let n = e.unicode_len();
    let mut r = owned(e);
    if n < 2 {
        r.append(repeat(" ", 2 - n).as_str());
    }
    r
}

/// The lines of one message.
fn wrap_message(emoji: &Option<String>, message: &str, width: usize, out: &mut Vec<String>)
    ensures
        strings_view(final(out)@) == strings_view(old(out)@) + message_lines(
            match emoji {
                Some(s) => Some(s@),
                None => None,
            },
            message@,
            width,
        ),
{
    let ghost start = strings_view(out@);
    let ghost e = match emoji {
        Some(s) => Some(s@),
        None => None::<Seq<char>>,
    };
    let w = wrap_text(message, width);
    let ghost lines = message_lines(e, message@, width);
    let mut i: usize = 0;
    proof {
        assert(strings_view(out@) =~= start + lines.take(0));
    }
    while i < w.len()
        invariant
            i <= w.len(),
            strings_view(w@) == wrapped(message@, width),
            lines == message_lines(e, message@, width),
            e == match emoji {
                Some(s) => Some(s@),
                None => None::<Seq<char>>,
            },
            strings_view(out@) == start + lines.take(i as int),
        decreases w.len() - i,
    {
        let mut line = if i == 0 {
            match emoji {
                Some(s) => pad_emoji(s.as_str()),
                None => owned("   "),
            }
        } else {
            owned("   ")
        };
        line.append(w[i].as_str());
        let ghost before = out@;
        out.push(line);
        proof {
            crate::text::lemma_strings_view_push(before, line);
            assert(w@[i as int]@ == strings_view(w@)[i as int]);
            assert(lines.take(i + 1) =~= lines.take(i as int).push(lines[i as int]));
        }
        i = i + 1;
    }
    proof {
        assert(lines.take(w.len() as int) =~= lines);
    }
}

/// The log's lines wrapped for a view `width` columns wide: three columns for the emoji, the
/// rest for the messages.
pub fn all_log_lines(log: &VecDeque<(Option<String>, String)>, width: u16) -> (r: Vec<String>)
    ensures
        strings_view(r@) == log_lines(entries_view(log@), message_width(width)),
{
    let w = width.saturating_sub(3) as usize;
    let ghost entries = entries_view(log@);
    let mut r: Vec<String> = Vec::new();
    let mut k: usize = 0;
    proof {
        assert(entries.take(0) =~= Seq::<EntryView>::empty());
        assert(strings_view(r@) =~= Seq::<Seq<char>>::empty());
    }
    while k < log.len()
        invariant
            k <= log@.len(),
            entries == entries_view(log@),
            w == message_width(width),
            strings_view(r@) == log_lines(entries.take(k as int), w),
        decreases log@.len() - k,
    {
        let entry = &log[k];
        wrap_message(&entry.0, entry.1.as_str(), w, &mut r);
        proof {
            let t = entries.take(k + 1);
            assert(t.drop_last() =~= entries.take(k as int));
            assert(t.last() == entry_view(log@[k as int]));
        }
        k = k + 1;
    }
    proof {
        assert(entries.take(log@.len() as int) =~= entries);
    }
    r
}

} // verus!
