//! The log screen: the messages logged, each split into the emoji its two-character prefix
//! stands for and its text, at most a set number of them, the log view's position, and the
//! status bar of the command that runs.

use crate::command::command_result_view;
use crate::languages::spoken;
use crate::scrolllog::{
    all_log_lines, entries_view, first_shown, layout_fits, log_lines, message_width,
    settled_back, EntryView, ScrollLog, ScrollLogView,
};
use crate::scrolltext::sat_add;
use crate::statusbar::{StatusBar, StatusBarView};
use crate::text::{owned, strings_view};
use crate::ui::{event_view, evt, opt_evt_view, Evt, EvtView, Key, Screens, StatusMode, UiEvent, UiEventView};
use std::collections::VecDeque;
use vstd::prelude::*;
use vstd::string::*;
use vstd::utf8::encode_scalar;

verus! {

/// The emoji a message's two-character prefix stands for, if any.
pub open spec fn emoji_for(prefix: Seq<char>) -> Option<Seq<char>> {
    if prefix == "* "@ {
        Some("⭐"@)
    } else if prefix == "v "@ {
        Some("✅"@)
    } else if prefix == "x "@ {
        Some("❌"@)
    } else if prefix == "r "@ {
        Some("🚀"@)
    } else if prefix == "y "@ {
        Some("🎉"@)
    } else if prefix == "n "@ {
        Some("😢"@)
    } else if prefix == "! "@ {
        Some("❗"@)
    } else if prefix == "^ "@ {
        Some("⚠️ "@)
    } else if prefix == "i "@ {
        Some("ℹ️ "@)
    } else {
        None
    }
}

/// The emoji a two-character prefix stands for.
pub fn emoji(prefix: &str) -> (r: Option<String>)
    ensures
        match r {
            Some(e) => emoji_for(prefix@) == Some(e@),
            None => emoji_for(prefix@) is None,
        },
{
    proof {
        reveal_strlit("* ");
        reveal_strlit("v ");
        reveal_strlit("x ");
        reveal_strlit("r ");
        reveal_strlit("y ");
        reveal_strlit("n ");
        reveal_strlit("! ");
        reveal_strlit("^ ");
        reveal_strlit("i ");
    }
    if crate::text::str_eq(prefix, "* ") {
        Some(owned("⭐"))
    } else if crate::text::str_eq(prefix, "v ") {
        Some(owned("✅"))
    } else if crate::text::str_eq(prefix, "x ") {
        Some(owned("❌"))
    } else if crate::text::str_eq(prefix, "r ") {
        Some(owned("🚀"))
    } else if crate::text::str_eq(prefix, "y ") {
        Some(owned("🎉"))
    } else if crate::text::str_eq(prefix, "n ") {
        Some(owned("😢"))
    } else if crate::text::str_eq(prefix, "! ") {
        Some(owned("❗"))
    } else if crate::text::str_eq(prefix, "^ ") {
        Some(owned("⚠️ "))
    } else if crate::text::str_eq(prefix, "i ") {
        Some(owned("ℹ️ "))
    } else {
        None
    }
}

/// The number of bytes a character takes in UTF-8.
pub open spec fn char_width(c: char) -> nat {
    encode_scalar(c as u32).len()
}

/// The number of bytes a text takes in UTF-8.
pub open spec fn text_bytes(s: Seq<char>) -> nat
    decreases s.len(),
{
    if s.len() == 0 {
        0
    } else {
        char_width(s[0]) + text_bytes(s.drop_first())
    }
}

/// How many characters a message's first two bytes hold: two one-byte characters or one
/// two-byte character; `None` where the second byte ends no character.
pub open spec fn prefix_chars(m: Seq<char>) -> Option<int> {
    if m.len() >= 1 && char_width(m[0]) == 2 {
        Some(1)
    } else if m.len() >= 2 && char_width(m[0]) == 1 && char_width(m[1]) == 1 {
        Some(2)
    } else {
        None
    }
}

/// A message can be split after its first two bytes: it is shorter than two bytes, or its
/// second byte ends a character.
pub open spec fn splittable(m: Seq<char>) -> bool {
    text_bytes(m) < 2 || prefix_chars(m) is Some
}

/// The entry a message is logged as, if it is logged: its first two bytes looked up as an
/// emoji, and its text after them; nothing for a message shorter than two bytes.
pub open spec fn message_entry(m: Seq<char>) -> Option<EntryView> {
    if text_bytes(m) < 2 {
        None
    } else {
        let k = prefix_chars(m).unwrap();
        Some((emoji_for(m.take(k)), m.skip(k)))
    }
}

/// The width of a character's encoding.
fn char_width_exec(c: char) -> (r: usize)
    ensures
        r == char_width(c),
{
    proof {
        vstd::utf8::char_is_scalar(c);
    }
    let v = c as u32;
    if v <= 0x7F {
        1
    } else if v <= 0x7FF {
        2
    } else if v <= 0xFFFF {
        3
    } else {
        4
    }
}

/// The encoding of a text is at least as long as that of its first character.
proof fn lemma_text_bytes_first(m: Seq<char>)
    requires
        m.len() >= 1,
    ensures
        text_bytes(m) >= char_width(m[0]),
        m.len() >= 2 ==> text_bytes(m) >= char_width(m[0]) + char_width(m[1]),
        text_bytes(m) > 0,
{
    vstd::utf8::char_is_scalar(m[0]);
    assert(encode_scalar(m[0] as u32).len() >= 1);
    assert(text_bytes(m) == char_width(m[0]) + text_bytes(m.drop_first()));
    if m.len() >= 2 {
        let t = m.drop_first();
        assert(t[0] == m[1]);
        vstd::utf8::char_is_scalar(m[1]);
        assert(encode_scalar(m[1] as u32).len() >= 1);
        assert(text_bytes(t) == char_width(t[0]) + text_bytes(t.drop_first()));
    }
}

/// A message's byte count, as far as two: whether it is shorter than two bytes.
fn shorter_than_two_bytes(m: &str) -> (r: bool)
    ensures
        r == (text_bytes(m@) < 2),
{
    let n = m.unicode_len();
    if n == 0 {
        return true;
    }
    proof {
        lemma_text_bytes_first(m@);
    }
    let w0 = char_width_exec(m.get_char(0));
    if w0 >= 2 {
        return false;
    }
    if n == 1 {
        proof {
            assert(m@.drop_first().len() == 0);
            assert(text_bytes(m@.drop_first()) == 0);
            assert(text_bytes(m@) == char_width(m@[0]) + text_bytes(m@.drop_first()));
        }
        return true;
    }
    false
}

/// Whether a message can be split after its first two bytes, as logging it asks.
pub fn message_splittable(m: &str) -> (r: bool)
    ensures
        r == splittable(m@),
{
    if shorter_than_two_bytes(m) {
        return true;
    }
    let n = m.unicode_len();
    let w0 = char_width_exec(m.get_char(0));
    if n >= 1 && w0 == 2 {
        return true;
    }
    n >= 2 && w0 == 1 && char_width_exec(m.get_char(1)) == 1
}

/// The log screen's state.
pub struct Log {
    log: VecDeque<(Option<String>, String)>,
    max_log: usize,
    st: ScrollLog,
    sb: StatusBar,
    spoken_language: Option<spoken::Code>,
}

/// The log screen's state, by value.
pub struct LogView {
    pub log: Seq<EntryView>,
    pub max_log: usize,
    pub st: ScrollLogView,
    pub sb: StatusBarView,
    pub spoken_language: Option<spoken::Code>,
}

impl View for Log {
    type V = LogView;

    closed spec fn view(&self) -> LogView {
        LogView {
            log: entries_view(self.log@),
            max_log: self.max_log,
            st: self.st@,
            sb: self.sb@,
            spoken_language: self.spoken_language,
        }
    }
}

/// The log after a message is added: its entry appended, and the oldest entry dropped where
/// the log is then longer than its limit.
pub open spec fn logged(log: Seq<EntryView>, max_log: usize, m: Seq<char>) -> Seq<EntryView> {
    match message_entry(m) {
        None => log,
        Some(e) => {
            let l = log.push(e);
            if l.len() > max_log {
                l.drop_first()
            } else {
                l
            }
        },
    }
}

/// The log never grows past its limit, and a message that makes an entry ends up as the newest
/// entry.
pub proof fn lemma_log_bounded(log: Seq<EntryView>, max_log: usize, m: Seq<char>)
    requires
        log.len() <= max_log,
    ensures
        logged(log, max_log, m).len() <= max_log,
        message_entry(m) matches Some(e) ==> max_log > 0 ==> logged(log, max_log, m).last() == e,
{
}

/// The text logged when a command ends: "y " and its last line where it succeeded, "n " and
/// its last line where it failed.
pub open spec fn completion_message(success: bool, last_line: Seq<char>) -> Seq<char> {
    (if success {
        "y "@
    } else {
        "n "@
    } + last_line)
}

/// The log screen after an event and the event it sends, if any: a log message is logged; a
/// command starting shows its message in the status bar; a command's output is logged and
/// updates the status bar; a command's end clears the status bar, logs how it ended and sends
/// the event for that outcome. Other events leave the screen as it is.
pub open spec fn log_step(v: LogView, e: UiEventView) -> (LogView, Option<EvtView>) {
    match e {
        UiEventView::Log(m) => (LogView { log: logged(v.log, v.max_log, m), ..v }, None),
        UiEventView::CommandStarted(mode, m) => (
            match mode {
                StatusMode::Blank => v,
                StatusMode::Messages => LogView {
                    sb: StatusBarView {
                        mode: StatusMode::Messages,
                        message: m,
                        progress: 0,
                        timing: true,
                    },
                    ..v
                },
                StatusMode::Progress => LogView {
                    sb: StatusBarView {
                        mode: StatusMode::Progress,
                        message: m,
                        progress: 0,
                        timing: true,
                    },
                    ..v
                },
            },
            None,
        ),
        UiEventView::CommandOutput(m, progress) => {
            let log = logged(v.log, v.max_log, m);
            let sb = match progress {
                Some(p) => if v.sb.mode == StatusMode::Progress {
                    StatusBarView {
                        message: m,
                        progress: if p < 100 {
                            p
                        } else {
                            100
                        },
                        ..v.sb
                    }
                } else {
                    v.sb
                },
                None => if v.sb.mode == StatusMode::Messages {
                    StatusBarView { message: m, ..v.sb }
                } else {
                    v.sb
                },
            };
            (LogView { log, sb, ..v }, None)
        },
        UiEventView::CommandCompleted(result, success, failure) => (
            LogView {
                log: logged(v.log, v.max_log, completion_message(result.0, result.2)),
                sb: crate::statusbar::blank_bar(),
                ..v
            },
            if result.0 {
                success
            } else {
                failure
            },
        ),
        _ => (v, None),
    }
}

/// What an event asks of the log screen can be done: every message it logs can be split after
/// its first two bytes.
pub open spec fn log_event_ok(e: UiEventView) -> bool {
    match e {
        UiEventView::Log(m) => splittable(m),
        UiEventView::CommandOutput(m, _) => splittable(m),
        _ => true,
    }
}

/// The lines the log view shows in a window: the lines shown, after empty lines that push them
/// to the bottom where they do not fill the window.
pub open spec fn shown_lines(all: Seq<Seq<char>>, start: usize, end: usize, window: usize) -> Seq<
    Seq<char>,
> {
    let shown = if start <= end {
        all.subrange(start as int, end as int)
    } else {
        Seq::empty()
    };
    Seq::new(
        if shown.len() < window {
            (window - shown.len()) as nat
        } else {
            0
        },
        |i: int| Seq::<char>::empty(),
    ) + shown
}

impl Log {
    /// Create a new log Screen
    pub fn new(max_log: usize) -> (r: Self)
        ensures
            r@ == (LogView {
                log: Seq::empty(),
                max_log,
                st: ScrollLogView {
                    lines: 0,
                    window_lines: 0,
                    scroll: crate::scrolllog::Scroll::Newest,
                },
                sb: crate::statusbar::blank_bar(),
                spoken_language: None,
            }),
    {
        let mut st = ScrollLog::default();
        st.scroll_newest();
        let r = Log {
            log: VecDeque::new(),
            max_log,
            st,
            sb: StatusBar::new(),
            spoken_language: None,
        };
        proof {
            assert(entries_view(r.log@) =~= Seq::<EntryView>::empty());
        }
        r
    }

    /// Add a message to the log: its first two bytes are looked up as an emoji and the rest is
    /// its text; a message shorter than two bytes is dropped, and the oldest message goes where
    /// the log grows past its limit.
    fn add_message(&mut self, msg: &str)
        requires
            splittable(msg@),
        ensures
            final(self)@ == (LogView {
                log: logged(old(self)@.log, old(self)@.max_log, msg@),
                ..old(self)@
            }),
    {
        if shorter_than_two_bytes(msg) {
            return;
        }
        let n = msg.unicode_len();
        proof {
            lemma_text_bytes_first(msg@);
        }
        let w0 = char_width_exec(msg.get_char(0));
        let k: usize = if w0 == 2 {
            1
        } else {
            2
        };
        let prefix = msg.substring_char(0, k);
        let rest = msg.substring_char(k, n);
        let entry = (emoji(prefix), owned(rest));
        let ghost before = self.log@;
        self.log.push_back(entry);
        proof {
            assert(entries_view(self.log@) =~= entries_view(before).push(entry_view_of(entry)));
            assert(entry_view_of(entry) == (emoji_for(msg@.take(k as int)), msg@.skip(k as int)));
        }
        if self.log.len() > self.max_log {
            let ghost full = self.log@;
            let _ = self.log.pop_front();
            proof {
                assert(entries_view(self.log@) =~= entries_view(full).drop_first());
            }
        }
    }

    /// handle UI events
    pub fn handle_ui_event(&mut self, event: UiEvent) -> (r: Option<Evt>)
        requires
            log_event_ok(event_view(event)),
        ensures
            (final(self)@, opt_evt_view(r)) == log_step(old(self)@, event_view(event)),
    {
        match event {
            UiEvent::Log(msg) => {
                self.add_message(msg.as_str());
                None
            },
            UiEvent::CommandStarted(mode, message) => {
                match mode {
                    StatusMode::Blank => {},
                    StatusMode::Messages => self.sb.set_messages(message),
                    StatusMode::Progress => self.sb.set_progress(message),
                }
                None
            },
            UiEvent::CommandOutput(message, progress) => {
                self.add_message(message.as_str());
                match progress {
                    Some(p) => self.sb.update_progress(Some(message), p),
                    None => self.sb.update_message(message),
                }
                None
            },
            UiEvent::CommandCompleted(result, success, failure) => {
                self.sb.set_blank();
                let mut text = owned(if result.success {
                    "y "
                } else {
                    "n "
                });
                text.append(result.last_line.as_str());
                proof {
                    reveal_strlit("y ");
                    reveal_strlit("n ");
                    let t = text@;
                    assert(t[0] == 'y' || t[0] == 'n');
                    assert(t[1] == ' ');
                    assert(char_width(t[0]) == 1);
                    assert(char_width(t[1]) == 1);
                }
                self.add_message(text.as_str());
                if result.success {
                    success
                } else {
                    failure
                }
            },
            _ => None,
        }
    }

    /// handle input events: page up and down go to the oldest and newest messages, `j` and `k`
    /// (and the arrows) scroll, and the backquote hides the log.
    pub fn handle_input_event(&mut self, key: Key) -> (r: Option<Evt>)
        ensures
            final(self)@ == (LogView {
                st: ScrollLogView {
                    scroll: match key {
                        Key::PageUp => crate::scrolllog::Scroll::Oldest,
                        Key::PageDown => crate::scrolllog::Scroll::Newest,
                        Key::Char('j') | Key::Char('J') | Key::Down => crate::scrolllog::scrolled_newer(
                            old(self)@.st.scroll,
                        ),
                        Key::Char('k') | Key::Char('K') | Key::Up => crate::scrolllog::scrolled_older(
                            old(self)@.st.scroll,
                        ),
                        _ => old(self)@.st.scroll,
                    },
                    ..old(self)@.st
                },
                ..old(self)@
            }),
            opt_evt_view(r) == if key == Key::Char('`') {
                Some((None::<Screens>, Box::new(UiEventView::ToggleLog)))
            } else {
                None
            },
    {
        match key {
            Key::PageUp => {
                self.st.scroll_oldest();
                None
            },
            Key::PageDown => {
                self.st.scroll_newest();
                None
            },
            Key::Char('j') | Key::Char('J') | Key::Down => {
                self.st.scroll_newer();
                None
            },
            Key::Char('k') | Key::Char('K') | Key::Up => {
                self.st.scroll_older();
                None
            },
            Key::Char('`') => Some(evt(None, UiEvent::ToggleLog)),
            _ => None,
        }
    }

    /// Record the spoken language the screen is shown in.
    pub fn set_spoken_language(&mut self, spoken_language: Option<spoken::Code>)
        ensures
            final(self)@ == (LogView { spoken_language, ..old(self)@ }),
    {
        self.spoken_language = spoken_language;
    }

    /// The log's lines as the view shows them in a window of the given inner size.
    pub fn view_lines(&mut self, width: u16, height: u16) -> (r: Vec<String>)
        requires
            layout_fits(
                old(self)@.st.scroll,
                log_lines(old(self)@.log, message_width(width)).len() as usize,
                height as usize,
            ),
        ensures
            ({
                let all = log_lines(old(self)@.log, message_width(width));
                let lines = all.len() as usize;
                let window = height as usize;
                let back = settled_back(old(self)@.st.scroll, lines, window).1;
                let start = first_shown(lines, window, back);
                let end = if sat_add(start, window) < lines {
                    sat_add(start, window)
                } else {
                    lines
                };
                &&& final(self)@ == (LogView {
                    st: ScrollLogView {
                        lines,
                        window_lines: window,
                        scroll: settled_back(old(self)@.st.scroll, lines, window).0,
                    },
                    ..old(self)@
                })
                &&& strings_view(r@) == shown_lines(all, start, end, window)
            }),
    {
        let all = all_log_lines(&self.log, width);
        let ghost all_view = strings_view(all@);
        let window = height as usize;
        let (start, end, _back) = self.st.layout(all.len(), window);
        let mut shown: Vec<String> = Vec::new();
        if start <= end {
            let mut i = start;
            proof {
                assert(strings_view(shown@) =~= all_view.subrange(start as int, start as int));
            }
            while i < end
                invariant
                    start <= i <= end,
                    end <= all.len(),
                    all_view == strings_view(all@),
                    strings_view(shown@) == all_view.subrange(start as int, i as int),
                decreases end - i,
            {
                let line = all[i].clone();
                let ghost before = shown@;
                shown.push(line);
                proof {
                    crate::text::lemma_strings_view_push(before, line);
                    assert(all_view[i as int] == all@[i as int]@);
                    assert(strings_view(shown@) =~= all_view.subrange(start as int, i + 1));
                }
                i = i + 1;
            }
        }
        let ghost shown_view = strings_view(shown@);
        proof {
            if !(start <= end) {
                assert(shown_view =~= Seq::<Seq<char>>::empty());
            }
        }
        let pad = if shown.len() < window {
            window - shown.len()
        } else {
            0
        };
        let mut r: Vec<String> = Vec::new();
        let mut j: usize = 0;
        while j < pad
            invariant
                j <= pad,
                r@.len() == j,
                forall|t: int| 0 <= t < j ==> (#[trigger] r@[t])@ == Seq::<char>::empty(),
            decreases pad - j,
        {
            r.push(String::new());
            j = j + 1;
        }
        let ghost padding = strings_view(r@);
        r.append(&mut shown);
        proof {
            assert(strings_view(r@) =~= padding + shown_view);
            assert(padding =~= Seq::new(pad as nat, |i: int| Seq::<char>::empty()));
        }
        r
    }

    /// The status bar.
    pub fn status_bar(&self) -> (r: &StatusBar)
        ensures
            r@ == self@.sb,
    {
        &self.sb
    }

    /// The log view's state.
    pub fn scroll_log(&self) -> (r: &ScrollLog)
        ensures
            r@ == self@.st,
    {
        &self.st
    }

    /// The logged entries, oldest first.
    pub fn entries(&self) -> (r: &VecDeque<(Option<String>, String)>)
        ensures
            entries_view(r@) == self@.log,
    {
        &self.log
    }
}

/// A log entry, by value.
pub open spec fn entry_view_of(e: (Option<String>, String)) -> EntryView {
    crate::scrolllog::entry_view(e)
}

} // verus!
