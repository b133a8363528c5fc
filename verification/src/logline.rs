//! The lines of the log screen made from what the program logs: each line starts with a
//! two-character marker (an emoji letter and a space), then two spaces per open span, then
//! the message.

use crate::render::{repeat, repeated};
use crate::text::push_char;
use vstd::prelude::*;
use vstd::string::*;

verus! {

/// How serious a logged event is.
#[derive(Clone, Copy, Debug, PartialEq, Eq, Structural)]
pub enum Level {
    Error,
    Warn,
    Info,
    Debug,
    Trace,
}

/// The marker a line gets from its level when the message brings none.
pub open spec fn level_marker(level: Level) -> Seq<char> {
    match level {
        Level::Error => seq!['!', ' '],
        Level::Warn => seq!['^', ' '],
        Level::Info => seq!['i', ' '],
        Level::Debug => seq![' ', ' '],
        Level::Trace => seq![' ', ' '],
    }
}

/// The letters a message can start with, followed by a space, to bring its own marker.
pub open spec fn marker_letter(c: char) -> bool {
    c == '*' || c == 'v' || c == 'x' || c == 'r' || c == 'y' || c == 'n' || c == '!' || c == '^'
        || c == 'i' || c == '>' || c == '<'
}

/// The message starts with its own marker.
pub open spec fn has_marker(m: Seq<char>) -> bool {
    m.len() >= 2 && marker_letter(m[0]) && m[1] == ' '
}

/// Two spaces for each open span.
pub open spec fn indent(depth: nat) -> Seq<char> {
    repeated(seq![' ', ' '], depth)
}

/// The line for a logged message: its own marker, or else the level's, then the indentation,
/// then the rest of the message.
pub open spec fn event_text(level: Level, depth: nat, m: Seq<char>) -> Seq<char> {
    if has_marker(m) {
        m.take(2) + indent(depth) + m.skip(2)
    } else {
        level_marker(level) + indent(depth) + m
    }
}

/// The line for entering (`>`) or leaving (`<`) a span.
pub open spec fn span_text(entering: bool, depth: nat, name: Seq<char>) -> Seq<char> {
    seq![if entering { '>' } else { '<' }, ' '] + indent(depth) + name
}

/// The marker a line gets from its level.
fn push_level_marker(s: &mut String, level: Level)
    ensures
        final(s)@ == old(s)@ + level_marker(level),
{
    let c = match level {
        Level::Error => '!',
        Level::Warn => '^',
        Level::Info => 'i',
        Level::Debug => ' ',
        Level::Trace => ' ',
    };
    push_char(s, c);
    push_char(s, ' ');
    proof {
        assert(s@ =~= old(s)@ + level_marker(level));
    }
}

/// Whether a character can start a message's own marker.
fn is_marker_letter(c: char) -> (r: bool)
    ensures
        r == marker_letter(c),
{
    c == '*' || c == 'v' || c == 'x' || c == 'r' || c == 'y' || c == 'n' || c == '!' || c == '^'
        || c == 'i' || c == '>' || c == '<'
}

/// Append the characters of `m` from position `from` on.
fn push_from(s: &mut String, m: &str, from: usize)
    requires
        from <= m@.len(),
    ensures
        final(s)@ == old(s)@ + m@.skip(from as int),
{
    let n = m.unicode_len();
    let mut i = from;
    while i < n
        invariant
            n == m@.len(),
            from <= i <= n,
            s@ == old(s)@ + m@.subrange(from as int, i as int),
        decreases n - i,
    {
        let c = m.get_char(i);
        push_char(s, c);
        proof {
            assert(m@.subrange(from as int, i + 1) =~= m@.subrange(from as int, i as int).push(c));
        }
        i = i + 1;
    }
    proof {
        assert(m@.subrange(from as int, n as int) =~= m@.skip(from as int));
    }
}

/// The line for a logged message at a depth of open spans.
pub fn event_line(level: Level, depth: usize, message: &str) -> (r: String)
    ensures
        r@ == event_text(level, depth as nat, message@),
{
    let n = message.unicode_len();
    let pad = repeat("  ", depth);
    proof {
        reveal_strlit("  ");
        assert("  "@ =~= seq![' ', ' ']);
    }
    let mut r = String::new();
    if n >= 2 && is_marker_letter(message.get_char(0)) && message.get_char(1) == ' ' {
        push_char(&mut r, message.get_char(0));
        push_char(&mut r, message.get_char(1));
        r.append(pad.as_str());
        push_from(&mut r, message, 2);
        proof {
            assert(message@.take(2) =~= seq![message@[0], message@[1]]);
            assert(r@ =~= event_text(level, depth as nat, message@));
        }
    } else {
        push_level_marker(&mut r, level);
        r.append(pad.as_str());
        r.append(message);
        proof {
            assert(r@ =~= event_text(level, depth as nat, message@));
        }
    }
    r
}

/// The line for entering or leaving a span at a depth of open spans.
pub fn span_line(entering: bool, depth: usize, name: &str) -> (r: String)
    ensures
        r@ == span_text(entering, depth as nat, name@),
{
    let pad = repeat("  ", depth);
    proof {
        reveal_strlit("  ");
        assert("  "@ =~= seq![' ', ' ']);
    }
    let mut r = String::new();
    push_char(&mut r, if entering { '>' } else { '<' });
    push_char(&mut r, ' ');
    r.append(pad.as_str());
    r.append(name);
    proof {
        assert(r@ =~= span_text(entering, depth as nat, name@));
    }
    r
}

/// The number of spans open while the program logs.
pub struct SpanDepth {
    depth: usize,
}

impl View for SpanDepth {
    type V = nat;

    closed spec fn view(&self) -> nat {
        self.depth as nat
    }
}

impl SpanDepth {
    /// No span open.
    pub fn new() -> (r: Self)
        ensures
            r@ == 0,
    {
        SpanDepth { depth: 0 }
    }

    /// The number of open spans.
    pub fn depth(&self) -> (r: usize)
        ensures
            r == self@,
    {
        self.depth
    }

    /// The line for a message logged now.
    pub fn event(&self, level: Level, message: &str) -> (r: String)
        ensures
            r@ == event_text(level, self@, message@),
    {
        event_line(level, self.depth, message)
    }

    /// Enter a span: its line is written at the depth before, and one more span is open.
    pub fn enter(&mut self, name: &str) -> (r: String)
        requires
            old(self)@ < usize::MAX,
        ensures
            r@ == span_text(true, old(self)@, name@),
            final(self)@ == old(self)@ + 1,
    {
        let r = span_line(true, self.depth, name);
        self.depth = self.depth + 1;
        r
    }

    /// Leave a span: one span fewer is open, never below none, and its line is written at
    /// that depth.
    pub fn exit(&mut self, name: &str) -> (r: String)
        ensures
            final(self)@ == (if old(self)@ > 0 { old(self)@ - 1 } else { 0 }),
            r@ == span_text(false, final(self)@, name@),
    {
        if self.depth > 0 {
            self.depth = self.depth - 1;
        }
        span_line(false, self.depth, name)
    }
}

/// Entering a span and leaving it again brings the depth back, and the two lines are
/// indented alike: they differ only in their first character.
pub proof fn lemma_enter_exit_balanced(depth: nat, name: Seq<char>)
    ensures
        ({
            let entered = depth + 1;
            let left = if entered > 0 { (entered - 1) as nat } else { 0nat };
            &&& left == depth
            &&& span_text(true, depth, name).len() == span_text(false, left, name).len()
            &&& span_text(false, left, name) == span_text(true, depth, name).update(0, '<')
        }),
{
    let e = span_text(true, depth, name);
    let x = span_text(false, depth, name);
    assert(x =~= e.update(0, '<'));
}

} // verus!
