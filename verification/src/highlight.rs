//! Splitting code into lines and highlighting Rust and Python code lines.

use crate::render::{single_line, repeat, repeated, SpanStyle, SpanView, LineView, StyledSpan, spans_view};
use crate::text::{
    has_prefix, is_whitespace, owned, push_char, starts_with, str_eq, strings_view, trim_start,
    trimmed_start, whitespace,
};
use vstd::prelude::*;
use vstd::string::*;
use vstd::utf8::encode_utf8;

verus! {

/// The position of the first newline of `s`, or its length.
pub open spec fn newline_index(s: Seq<char>) -> nat
    decreases s.len(),
{
    if s.len() == 0 || s[0] == '\n' {
        0
    } else {
        1 + newline_index(s.drop_first())
    }
}

/// A line without the carriage return that ended it.
pub open spec fn without_cr(l: Seq<char>) -> Seq<char> {
    if l.len() > 0 && l[l.len() - 1] == '\r' {
        l.drop_last()
    } else {
        l
    }
}

/// The lines of a text, split at "\n" or "\r\n"; a final line ending is optional.
pub open spec fn lines_of(s: Seq<char>) -> Seq<Seq<char>>
    decreases s.len(),
{
    if s.len() == 0 {
        Seq::empty()
    } else {
        let i = newline_index(s);
        if i >= s.len() {
            seq![s]
        } else {
            seq![without_cr(s.take(i as int))] + lines_of(s.skip(i as int + 1))
        }
    }
}

proof fn lemma_newline_index_bound(s: Seq<char>)
    ensures
        newline_index(s) <= s.len(),
        newline_index(s) < s.len() ==> s[newline_index(s) as int] == '\n',
        forall|k: int| 0 <= k < newline_index(s) ==> s[k] != '\n',
    decreases s.len(),
{
    if s.len() > 0 && s[0] != '\n' {
        lemma_newline_index_bound(s.drop_first());
        assert forall|k: int| 0 <= k < newline_index(s) implies s[k] != '\n' by {
            if k > 0 {
                assert(s[k] == s.drop_first()[k - 1]);
            }
        }
    }
}

proof fn lemma_newline_index_at(s: Seq<char>, i: int)
    requires
        0 <= i <= s.len(),
        forall|k: int| 0 <= k < i ==> s[k] != '\n',
        i < s.len() ==> s[i] == '\n',
    ensures
        newline_index(s) == i,
    decreases i,
{
    if i > 0 {
        lemma_newline_index_at(s.drop_first(), i - 1);
    }
}

/// Split a text into lines, as `str::lines` does.
pub fn split_lines(s: &str) -> (r: Vec<String>)
    ensures
        strings_view(r@) == lines_of(s@),
{
    let n = s.unicode_len();
    let mut r: Vec<String> = Vec::new();
    let mut start: usize = 0;
    let mut i: usize = 0;
    proof {
        assert(s@.skip(0) =~= s@);
        assert(strings_view(r@) + lines_of(s@) =~= lines_of(s@));
    }
    while i < n
        invariant
            n == s@.len(),
            start <= i <= n,
            forall|k: int| start <= k < i ==> s@[k] != '\n',
            lines_of(s@) == strings_view(r@) + lines_of(s@.skip(start as int)),
        decreases n - i,
    {
        if s.get_char(i) == '\n' {
            let mut line = owned(s.substring_char(start, i));
            if i > start && s.get_char(i - 1) == '\r' {
                line = owned(s.substring_char(start, i - 1));
            }
            proof {
                let t = s@.skip(start as int);
                lemma_newline_index_at(t, i - start);
                assert(t.take(i - start) =~= s@.subrange(start as int, i as int));
                assert(t.skip(i - start + 1) =~= s@.skip(i + 1));
                if i > start && s@[i - 1] == '\r' {
                    assert(s@.subrange(start as int, i as int).drop_last() =~= s@.subrange(start as int, i - 1));
                }
                assert(strings_view(r@.push(line)) =~= strings_view(r@).push(line@));
            }
            r.push(line);
            start = i + 1;
        }
        i = i + 1;
    }
    if start < n {
        let line = owned(s.substring_char(start, n));
        proof {
            let t = s@.skip(start as int);
            lemma_newline_index_at(t, n - start);
            assert(t =~= s@.subrange(start as int, n as int));
            assert(strings_view(r@.push(line)) =~= strings_view(r@).push(line@));
            assert(s@.skip(n as int).len() == 0);
        }
        r.push(line);
        proof {
            assert(lines_of(s@.skip(start as int)) =~= seq![line@]);
        }
    } else {
        proof {
            assert(s@.skip(start as int).len() == 0);
        }
    }
    proof {
        assert(strings_view(r@) =~= lines_of(s@));
    }
    r
}

// ---------------------------------------------------------------- Rust

/// A Rust keyword the highlighter knows.
pub open spec fn is_rust_keyword(w: Seq<char>) -> bool {
    w == "fn"@ || w == "let"@ || w == "mut"@ || w == "if"@ || w == "else"@ || w == "for"@ || w
        == "while"@ || w == "match"@ || w == "impl"@ || w == "struct"@ || w == "enum"@ || w
        == "use"@ || w == "pub"@
}

fn rust_keyword(w: &str) -> (r: bool)
    ensures
        r == is_rust_keyword(w@),
{
    str_eq(w, "fn") || str_eq(w, "let") || str_eq(w, "mut") || str_eq(w, "if") || str_eq(w, "else")
        || str_eq(w, "for") || str_eq(w, "while") || str_eq(w, "match") || str_eq(w, "impl")
        || str_eq(w, "struct") || str_eq(w, "enum") || str_eq(w, "use") || str_eq(w, "pub")
}

/// The style of a word of Rust code.
pub open spec fn rust_word_style(w: Seq<char>, in_string: bool) -> SpanStyle {
    if in_string {
        SpanStyle::StringLiteral
    } else if is_rust_keyword(w) {
        SpanStyle::Keyword
    } else if w.len() > 0 && w[w.len() - 1] == '!' {
        SpanStyle::Macro
    } else {
        SpanStyle::Code
    }
}

/// A character that ends a word of Rust code.
pub open spec fn is_rust_delimiter(c: char) -> bool {
    c == ' ' || c == '\t' || c == '(' || c == ')' || c == '{' || c == '}' || c == '[' || c == ']'
        || c == ';' || c == ',' || c == ':'
}

/// The state of scanning a line of Rust code.
pub struct RustScan {
    pub spans: LineView,
    pub current: Seq<char>,
    pub in_string: bool,
}

/// The word being read, if any, ends in a style.
pub open spec fn rust_flush(st: RustScan, in_string: bool) -> RustScan {
    if st.current.len() > 0 {
        RustScan {
            spans: st.spans.push((st.current, rust_word_style(st.current, in_string))),
            current: Seq::empty(),
            ..st
        }
    } else {
        st
    }
}

/// How one character changes the scan.
pub open spec fn rust_step(st: RustScan, c: char) -> RustScan {
    if c == '"' {
        let st1 = rust_flush(st, false);
        let opened = !st1.in_string;
        if opened {
            RustScan { current: seq!['"'], in_string: true, ..st1 }
        } else {
            RustScan {
                spans: st1.spans.push((seq!['"'], SpanStyle::StringLiteral)),
                current: Seq::empty(),
                in_string: false,
            }
        }
    } else if is_rust_delimiter(c) {
        let st1 = rust_flush(st, st.in_string);
        RustScan { spans: st1.spans.push((seq![c], SpanStyle::Code)), ..st1 }
    } else {
        RustScan { current: st.current.push(c), ..st }
    }
}

/// The scan after reading the characters of `s`.
pub open spec fn rust_run(s: Seq<char>) -> RustScan
    decreases s.len(),
{
    if s.len() == 0 {
        RustScan { spans: Seq::empty(), current: Seq::empty(), in_string: false }
    } else {
        rust_step(rust_run(s.drop_last()), s[s.len() - 1])
    }
}

/// The highlighted spans of a line of Rust code: a comment line in one span; otherwise words
/// colored as keywords, macros and string literals, and delimiters each in a span.
pub open spec fn rust_line_spans(line: Seq<char>) -> LineView {
    if starts_with(trimmed_start(line), "//"@) {
        seq![(line, SpanStyle::Comment)]
    } else {
        let st = rust_run(line);
        rust_flush(st, st.in_string).spans
    }
}

/// The spans and the word being read, held by the program.
struct RustScanner {
    spans: Vec<StyledSpan>,
    current: String,
    in_string: bool,
}

impl RustScanner {
    spec fn view(&self) -> RustScan {
        RustScan { spans: spans_view(self.spans@), current: self.current@, in_string: self.in_string }
    }

    fn flush(&mut self, in_string: bool)
        ensures
            final(self).view() == rust_flush(old(self).view(), in_string),
    {
        if self.current.as_str().unicode_len() > 0 {
            let style = if in_string {
                SpanStyle::StringLiteral
            } else if rust_keyword(self.current.as_str()) {
                SpanStyle::Keyword
            } else if self.current.as_str().get_char(self.current.as_str().unicode_len() - 1) == '!' {
                SpanStyle::Macro
            } else {
                SpanStyle::Code
            };
            let mut word = String::new();
            std::mem::swap(&mut word, &mut self.current);
            let ghost old_spans = spans_view(self.spans@);
            self.spans.push(StyledSpan { text: word, style });
            proof {
                assert(spans_view(self.spans@) =~= old_spans.push((word@, style)));
            }
        }
    }

    fn step(&mut self, c: char)
        ensures
            final(self).view() == rust_step(old(self).view(), c),
    {
        if c == '"' {
            self.flush(false);
            self.current = String::new();
            push_char(&mut self.current, c);
            self.in_string = !self.in_string;
            if !self.in_string {
                let mut word = String::new();
                std::mem::swap(&mut word, &mut self.current);
                let ghost old_spans = spans_view(self.spans@);
                self.spans.push(StyledSpan { text: word, style: SpanStyle::StringLiteral });
                proof {
                    assert(spans_view(self.spans@) =~= old_spans.push((seq!['"'], SpanStyle::StringLiteral)));
                }
            }
            proof {
                assert(self.current@ =~= (if self.in_string { seq!['"'] } else { Seq::<char>::empty() }));
            }
        } else if c == ' ' || c == '\t' || c == '(' || c == ')' || c == '{' || c == '}' || c == '['
            || c == ']' || c == ';' || c == ',' || c == ':' {
            let in_string = self.in_string;
            self.flush(in_string);
            let mut text = String::new();
            push_char(&mut text, c);
            let ghost old_spans = spans_view(self.spans@);
            self.spans.push(StyledSpan { text, style: SpanStyle::Code });
            proof {
                assert(spans_view(self.spans@) =~= old_spans.push((seq![c], SpanStyle::Code)));
            }
        } else {
            push_char(&mut self.current, c);
        }
    }
}

/// Highlight a line of Rust code.
pub fn highlight_rust_line(line: &str) -> (r: Vec<StyledSpan>)
    ensures
        spans_view(r@) == rust_line_spans(line@),
{
    let t = trim_start(line);
    if has_prefix(t.as_str(), "//") {
        let mut r: Vec<StyledSpan> = Vec::new();
        r.push(StyledSpan { text: owned(line), style: SpanStyle::Comment });
        proof {
            assert(spans_view(r@) =~= seq![(line@, SpanStyle::Comment)]);
        }
        return r;
    }
    let mut sc = RustScanner { spans: Vec::new(), current: String::new(), in_string: false };
    proof {
        assert(spans_view(sc.spans@) =~= Seq::<SpanView>::empty());
    }
    let n = line.unicode_len();
    let mut i: usize = 0;
    while i < n
        invariant
            n == line@.len(),
            i <= n,
            sc.view() == rust_run(line@.take(i as int)),
        decreases n - i,
    {
        let c = line.get_char(i);
        proof {
            assert(line@.take(i + 1).drop_last() =~= line@.take(i as int));
        }
        sc.step(c);
        i = i + 1;
    }
    proof {
        assert(line@.take(n as int) =~= line@);
    }
    let in_string = sc.in_string;
    sc.flush(in_string);
    sc.spans
}


// ---------------------------------------------------------------- words

/// The number of leading non-whitespace characters of `s`.
pub open spec fn word_len(s: Seq<char>) -> nat
    decreases s.len(),
{
    if s.len() > 0 && !whitespace(s[0]) {
        1 + word_len(s.drop_first())
    } else {
        0
    }
}

pub proof fn lemma_word_len_bound(s: Seq<char>)
    ensures
        word_len(s) <= s.len(),
        s.len() > 0 && !whitespace(s[0]) ==> word_len(s) >= 1,
    decreases s.len(),
{
    if s.len() > 0 && !whitespace(s[0]) {
        lemma_word_len_bound(s.drop_first());
    }
}

pub proof fn lemma_leading_whitespace_bound(s: Seq<char>)
    ensures
        crate::text::leading_whitespace(s) <= s.len(),
        crate::text::leading_whitespace(s) < s.len() ==> !whitespace(
            s[crate::text::leading_whitespace(s) as int],
        ),
    decreases s.len(),
{
    if s.len() > 0 && whitespace(s[0]) {
        lemma_leading_whitespace_bound(s.drop_first());
    }
}

/// The words of `s`: its maximal runs of non-whitespace characters, in order.
pub open spec fn split_ws(s: Seq<char>) -> Seq<Seq<char>>
    decreases s.len(),
{
    let t = trimmed_start(s);
    if t.len() == 0 {
        Seq::empty()
    } else {
        proof {
            lemma_leading_whitespace_bound(s);
            lemma_word_len_bound(t);
        }
        seq![t.take(word_len(t) as int)] + split_ws(t.skip(word_len(t) as int))
    }
}

proof fn lemma_word_len_at(s: Seq<char>, i: int)
    requires
        0 <= i <= s.len(),
        forall|k: int| 0 <= k < i ==> !whitespace(s[k]),
        i < s.len() ==> whitespace(s[i]),
    ensures
        word_len(s) == i,
    decreases i,
{
    if i > 0 {
        lemma_word_len_at(s.drop_first(), i - 1);
    }
}

proof fn lemma_leading_whitespace_at(s: Seq<char>, i: int)
    requires
        0 <= i <= s.len(),
        forall|k: int| 0 <= k < i ==> whitespace(s[k]),
        i < s.len() ==> !whitespace(s[i]),
    ensures
        crate::text::leading_whitespace(s) == i,
    decreases i,
{
    if i > 0 {
        lemma_leading_whitespace_at(s.drop_first(), i - 1);
    }
}

/// Split a text into its whitespace-separated words, as `str::split_whitespace` does.
pub fn split_whitespace(s: &str) -> (r: Vec<String>)
    ensures
        strings_view(r@) == split_ws(s@),
{
    let n = s.unicode_len();
    let mut r: Vec<String> = Vec::new();
    let mut i: usize = 0;
    proof {
        assert(s@.skip(0) =~= s@);
        assert(strings_view(r@) + split_ws(s@) =~= split_ws(s@));
    }
    while i < n
        invariant
            n == s@.len(),
            i <= n,
            split_ws(s@) == strings_view(r@) + split_ws(s@.skip(i as int)),
        decreases n - i,
    {
        let start = i;
        while i < n && is_whitespace(s.get_char(i))
            invariant
                n == s@.len(),
                start <= i <= n,
                forall|k: int| start <= k < i ==> whitespace(s@[k]),
            decreases n - i,
        {
            i = i + 1;
        }
        let ws_end = i;
        while i < n && !is_whitespace(s.get_char(i))
            invariant
                n == s@.len(),
                ws_end <= i <= n,
                forall|k: int| ws_end <= k < i ==> !whitespace(s@[k]),
            decreases n - i,
        {
            i = i + 1;
        }
        proof {
            let u = s@.skip(start as int);
            lemma_leading_whitespace_at(u, ws_end - start);
            assert(trimmed_start(u) =~= s@.skip(ws_end as int));
        }
        if ws_end < i {
            let word = owned(s.substring_char(ws_end, i));
            proof {
                let t = s@.skip(ws_end as int);
                lemma_word_len_at(t, i - ws_end);
                assert(t.take(i - ws_end) =~= word@);
                assert(t.skip(i - ws_end) =~= s@.skip(i as int));
                assert(strings_view(r@.push(word)) =~= strings_view(r@).push(word@));
            }
            r.push(word);
        } else {
            proof {
                assert(s@.skip(ws_end as int).len() == 0);
            }
        }
    }
    proof {
        assert(s@.skip(n as int).len() == 0);
        assert(trimmed_start(s@.skip(n as int)).len() == 0);
        assert(strings_view(r@) =~= split_ws(s@));
    }
    r
}

// ---------------------------------------------------------------- Python

/// A Python keyword the highlighter knows.
pub open spec fn is_python_keyword(w: Seq<char>) -> bool {
    w == "def"@ || w == "class"@ || w == "if"@ || w == "elif"@ || w == "else"@ || w == "for"@ || w
        == "while"@ || w == "try"@ || w == "except"@ || w == "import"@ || w == "from"@ || w
        == "return"@ || w == "print"@
}

fn python_keyword(w: &str) -> (r: bool)
    ensures
        r == is_python_keyword(w@),
{
    str_eq(w, "def") || str_eq(w, "class") || str_eq(w, "if") || str_eq(w, "elif") || str_eq(
        w,
        "else",
    ) || str_eq(w, "for") || str_eq(w, "while") || str_eq(w, "try") || str_eq(w, "except")
        || str_eq(w, "import") || str_eq(w, "from") || str_eq(w, "return") || str_eq(w, "print")
}

/// A character trimmed from the end of a Python word before it is compared to the keywords.
pub open spec fn is_closing(c: char) -> bool {
    c == '(' || c == ':' || c == ')' || c == '"'
}

/// Whether a line of Python code can be highlighted: whether `python_line_spans` is defined on it.
pub fn python_line_highlightable(line: &str) -> (r: bool)
    ensures
        r == python_line_spans(line@) is Some,
{
    let t = trim_start(line);
    if has_prefix(t.as_str(), "#") {
        return true;
    }
    let words = split_whitespace(line);
    let ghost all = strings_view(words@);
    let blen = line.as_bytes().len();
    let n = line.unicode_len();
    let mut pos: usize = 0;
    let mut k: usize = 0;
    proof {
        assert(all.skip(0) =~= all);
    }
    while k < words.len()
        invariant
            all == strings_view(words@),
            all == split_ws(line@),
            blen == byte_len(line@),
            n == line@.len(),
            k <= words.len(),
            !starts_with(trimmed_start(line@), "#"@),
            (python_words(line@, all, 0) is Some) == (python_words(
                line@,
                all.skip(k as int),
                pos as int,
            ) is Some),
        decreases words.len() - k,
    {
        let ghost rest = all.skip(k as int);
        let ghost gap_start = pos as int;
        proof {
            assert(rest.drop_first() =~= all.skip(k + 1));
            assert(rest[0] == all[k as int]);
        }
        while pos < blen
            invariant
                blen == byte_len(line@),
                n == line@.len(),
                k < words.len(),
                all == strings_view(words@),
                all == split_ws(line@),
                rest == all.skip(k as int),
                (python_words(line@, all, 0) is Some) == (python_words(line@, rest, gap_start) is Some),
                !starts_with(trimmed_start(line@), "#"@),
                (python_gap(line@, gap_start) is Some) == (python_gap(line@, pos as int) is Some),
                python_gap(line@, pos as int) is Some ==> python_gap(line@, gap_start).unwrap().1
                    == python_gap(line@, pos as int).unwrap().1,
            ensures
                pos >= blen || (pos < n && !whitespace(line@[pos as int])),
            decreases blen - pos,
        {
            if pos >= n {
                proof {
                    assert(python_gap(line@, pos as int) is None);
                    assert(rest.len() > 0);
                    assert(python_words(line@, rest, gap_start) is None);
                }
                return false;
            }
            if !is_whitespace(line.get_char(pos)) {
                break;
            }
            pos = pos + 1;
        }
        proof {
            assert(python_gap(line@, pos as int) == Some((Seq::<SpanView>::empty(), pos as int)));
        }
        let wlen = words[k].as_str().as_bytes().len();
        proof {
            assert(words@[k as int]@ == all[k as int]);
            assert(wlen == byte_len(all[k as int]));
            if pos as int + wlen as int > usize::MAX {
                lemma_python_words_past_end(line@, all.skip(k + 1), pos + wlen, usize::MAX as int);
            }
        }
        pos = pos.saturating_add(wlen);
        k = k + 1;
    }
    true
}

/// Whether a line of a code block can be highlighted: whether `code_line_renders` holds of it.
pub fn code_line_highlightable(language: Option<&str>, line: &str) -> (r: bool)
    ensures
        r == code_line_renders(
            match language {
                Some(l) => Some(l@),
                None => None,
            },
            line@,
        ),
{
    match language {
        Some(lang) => {
            if str_eq(lang, "python") {
                let t = trim_start(line);
                python_line_highlightable(t.as_str())
            } else {
                proof {
                    assert(lang@ != "python"@);
                }
                true
            }
        },
        None => true,
    }
}

/// A word without its trailing brackets, colons and double quotes.
pub open spec fn trim_closing(w: Seq<char>) -> Seq<char>
    decreases w.len(),
{
    if w.len() > 0 && is_closing(w[w.len() - 1]) {
        trim_closing(w.drop_last())
    } else {
        w
    }
}

/// The style of a word of Python code.
pub open spec fn python_word_style(w: Seq<char>) -> SpanStyle {
    if is_python_keyword(trim_closing(w)) {
        SpanStyle::Keyword
    } else if w.contains('"') || w.contains('\'') {
        SpanStyle::StringLiteral
    } else {
        SpanStyle::Code
    }
}

/// The number of bytes a text takes in UTF-8.
pub open spec fn byte_len(s: Seq<char>) -> int {
    encode_utf8(s).len() as int
}

/// The whitespace before a word, one span per character, read from byte position `pos` but
/// looked up by character position; `None` where the lookup falls past the last character.
pub open spec fn python_gap(line: Seq<char>, pos: int) -> Option<(LineView, int)>
    decreases byte_len(line) - pos,
{
    if pos >= byte_len(line) || pos < 0 {
        Some((Seq::empty(), pos))
    } else if pos >= line.len() {
        None
    } else if whitespace(line[pos]) {
        match python_gap(line, pos + 1) {
            Some((gap, p)) => Some((seq![(seq![line[pos]], SpanStyle::Code)] + gap, p)),
            None => None,
        }
    } else {
        Some((Seq::empty(), pos))
    }
}

/// The spans of the words from byte position `pos` on; `None` where highlighting fails.
pub open spec fn python_words(line: Seq<char>, words: Seq<Seq<char>>, pos: int) -> Option<LineView>
    decreases words.len(),
{
    if words.len() == 0 {
        Some(Seq::empty())
    } else {
        match python_gap(line, pos) {
            None => None,
            Some((gap, p)) => match python_words(
                line,
                words.drop_first(),
                p + byte_len(words[0]),
            ) {
                None => None,
                Some(rest) => Some(gap.push((words[0], python_word_style(words[0]))) + rest),
            },
        }
    }
}

/// Dropping characters from the front of a text cannot lengthen its encoding.
pub proof fn lemma_byte_len_skip(s: Seq<char>, k: int)
    requires
        0 <= k <= s.len(),
    ensures
        byte_len(s.skip(k)) <= byte_len(s),
    decreases k,
{
    if k > 0 {
        assert(s.drop_first().skip(k - 1) =~= s.skip(k));
        lemma_byte_len_skip(s.drop_first(), k - 1);
    } else {
        assert(s.skip(0) =~= s);
    }
}

/// Past the end of the line, where the words are read from no longer matters.
proof fn lemma_python_words_past_end(line: Seq<char>, words: Seq<Seq<char>>, p: int, q: int)
    requires
        p >= byte_len(line),
        q >= byte_len(line),
    ensures
        python_words(line, words, p) == python_words(line, words, q),
    decreases words.len(),
{
    if words.len() > 0 {
        lemma_python_words_past_end(line, words.drop_first(), p + byte_len(words[0]), q + byte_len(words[0]));
    }
}

/// The highlighted spans of a line of Python code; `None` for the lines on which the
/// highlighter's position bookkeeping (bytes counted, characters looked up) runs past the end.
pub open spec fn python_line_spans(line: Seq<char>) -> Option<LineView> {
    if starts_with(trimmed_start(line), "#"@) {
        Some(seq![(line, SpanStyle::Comment)])
    } else {
        python_words(line, split_ws(line), 0)
    }
}

/// Highlight a line of Python code.
pub fn highlight_python_line(line: &str) -> (r: Vec<StyledSpan>)
    requires
        python_line_spans(line@) is Some,
    ensures
        spans_view(r@) == python_line_spans(line@).unwrap(),
{
    let t = trim_start(line);
    let mut r: Vec<StyledSpan> = Vec::new();
    if has_prefix(t.as_str(), "#") {
        r.push(StyledSpan { text: owned(line), style: SpanStyle::Comment });
        proof {
            assert(spans_view(r@) =~= seq![(line@, SpanStyle::Comment)]);
        }
        return r;
    }
    let words = split_whitespace(line);
    let ghost all = strings_view(words@);
    let blen = line.as_bytes().len();
    let n = line.unicode_len();
    let mut pos: usize = 0;
    let mut k: usize = 0;
    proof {
        assert(all.skip(0) =~= all);
        assert(spans_view(r@) =~= Seq::<SpanView>::empty());
        assert(spans_view(r@) + python_words(line@, all, 0).unwrap() =~= python_words(line@, all, 0).unwrap());
    }
    while k < words.len()
        invariant
            all == strings_view(words@),
            all == split_ws(line@),
            blen == byte_len(line@),
            n == line@.len(),
            k <= words.len(),
            python_words(line@, all.skip(k as int), pos as int) is Some,
            python_words(line@, all, 0) == Some(
                spans_view(r@) + python_words(line@, all.skip(k as int), pos as int).unwrap(),
            ),
        decreases words.len() - k,
    {
        let ghost rest = all.skip(k as int);
        let ghost gap_start = pos as int;
        let ghost before = spans_view(r@);
        let ghost mut gap_spans: LineView = Seq::empty();
        proof {
            assert(rest.drop_first() =~= all.skip(k + 1));
            assert(rest[0] == all[k as int]);
            assert(python_gap(line@, gap_start).unwrap().0 =~= gap_spans + python_gap(line@, gap_start).unwrap().0);
        }
        while pos < blen && is_whitespace(line.get_char(pos))
            invariant
                blen == byte_len(line@),
                n == line@.len(),
                python_gap(line@, gap_start) is Some,
                python_gap(line@, pos as int) is Some,
                python_gap(line@, gap_start).unwrap() == (
                    gap_spans + python_gap(line@, pos as int).unwrap().0,
                    python_gap(line@, pos as int).unwrap().1,
                ),
                spans_view(r@) == before + gap_spans,
            decreases blen - pos,
        {
            let c = line.get_char(pos);
            let mut text = String::new();
            push_char(&mut text, c);
            let ghost old_spans = spans_view(r@);
            r.push(StyledSpan { text, style: SpanStyle::Code });
            proof {
                assert(spans_view(r@) =~= old_spans.push((seq![c], SpanStyle::Code)));
                gap_spans = gap_spans.push((seq![c], SpanStyle::Code));
                assert(spans_view(r@) =~= before + gap_spans);
                let g = python_gap(line@, pos + 1);
                assert(g is Some);
                assert(gap_spans + g.unwrap().0 =~= gap_spans.drop_last() + (seq![(seq![c], SpanStyle::Code)] + g.unwrap().0));
            }
            pos = pos + 1;
        }
        proof {
            assert(python_gap(line@, pos as int) == Some((Seq::<SpanView>::empty(), pos as int)));
            assert(gap_spans + Seq::<SpanView>::empty() =~= gap_spans);
        }
        let word = &words[k];
        let style = if python_keyword(trim_closing_str(word.as_str()).as_str()) {
            SpanStyle::Keyword
        } else if contains_char(word.as_str(), '"') || contains_char(word.as_str(), '\'') {
            SpanStyle::StringLiteral
        } else {
            SpanStyle::Code
        };
        let wlen = word.as_str().as_bytes().len();
        let ghost old_spans = spans_view(r@);
        r.push(StyledSpan { text: word.clone(), style });
        proof {
            assert(word@ == all[k as int]);
            assert(wlen == byte_len(all[k as int]));
            assert(spans_view(r@) =~= old_spans.push((all[k as int], python_word_style(all[k as int]))));
            let next = python_words(line@, all.skip(k + 1), pos + wlen);
            assert(next is Some);
            assert(spans_view(r@) + next.unwrap() =~= before + (gap_spans.push((all[k as int], python_word_style(all[k as int]))) + next.unwrap()));
            if pos as int + wlen as int > usize::MAX {
                lemma_python_words_past_end(line@, all.skip(k + 1), pos + wlen, usize::MAX as int);
            }
        }
        pos = pos.saturating_add(wlen);
        k = k + 1;
    }
    proof {
        assert(all.skip(k as int).len() == 0);
        assert(spans_view(r@) + Seq::<SpanView>::empty() =~= spans_view(r@));
    }
    r
}

/// A word without its trailing brackets, colons and double quotes.
fn trim_closing_str(w: &str) -> (r: String)
    ensures
        r@ == trim_closing(w@),
{
    let mut end = w.unicode_len();
    proof {
        assert(w@.take(end as int) =~= w@);
    }
    while end > 0 && closing_char(w.get_char(end - 1))
        invariant
            end <= w@.len(),
            trim_closing(w@) == trim_closing(w@.take(end as int)),
        decreases end,
    {
        proof {
            assert(w@.take(end as int).drop_last() =~= w@.take(end - 1));
        }
        end = end - 1;
    }
    proof {
        assert(w@.take(end as int) =~= w@.subrange(0, end as int));
    }
    owned(w.substring_char(0, end))
}

/// A character trimmed from the end of a Python word.
fn closing_char(c: char) -> (r: bool)
    ensures
        r == is_closing(c),
{
    c == '(' || c == ':' || c == ')' || c == '"'
}

/// Whether `s` holds the character `c`.
fn contains_char(s: &str, c: char) -> (r: bool)
    ensures
        r == s@.contains(c),
{
    let n = s.unicode_len();
    let mut i: usize = 0;
    while i < n
        invariant
            n == s@.len(),
            i <= n,
            forall|k: int| 0 <= k < i ==> s@[k] != c,
        decreases n - i,
    {
        if s.get_char(i) == c {
            return true;
        }
        i = i + 1;
    }
    false
}

// ---------------------------------------------------------------- code lines

/// The highlighted spans of a line of a code block: plain when the block names no language;
/// otherwise its indentation (one space per byte of leading whitespace) and then the line
/// highlighted for Rust, for Python, or plain for any other language.
pub open spec fn code_line_spans(language: Option<Seq<char>>, line: Seq<char>) -> LineView {
    match language {
        None => seq![(line, SpanStyle::Code)],
        Some(lang) => {
            let t = trimmed_start(line);
            let indent = byte_len(line) - byte_len(t);
            (if indent > 0 {
                seq![(repeated(" "@, indent as nat), SpanStyle::Code)]
            } else {
                Seq::empty()
            }) + (if lang == "rust"@ {
                rust_line_spans(t)
            } else if lang == "python"@ {
                python_line_spans(t).unwrap()
            } else {
                seq![(t, SpanStyle::Code)]
            })
        },
    }
}

/// A line of a code block can be highlighted: it is not a Python line on which highlighting
/// fails.
pub open spec fn code_line_renders(language: Option<Seq<char>>, line: Seq<char>) -> bool {
    language == Some("python"@) ==> python_line_spans(trimmed_start(line)) is Some
}

/// The highlighted spans of a line of a code block.
pub fn code_spans(language: Option<&str>, line: &str) -> (r: Vec<StyledSpan>)
    requires
        code_line_renders(
            match language {
                Some(l) => Some(l@),
                None => None,
            },
            line@,
        ),
    ensures
        spans_view(r@) == code_line_spans(
            match language {
                Some(l) => Some(l@),
                None => None,
            },
            line@,
        ),
{
    match language {
        None => {
            let mut r: Vec<StyledSpan> = Vec::new();
            r.push(StyledSpan { text: owned(line), style: SpanStyle::Code });
            proof {
                assert(spans_view(r@) =~= seq![(line@, SpanStyle::Code)]);
            }
            r
        },
        Some(lang) => {
            let t = trim_start(line);
            proof {
                lemma_leading_whitespace_bound(line@);
                lemma_byte_len_skip(line@, crate::text::leading_whitespace(line@) as int);
            }
            let indent = line.as_bytes().len() - t.as_str().as_bytes().len();
            let mut r: Vec<StyledSpan> = Vec::new();
            if indent > 0 {
                r.push(StyledSpan { text: repeat(" ", indent), style: SpanStyle::Code });
            }
            let ghost head = spans_view(r@);
            proof {
                assert(head =~= (if indent > 0 {
                    seq![(repeated(" "@, indent as nat), SpanStyle::Code)]
                } else {
                    Seq::<SpanView>::empty()
                }));
            }
            let mut body = if str_eq(lang, "rust") {
                highlight_rust_line(t.as_str())
            } else if str_eq(lang, "python") {
                highlight_python_line(t.as_str())
            } else {
                let mut b: Vec<StyledSpan> = Vec::new();
                b.push(StyledSpan { text: t.clone(), style: SpanStyle::Code });
                proof {
                    assert(spans_view(b@) =~= seq![(t@, SpanStyle::Code)]);
                }
                b
            };
            let ghost body_view = spans_view(body@);
            r.append(&mut body);
            proof {
                assert(spans_view(r@) =~= head + body_view);
            }
            r
        },
    }
}

} // verus!
