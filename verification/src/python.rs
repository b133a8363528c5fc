//! Finding a Python interpreter: reading the version from what `--version` prints, and whether
//! it is recent enough.

use crate::text::{has_prefix, is_whitespace, owned, push_char, starts_with, strings_view, whitespace};
use vstd::prelude::*;
use vstd::string::*;

verus! {

#[verifier::external_type_specification]
#[verifier::external_body]
pub struct ExSemverVersion(semver::Version);

/// A semantic version: its numbers, and its pre-release and build texts.
pub struct SemVer {
    major: u64,
    minor: u64,
    patch: u64,
    pre: String,
    build: String,
    parsed: semver::Version,
}

/// A version by value.
pub struct VersionView {
    pub major: u64,
    pub minor: u64,
    pub patch: u64,
    pub pre: Seq<char>,
    pub build: Seq<char>,
}

impl View for SemVer {
    type V = VersionView;

    closed spec fn view(&self) -> VersionView {
        VersionView {
            major: self.major,
            minor: self.minor,
            patch: self.patch,
            pre: self.pre@,
            build: self.build@,
        }
    }
}

/// An optional version by value.
pub open spec fn opt_version(v: Option<SemVer>) -> Option<VersionView> {
    match v {
        Some(v) => Some(v@),
        None => None,
    }
}

/// What `semver::Version::parse` gives for a text.
pub uninterp spec fn semver_parse(text: Seq<char>) -> Option<VersionView>;

/// Whether the first version is at least the second, as `semver` orders versions.
pub uninterp spec fn semver_at_least(a: VersionView, b: VersionView) -> bool;

/// The numbers of `a` are at least those of `b`, compared major first, then minor, then patch.
pub open spec fn numbers_at_least(a: VersionView, b: VersionView) -> bool {
    a.major > b.major || (a.major == b.major && (a.minor > b.minor || (a.minor == b.minor
        && a.patch >= b.patch)))
}

/// Wrapper around `semver::Version::parse`: the version a text stands for, if it is one. The
/// result is named `semver_parse`; the version's fields are copied out as they are.
#[verifier::external_body]
fn semver_version(text: &str) -> (r: Option<SemVer>)
    ensures
        opt_version(r) == semver_parse(text@),
{
    match semver::Version::parse(text) {
        Ok(v) => Some(
            SemVer {
                major: v.major,
                minor: v.minor,
                patch: v.patch,
                pre: v.pre.as_str().to_string(),
                build: v.build.as_str().to_string(),
                parsed: v,
            },
        ),
        Err(_) => None,
    }
}

/// Wrapper around `>=` on `semver::Version`, whose result is named `semver_at_least`. As the
/// crate documents its ordering, versions without pre-release or build texts compare by their
/// numbers, major first; how pre-release and build texts order versions is left unsaid.
#[verifier::external_body]
fn semver_ge(a: &SemVer, b: &SemVer) -> (r: bool)
    ensures
        r == semver_at_least(a@, b@),
        a@.pre.len() == 0 && a@.build.len() == 0 && b@.pre.len() == 0 && b@.build.len() == 0 ==> r
            == numbers_at_least(a@, b@),
{
    a.parsed >= b.parsed
}

impl SemVer {
    /// The major number.
    pub fn major(&self) -> (r: u64)
        ensures
            r == self@.major,
    {
        self.major
    }

    /// The minor number.
    pub fn minor(&self) -> (r: u64)
        ensures
            r == self@.minor,
    {
        self.minor
    }

    /// The patch number.
    pub fn patch(&self) -> (r: u64)
        ensures
            r == self@.patch,
    {
        self.patch
    }
}

/// The words of a text as it is read so far: those complete, and the one being read.
pub open spec fn words_so_far(s: Seq<char>) -> (Seq<Seq<char>>, Seq<char>)
    decreases s.len(),
{
    if s.len() == 0 {
        (Seq::empty(), Seq::empty())
    } else {
        let (done, cur) = words_so_far(s.drop_last());
        if whitespace(s.last()) {
            if cur.len() > 0 {
                (done.push(cur), Seq::empty())
            } else {
                (done, Seq::empty())
            }
        } else {
            (done, cur.push(s.last()))
        }
    }
}

/// The words of a text: its longest runs of characters that are not whitespace, in order.
pub open spec fn words(s: Seq<char>) -> Seq<Seq<char>> {
    let (done, cur) = words_so_far(s);
    if cur.len() > 0 {
        done.push(cur)
    } else {
        done
    }
}

/// The words of a text.
pub fn split_words(s: &str) -> (r: Vec<String>)
    ensures
        strings_view(r@) == words(s@),
{
    let n = s.unicode_len();
    let mut done: Vec<String> = Vec::new();
    let mut cur = String::new();
    let mut cur_len: usize = 0;
    let mut i: usize = 0;
    proof {
        assert(s@.take(0) =~= Seq::<char>::empty());
    }
    while i < n
        invariant
            n == s@.len(),
            i <= n,
            cur_len == cur@.len(),
            cur_len <= i,
            (strings_view(done@), cur@) == words_so_far(s@.take(i as int)),
        decreases n - i,
    {
        let c = s.get_char(i);
        proof {
            assert(s@.take(i + 1).drop_last() =~= s@.take(i as int));
            assert(s@.take(i + 1).last() == c);
        }
        if is_whitespace(c) {
            if cur_len > 0 {
                let ghost before = done@;
                done.push(cur);
                proof {
                    assert(strings_view(done@) =~= strings_view(before).push(cur@));
                }
                cur = String::new();
                cur_len = 0;
            }
        } else {
            push_char(&mut cur, c);
            cur_len = cur_len + 1;
        }
        i = i + 1;
    }
    proof {
        assert(s@.take(n as int) =~= s@);
    }
    if cur_len > 0 {
        let ghost before = done@;
        done.push(cur);
        proof {
            assert(strings_view(done@) =~= strings_view(before).push(cur@));
        }
    }
    done
}

/// A word that starts with "Python" and goes on after it.
pub open spec fn python_word(w: Seq<char>) -> bool {
    starts_with(w, "Python"@) && w.len() > "Python"@.len()
}

/// A word made of digits and dots only.
pub open spec fn number_word(w: Seq<char>) -> bool {
    forall|k: int| 0 <= k < w.len() ==> ('0' <= #[trigger] w[k] <= '9' || w[k] == '.')
}

/// The position of the first word that starts with "Python" and goes on after it.
pub open spec fn first_python_word(ws: Seq<Seq<char>>) -> Option<int> {
    if exists|i: int| 0 <= i < ws.len() && #[trigger] python_word(ws[i]) {
        Some(
            choose|i: int|
                0 <= i < ws.len() && #[trigger] python_word(ws[i]) && forall|j: int|
                    0 <= j < i ==> !python_word(ws[j]),
        )
    } else {
        None
    }
}

/// The position of the first word made of digits and dots only.
pub open spec fn first_number_word(ws: Seq<Seq<char>>) -> Option<int> {
    if exists|i: int| 0 <= i < ws.len() && #[trigger] number_word(ws[i]) {
        Some(
            choose|i: int|
                0 <= i < ws.len() && #[trigger] number_word(ws[i]) && forall|j: int|
                    0 <= j < i ==> !number_word(ws[j]),
        )
    } else {
        None
    }
}

/// The version text in what `--version` printed: what follows "Python" in the first word
/// that starts with it, or else the first word of digits and dots.
pub open spec fn version_text(output: Seq<char>) -> Option<Seq<char>> {
    let ws = words(output);
    match first_python_word(ws) {
        Some(i) => Some(ws[i].skip("Python"@.len() as int)),
        None => match first_number_word(ws) {
            Some(j) => Some(ws[j]),
            None => None,
        },
    }
}

/// Whether a word is made of digits and dots only.
fn is_number_word(w: &str) -> (r: bool)
    ensures
        r == number_word(w@),
{
    let n = w.unicode_len();
    let mut k: usize = 0;
    while k < n
        invariant
            n == w@.len(),
            k <= n,
            forall|j: int| 0 <= j < k ==> ('0' <= #[trigger] w@[j] <= '9' || w@[j] == '.'),
        decreases n - k,
    {
        let c = w.get_char(k);
        if !(('0' <= c && c <= '9') || c == '.') {
            return false;
        }
        k = k + 1;
    }
    true
}

/// The version text in what `--version` printed, if there is one.
pub fn find_version_text(output: &str) -> (r: Option<String>)
    ensures
        match r {
            Some(t) => version_text(output@) == Some(t@),
            None => version_text(output@) is None,
        },
{
    let ws = split_words(output);
    let ghost wv = strings_view(ws@);
    let prefix = "Python";
    let plen = prefix.unicode_len();
    let mut i: usize = 0;
    while i < ws.len()
        invariant
            i <= ws.len(),
            wv == strings_view(ws@),
            wv == words(output@),
            plen == prefix@.len(),
            prefix@ == "Python"@,
            forall|j: int| 0 <= j < i ==> !#[trigger] python_word(wv[j]),
        decreases ws.len() - i,
    {
        let w = ws[i].as_str();
        proof {
            assert(wv[i as int] == w@);
        }
        let n = w.unicode_len();
        if has_prefix(w, prefix) && n > plen {
            proof {
                assert(python_word(wv[i as int]));
                let k = first_python_word(wv)->Some_0;
                assert(0 <= k < wv.len() && python_word(wv[k]) && forall|j: int|
                    0 <= j < k ==> !python_word(wv[j]));
                if k < i {
                    assert(!python_word(wv[k]));
                }
                if k > i {
                    assert(!python_word(wv[i as int]));
                }
            }
            return Some(owned(w.substring_char(plen, n)));
        }
        i = i + 1;
    }
    proof {
        assert(first_python_word(wv) is None);
    }
    let mut j: usize = 0;
    while j < ws.len()
        invariant
            j <= ws.len(),
            wv == strings_view(ws@),
            wv == words(output@),
            first_python_word(wv) is None,
            forall|k: int| 0 <= k < j ==> !#[trigger] number_word(wv[k]),
        decreases ws.len() - j,
    {
        let w = ws[j].as_str();
        proof {
            assert(wv[j as int] == w@);
        }
        if is_number_word(w) {
            proof {
                let k = first_number_word(wv)->Some_0;
                assert(0 <= k < wv.len() && number_word(wv[k]) && forall|m: int|
                    0 <= m < k ==> !number_word(wv[m]));
                if k < j {
                    assert(!number_word(wv[k]));
                }
                if k > j {
                    assert(!number_word(wv[j as int]));
                }
            }
            return Some(owned(w));
        }
        j = j + 1;
    }
    None
}

/// The version of a Python interpreter, from what `--version` printed.
pub fn parse_version(output: &str) -> (r: Option<SemVer>)
    ensures
        match version_text(output@) {
            Some(t) => opt_version(r) == semver_parse(t),
            None => r is None,
        },
{
    match find_version_text(output) {
        Some(t) => semver_version(t.as_str()),
        None => None,
    }
}

/// Why no Python interpreter could be used.
#[derive(Debug, Clone, Copy, PartialEq, Eq, Structural)]
pub enum Error {
    /// No interpreter that is recent enough was found, or the minimum version is no version.
    NoPythonExecutable,
}

/// The minimum version required, from its text.
pub fn minimum_version(min_version: &str) -> (r: Result<SemVer, Error>)
    ensures
        match semver_parse(min_version@) {
            Some(v) => r is Ok && r->Ok_0@ == v,
            None => r == Err::<SemVer, Error>(Error::NoPythonExecutable),
        },
{
    match semver_version(min_version) {
        Some(v) => Ok(v),
        None => Err(Error::NoPythonExecutable),
    }
}

/// A candidate whose `--version` printed this (`None` when it did not run successfully) is
/// recent enough: its version is at least the minimum.
pub open spec fn suits(output: Option<Seq<char>>, minimum: VersionView) -> bool {
    match output {
        None => false,
        Some(o) => match version_text(o) {
            None => false,
            Some(t) => match semver_parse(t) {
                None => false,
                Some(v) => semver_at_least(v, minimum),
            },
        },
    }
}

/// Whether a candidate interpreter is recent enough, from what its `--version` printed
/// (`None` when it did not run successfully).
pub fn python_suits(output: Option<&str>, minimum: &SemVer) -> (r: bool)
    ensures
        r == suits(
            match output {
                Some(o) => Some(o@),
                None => None,
            },
            minimum@,
        ),
{
    match output {
        None => false,
        Some(o) => match parse_version(o) {
            None => false,
            Some(v) => semver_ge(&v, minimum),
        },
    }
}

/// Candidate outputs by value.
pub open spec fn outputs_view(v: Seq<(String, Option<String>)>) -> Seq<(Seq<char>, Option<Seq<char>>)> {
    Seq::new(
        v.len(),
        |i: int|
            (
                v[i].0@,
                match v[i].1 {
                    Some(o) => Some(o@),
                    None => None,
                },
            ),
    )
}

/// The first candidate that is recent enough, if any.
pub open spec fn first_suitable(cs: Seq<(Seq<char>, Option<Seq<char>>)>, minimum: VersionView) -> Option<
    int,
> {
    if exists|i: int| 0 <= i < cs.len() && #[trigger] suits(cs[i].1, minimum) {
        Some(
            choose|i: int|
                0 <= i < cs.len() && #[trigger] suits(cs[i].1, minimum) && forall|j: int|
                    0 <= j < i ==> !suits(cs[j].1, minimum),
        )
    } else {
        None
    }
}

/// The Python interpreter to use: the first candidate, in order, whose version is at least the
/// minimum, given each candidate's name and what its `--version` printed (`None` when it did
/// not run successfully).
pub fn find_python_executable(min_version: &str, candidates: &Vec<(String, Option<String>)>) -> (r:
    Result<String, Error>)
    ensures
        match semver_parse(min_version@) {
            None => r == Err::<String, Error>(Error::NoPythonExecutable),
            Some(m) => match first_suitable(outputs_view(candidates@), m) {
                Some(i) => r is Ok && r->Ok_0@ == candidates@[i].0@,
                None => r == Err::<String, Error>(Error::NoPythonExecutable),
            },
        },
{
    let minimum = match minimum_version(min_version) {
        Ok(m) => m,
        Err(e) => return Err(e),
    };
    let ghost cs = outputs_view(candidates@);
    let mut i: usize = 0;
    while i < candidates.len()
        invariant
            i <= candidates.len(),
            cs == outputs_view(candidates@),
            semver_parse(min_version@) == Some(minimum@),
            forall|j: int| 0 <= j < i ==> !#[trigger] suits(cs[j].1, minimum@),
        decreases candidates.len() - i,
    {
        let output = match &candidates[i].1 {
            Some(o) => Some(o.as_str()),
            None => None,
        };
        proof {
            assert(cs[i as int].1 == match output {
                Some(o) => Some(o@),
                None => None::<Seq<char>>,
            });
        }
        if python_suits(output, &minimum) {
            proof {
                let k = first_suitable(cs, minimum@)->Some_0;
                assert(0 <= k < cs.len() && suits(cs[k].1, minimum@) && forall|j: int|
                    0 <= j < k ==> !suits(cs[j].1, minimum@));
                if k < i {
                    assert(!suits(cs[k].1, minimum@));
                }
                if k > i {
                    assert(!suits(cs[i as int].1, minimum@));
                }
            }
            return Ok(owned(candidates[i].0.as_str()));
        }
        i = i + 1;
    }
    Err(Error::NoPythonExecutable)
}

/// A `~` that the home directory may replace: the text is `~` alone or goes on with a path
/// separator.
pub open spec fn expandable_tilde(s: Seq<char>) -> bool {
    s.len() > 0 && s[0] == '~' && (s.len() == 1 || s[1] == '/' || s[1] == '\\')
}

/// Wrapper around `shellexpand::tilde`: a leading `~`, alone or before a path separator, may be
/// replaced by the home directory, which depends on the environment. What holds of every
/// outcome: any other text is kept as it is (`~user` too), and otherwise what follows the `~`
/// stays at the end.
#[verifier::external_body]
fn expand_tilde(input: &str) -> (r: String)
    ensures
        !expandable_tilde(input@) ==> r@ == input@,
        expandable_tilde(input@) ==> exists|home: Seq<char>| r@ == home + input@.skip(1),
{
    shellexpand::tilde(input).to_string()
}

/// The candidates to try, with a leading `~` standing for the home directory expanded.
pub fn expand_candidates(candidates: &Vec<String>) -> (r: Vec<String>)
    ensures
        r@.len() == candidates@.len(),
        forall|i: int|
            0 <= i < r@.len() ==> {
                let c = #[trigger] candidates@[i]@;
                &&& !expandable_tilde(c) ==> r@[i]@ == c
                &&& expandable_tilde(c) ==> exists|home: Seq<char>| r@[i]@ == home + c.skip(1)
            },
{
    let mut r: Vec<String> = Vec::new();
    let mut i: usize = 0;
    while i < candidates.len()
        invariant
            i <= candidates.len(),
            r@.len() == i,
            forall|k: int|
                0 <= k < i ==> {
                    let c = #[trigger] candidates@[k]@;
                    &&& !expandable_tilde(c) ==> r@[k]@ == c
                    &&& expandable_tilde(c) ==> exists|home: Seq<char>| r@[k]@ == home + c.skip(1)
                },
        decreases candidates.len() - i,
    {
        let e = expand_tilde(candidates[i].as_str());
        r.push(e);
        i = i + 1;
    }
    r
}

/// The lines of a text as it is read so far: those complete, and the one being read.
pub open spec fn lines_so_far(s: Seq<char>) -> (Seq<Seq<char>>, Seq<char>)
    decreases s.len(),
{
    if s.len() == 0 {
        (Seq::empty(), Seq::empty())
    } else {
        let (done, cur) = lines_so_far(s.drop_last());
        if s.last() == '\n' {
            (done.push(cur), Seq::empty())
        } else {
            (done, cur.push(s.last()))
        }
    }
}

/// The pieces of a text between its line feeds, the last one included.
pub open spec fn text_lines(s: Seq<char>) -> Seq<Seq<char>> {
    let (done, cur) = lines_so_far(s);
    done.push(cur)
}

/// A line names a Python 3 version to the launcher: it holds "-3".
pub open spec fn names_python3(line: Seq<char>) -> bool {
    exists|i: int| 0 <= i && i + 1 < line.len() && line[i] == '-' && #[trigger] line[i + 1] == '3'
}

/// The position of the first line that names a Python 3 version.
pub open spec fn first_python3_line(ls: Seq<Seq<char>>) -> Option<int> {
    if exists|i: int| 0 <= i < ls.len() && #[trigger] names_python3(ls[i]) {
        Some(
            choose|i: int|
                0 <= i < ls.len() && #[trigger] names_python3(ls[i]) && forall|j: int|
                    0 <= j < i ==> !names_python3(ls[j]),
        )
    } else {
        None
    }
}

/// A word without its leading dashes.
pub open spec fn without_dashes(w: Seq<char>) -> Seq<char>
    decreases w.len(),
{
    if w.len() > 0 && w[0] == '-' {
        without_dashes(w.drop_first())
    } else {
        w
    }
}

/// The interpreter the Python launcher offers, from what `py -0` printed: the first word of
/// the first line that names a Python 3 version, without its dashes, run as `py -` and that.
pub open spec fn launcher_choice(output: Seq<char>) -> Option<Seq<char>> {
    let ls = text_lines(output);
    match first_python3_line(ls) {
        None => None,
        Some(i) => if words(ls[i]).len() > 0 {
            Some("py -"@ + without_dashes(words(ls[i])[0]))
        } else {
            None
        },
    }
}

/// The pieces of a text between its line feeds.
fn split_lines(s: &str) -> (r: Vec<String>)
    ensures
        strings_view(r@) == text_lines(s@),
{
    let n = s.unicode_len();
    let mut done: Vec<String> = Vec::new();
    let mut cur = String::new();
    let mut i: usize = 0;
    proof {
        assert(s@.take(0) =~= Seq::<char>::empty());
    }
    while i < n
        invariant
            n == s@.len(),
            i <= n,
            (strings_view(done@), cur@) == lines_so_far(s@.take(i as int)),
        decreases n - i,
    {
        let c = s.get_char(i);
        proof {
            assert(s@.take(i + 1).drop_last() =~= s@.take(i as int));
            assert(s@.take(i + 1).last() == c);
        }
        if c == '\n' {
            let ghost before = done@;
            done.push(cur);
            proof {
                assert(strings_view(done@) =~= strings_view(before).push(cur@));
            }
            cur = String::new();
        } else {
            push_char(&mut cur, c);
        }
        i = i + 1;
    }
    proof {
        assert(s@.take(n as int) =~= s@);
    }
    let ghost before = done@;
    done.push(cur);
    proof {
        assert(strings_view(done@) =~= strings_view(before).push(cur@));
    }
    done
}

/// Whether a line holds "-3".
fn holds_python3(line: &str) -> (r: bool)
    ensures
        r == names_python3(line@),
{
    let n = line.unicode_len();
    let mut i: usize = 0;
    while i < n && i + 1 < n
        invariant
            n == line@.len(),
            i <= n,
            forall|j: int| 0 <= j < i && j + 1 < n ==> !(line@[j] == '-' && #[trigger] line@[j + 1] == '3'),
        decreases n - i,
    {
        if line.get_char(i) == '-' && line.get_char(i + 1) == '3' {
            return true;
        }
        i = i + 1;
    }
    proof {
        if names_python3(line@) {
            let k = choose|k: int| 0 <= k && k + 1 < line@.len() && line@[k] == '-' && #[trigger] line@[k + 1] == '3';
            assert(!(line@[k] == '-' && line@[k + 1] == '3'));
        }
    }
    false
}

/// The interpreter the Python launcher offers, from what `py -0` printed, if it names a
/// Python 3 version.
pub fn launcher_python(output: &str) -> (r: Option<String>)
    ensures
        match r {
            Some(c) => launcher_choice(output@) == Some(c@),
            None => launcher_choice(output@) is None,
        },
{
    let ls = split_lines(output);
    let ghost lv = strings_view(ls@);
    let mut i: usize = 0;
    while i < ls.len()
        invariant
            i <= ls.len(),
            lv == strings_view(ls@),
            lv == text_lines(output@),
            forall|j: int| 0 <= j < i ==> !#[trigger] names_python3(lv[j]),
        decreases ls.len() - i,
    {
        proof {
            assert(lv[i as int] == ls@[i as int]@);
        }
        if holds_python3(ls[i].as_str()) {
            proof {
                let k = first_python3_line(lv)->Some_0;
                assert(0 <= k < lv.len() && names_python3(lv[k]) && forall|j: int|
                    0 <= j < k ==> !names_python3(lv[j]));
                if k < i {
                    assert(!names_python3(lv[k]));
                }
                if k > i {
                    assert(!names_python3(lv[i as int]));
                }
            }
            let ws = split_words(ls[i].as_str());
            if ws.len() == 0 {
                return None;
            }
            let w = ws[0].as_str();
            proof {
                assert(strings_view(ws@)[0] == w@);
            }
            let n = w.unicode_len();
            let mut k: usize = 0;
            proof {
                assert(w@.skip(0) =~= w@);
            }
            while k < n && w.get_char(k) == '-'
                invariant
                    n == w@.len(),
                    k <= n,
                    without_dashes(w@) == without_dashes(w@.skip(k as int)),
                decreases n - k,
            {
                proof {
                    assert(w@.skip(k as int).drop_first() =~= w@.skip(k + 1));
                }
                k = k + 1;
            }
            proof {
                if k < n {
                    assert(w@.skip(k as int)[0] == w@[k as int]);
                }
                assert(without_dashes(w@.skip(k as int)) == w@.skip(k as int));
                assert(w@.subrange(k as int, n as int) =~= w@.skip(k as int));
            }
            let mut r = owned("py -");
            r.append(w.substring_char(k, n));
            return Some(r);
        }
        i = i + 1;
    }
    proof {
        assert(!(exists|j: int| 0 <= j < lv.len() && #[trigger] names_python3(lv[j])));
    }
    None
}

} // verus!
