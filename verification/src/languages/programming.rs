//! Programming languages a workshop may be offered in.

use crate::languages::Error;
use crate::text::{lowercase, owned, str_eq, to_lowercase, ascii_lower, ascii_text};
use vstd::prelude::*;

verus! {

/// The list of programming language codes.
#[allow(non_camel_case_types)]
#[derive(Clone, Copy, Debug, PartialEq, Eq, Hash, Structural)]
pub enum Code {
    py,
    js,
    ja,
    cs,
    cp,
    go,
    rb,
    ph,
    ts,
    sw,
    kt,
    rs,
    sc,
    lu,
    pe,
    hs,
    er,
    cl,
    el,
    fs,
}

/// The two letters of a code.
pub open spec fn code_chars(c: Code) -> (char, char) {
    match c {
        Code::py => ('p', 'y'),
        Code::js => ('j', 's'),
        Code::ja => ('j', 'a'),
        Code::cs => ('c', 's'),
        Code::cp => ('c', 'p'),
        Code::go => ('g', 'o'),
        Code::rb => ('r', 'b'),
        Code::ph => ('p', 'h'),
        Code::ts => ('t', 's'),
        Code::sw => ('s', 'w'),
        Code::kt => ('k', 't'),
        Code::rs => ('r', 's'),
        Code::sc => ('s', 'c'),
        Code::lu => ('l', 'u'),
        Code::pe => ('p', 'e'),
        Code::hs => ('h', 's'),
        Code::er => ('e', 'r'),
        Code::cl => ('c', 'l'),
        Code::el => ('e', 'l'),
        Code::fs => ('f', 's'),
    }
}

/// The code written as a string.
pub open spec fn code_str(c: Code) -> Seq<char> {
    seq![code_chars(c).0, code_chars(c).1]
}

/// The name of the programming language.
pub open spec fn language_name(c: Code) -> Seq<char> {
    match c {
        Code::py => "Python"@,
        Code::js => "JavaScript"@,
        Code::ja => "Java"@,
        Code::cs => ".Net"@,
        Code::cp => "C++"@,
        Code::go => "Go"@,
        Code::rb => "Ruby"@,
        Code::ph => "PHP"@,
        Code::ts => "TypeScript"@,
        Code::sw => "Swift"@,
        Code::kt => "Kotlin"@,
        Code::rs => "Rust"@,
        Code::sc => "Scala"@,
        Code::lu => "Lua"@,
        Code::pe => "Perl"@,
        Code::hs => "Haskell"@,
        Code::er => "Erlang"@,
        Code::cl => "Clojure"@,
        Code::el => "Elixir"@,
        Code::fs => "F#"@,
    }
}

/// The file extension of the programming language.
pub open spec fn file_extension(c: Code) -> Seq<char> {
    match c {
        Code::py => "py"@,
        Code::js => "js"@,
        Code::ja => "java"@,
        Code::cs => "cs"@,
        Code::cp => "cpp"@,
        Code::go => "go"@,
        Code::rb => "rb"@,
        Code::ph => "php"@,
        Code::ts => "ts"@,
        Code::sw => "swift"@,
        Code::kt => "kt"@,
        Code::rs => "rs"@,
        Code::sc => "scala"@,
        Code::lu => "lua"@,
        Code::pe => "pl"@,
        Code::hs => "hs"@,
        Code::er => "erl"@,
        Code::cl => "clj"@,
        Code::el => "ex"@,
        Code::fs => "fs"@,
    }
}

/// Every code, in declaration order.
pub open spec fn all_codes() -> Seq<Code> {
    seq![Code::py, Code::js, Code::ja, Code::cs, Code::cp, Code::go, Code::rb, Code::ph, Code::ts, Code::sw, Code::kt, Code::rs, Code::sc, Code::lu, Code::pe, Code::hs, Code::er, Code::cl, Code::el, Code::fs]
}

/// The first code of `codes` written as `s`.
pub open spec fn first_with_code(codes: Seq<Code>, s: Seq<char>) -> Option<Code>
    decreases codes.len(),
{
    if codes.len() == 0 {
        None
    } else if code_str(codes[0]) == s {
        Some(codes[0])
    } else {
        first_with_code(codes.drop_first(), s)
    }
}

/// The first code of `codes` whose name is `name`.
pub open spec fn first_with_name(codes: Seq<Code>, name: Seq<char>) -> Option<Code>
    decreases codes.len(),
{
    if codes.len() == 0 {
        None
    } else if language_name(codes[0]) == name {
        Some(codes[0])
    } else {
        first_with_name(codes.drop_first(), name)
    }
}

/// The code a string stands for: a code (in any letter case) first, then a name.
pub open spec fn parse_code(s: Seq<char>) -> Option<Code> {
    match first_with_code(all_codes(), lowercase(s)) {
        Some(c) => Some(c),
        None => first_with_name(all_codes(), s),
    }
}

/// Every code occurs in `all_codes`.
pub proof fn lemma_all_codes_complete(c: Code)
    ensures
        all_codes().contains(c),
{
    match c {
        Code::py => assert(all_codes()[0] == c),
        Code::js => assert(all_codes()[1] == c),
        Code::ja => assert(all_codes()[2] == c),
        Code::cs => assert(all_codes()[3] == c),
        Code::cp => assert(all_codes()[4] == c),
        Code::go => assert(all_codes()[5] == c),
        Code::rb => assert(all_codes()[6] == c),
        Code::ph => assert(all_codes()[7] == c),
        Code::ts => assert(all_codes()[8] == c),
        Code::sw => assert(all_codes()[9] == c),
        Code::kt => assert(all_codes()[10] == c),
        Code::rs => assert(all_codes()[11] == c),
        Code::sc => assert(all_codes()[12] == c),
        Code::lu => assert(all_codes()[13] == c),
        Code::pe => assert(all_codes()[14] == c),
        Code::hs => assert(all_codes()[15] == c),
        Code::er => assert(all_codes()[16] == c),
        Code::cl => assert(all_codes()[17] == c),
        Code::el => assert(all_codes()[18] == c),
        Code::fs => assert(all_codes()[19] == c),
    }
}

impl Code {
    /// Get the programming language name.
    pub fn get_name(&self) -> (r: &'static str)
        ensures
            r@ == language_name(*self),
    {
        match self {
            Code::py => "Python",
            Code::js => "JavaScript",
            Code::ja => "Java",
            Code::cs => ".Net",
            Code::cp => "C++",
            Code::go => "Go",
            Code::rb => "Ruby",
            Code::ph => "PHP",
            Code::ts => "TypeScript",
            Code::sw => "Swift",
            Code::kt => "Kotlin",
            Code::rs => "Rust",
            Code::sc => "Scala",
            Code::lu => "Lua",
            Code::pe => "Perl",
            Code::hs => "Haskell",
            Code::er => "Erlang",
            Code::cl => "Clojure",
            Code::el => "Elixir",
            Code::fs => "F#",
        }
    }

    /// Get the programming language file extension.
    pub fn get_extension(&self) -> (r: &'static str)
        ensures
            r@ == file_extension(*self),
    {
        match self {
            Code::py => "py",
            Code::js => "js",
            Code::ja => "java",
            Code::cs => "cs",
            Code::cp => "cpp",
            Code::go => "go",
            Code::rb => "rb",
            Code::ph => "php",
            Code::ts => "ts",
            Code::sw => "swift",
            Code::kt => "kt",
            Code::rs => "rs",
            Code::sc => "scala",
            Code::lu => "lua",
            Code::pe => "pl",
            Code::hs => "hs",
            Code::er => "erl",
            Code::cl => "clj",
            Code::el => "ex",
            Code::fs => "fs",
        }
    }

    /// The code as a string, as it is displayed and used in paths.
    pub fn as_str(&self) -> (r: &'static str)
        ensures
            r@ == code_str(*self),
    {
        match self {
            Code::py => {
                proof { reveal_strlit("py"); }
                "py"
            }
            Code::js => {
                proof { reveal_strlit("js"); }
                "js"
            }
            Code::ja => {
                proof { reveal_strlit("ja"); }
                "ja"
            }
            Code::cs => {
                proof { reveal_strlit("cs"); }
                "cs"
            }
            Code::cp => {
                proof { reveal_strlit("cp"); }
                "cp"
            }
            Code::go => {
                proof { reveal_strlit("go"); }
                "go"
            }
            Code::rb => {
                proof { reveal_strlit("rb"); }
                "rb"
            }
            Code::ph => {
                proof { reveal_strlit("ph"); }
                "ph"
            }
            Code::ts => {
                proof { reveal_strlit("ts"); }
                "ts"
            }
            Code::sw => {
                proof { reveal_strlit("sw"); }
                "sw"
            }
            Code::kt => {
                proof { reveal_strlit("kt"); }
                "kt"
            }
            Code::rs => {
                proof { reveal_strlit("rs"); }
                "rs"
            }
            Code::sc => {
                proof { reveal_strlit("sc"); }
                "sc"
            }
            Code::lu => {
                proof { reveal_strlit("lu"); }
                "lu"
            }
            Code::pe => {
                proof { reveal_strlit("pe"); }
                "pe"
            }
            Code::hs => {
                proof { reveal_strlit("hs"); }
                "hs"
            }
            Code::er => {
                proof { reveal_strlit("er"); }
                "er"
            }
            Code::cl => {
                proof { reveal_strlit("cl"); }
                "cl"
            }
            Code::el => {
                proof { reveal_strlit("el"); }
                "el"
            }
            Code::fs => {
                proof { reveal_strlit("fs"); }
                "fs"
            }
        }
    }

    /// The two letters of the code.
    pub fn letters(&self) -> (r: (char, char))
        ensures
            r == code_chars(*self),
    {
        match self {
            Code::py => ('p', 'y'),
            Code::js => ('j', 's'),
            Code::ja => ('j', 'a'),
            Code::cs => ('c', 's'),
            Code::cp => ('c', 'p'),
            Code::go => ('g', 'o'),
            Code::rb => ('r', 'b'),
            Code::ph => ('p', 'h'),
            Code::ts => ('t', 's'),
            Code::sw => ('s', 'w'),
            Code::kt => ('k', 't'),
            Code::rs => ('r', 's'),
            Code::sc => ('s', 'c'),
            Code::lu => ('l', 'u'),
            Code::pe => ('p', 'e'),
            Code::hs => ('h', 's'),
            Code::er => ('e', 'r'),
            Code::cl => ('c', 'l'),
            Code::el => ('e', 'l'),
            Code::fs => ('f', 's'),
        }
    }

    /// Every code, in declaration order.
    pub fn all() -> (r: Vec<Code>)
        ensures
            r@ == all_codes(),
    {
        vec![Code::py, Code::js, Code::ja, Code::cs, Code::cp, Code::go, Code::rb, Code::ph, Code::ts, Code::sw, Code::kt, Code::rs, Code::sc, Code::lu, Code::pe, Code::hs, Code::er, Code::cl, Code::el, Code::fs]
    }
}


/// Scanning `codes` from index `i` finds what scanning from `i + 1` finds, unless `codes[i]`
/// itself matches.
proof fn lemma_first_with_code_step(codes: Seq<Code>, i: int, s: Seq<char>)
    requires
        0 <= i < codes.len(),
    ensures
        first_with_code(codes.skip(i), s) == (if code_str(codes[i]) == s {
            Some(codes[i])
        } else {
            first_with_code(codes.skip(i + 1), s)
        }),
{
    assert(codes.skip(i).drop_first() =~= codes.skip(i + 1));
}

/// Scanning `codes` by name from index `i`, one step at a time.
proof fn lemma_first_with_name_step(codes: Seq<Code>, i: int, name: Seq<char>)
    requires
        0 <= i < codes.len(),
    ensures
        first_with_name(codes.skip(i), name) == (if language_name(codes[i]) == name {
            Some(codes[i])
        } else {
            first_with_name(codes.skip(i + 1), name)
        }),
{
    assert(codes.skip(i).drop_first() =~= codes.skip(i + 1));
}

/// Get the Code from the language name.
pub fn get_language_code_from_name(name: &str) -> (r: Option<Code>)
    ensures
        r == first_with_name(all_codes(), name@),
{
    let all = Code::all();
    let mut i: usize = 0;
    assert(all@.skip(0) =~= all@);
    while i < all.len()
        invariant
            all@ == all_codes(),
            i <= all.len(),
            first_with_name(all_codes(), name@) == first_with_name(all_codes().skip(i as int), name@),
        decreases all.len() - i,
    {
        let c = all[i];
        proof {
            lemma_first_with_name_step(all_codes(), i as int, name@);
        }
        if str_eq(name, c.get_name()) {
            return Some(c);
        }
        i = i + 1;
    }
    assert(all_codes().skip(i as int).len() == 0);
    None
}

/// Get the Code whose lowercase spelling is exactly `lower`.
pub fn code_from_lowercase(lower: &str) -> (r: Option<Code>)
    ensures
        r == first_with_code(all_codes(), lower@),
{
    let all = Code::all();
    let mut i: usize = 0;
    assert(all@.skip(0) =~= all@);
    while i < all.len()
        invariant
            all@ == all_codes(),
            i <= all.len(),
            first_with_code(all_codes(), lower@) == first_with_code(all_codes().skip(i as int), lower@),
        decreases all.len() - i,
    {
        let c = all[i];
        proof {
            lemma_first_with_code_step(all_codes(), i as int, lower@);
        }
        if str_eq(lower, c.as_str()) {
            return Some(c);
        }
        i = i + 1;
    }
    assert(all_codes().skip(i as int).len() == 0);
    None
}

/// Get the Code from the language code as a string, in any letter case.
pub fn get_language_code(code: &str) -> (r: Option<Code>)
    ensures
        r == first_with_code(all_codes(), lowercase(code@)),
        ascii_text(code@) ==> r == first_with_code(all_codes(), ascii_lower(code@)),
{
    let lower = to_lowercase(code);
    code_from_lowercase(lower.as_str())
}

impl Code {
    /// Parse a code, or failing that a language name.
    pub fn try_from(value: &str) -> (r: Result<Code, Error>)
        ensures
            match r {
                Ok(c) => parse_code(value@) == Some(c),
                Err(e) => parse_code(value@).is_none() && e == Error::InvalidLanguageCode(
                    e->InvalidLanguageCode_0,
                ) && e->InvalidLanguageCode_0@ == value@,
            },
            forall|c: Code|
                ascii_text(value@) && ascii_lower(value@) == #[trigger] code_str(c) ==> r
                    == Ok::<Code, Error>(c),
            ascii_text(value@) ==> (r is Err <==> (first_with_code(all_codes(), ascii_lower(value@))
                is None && first_with_name(all_codes(), value@) is None)),
            forall|c: Code| value@ == #[trigger] language_name(c) ==> r == Ok::<Code, Error>(c),
    {
        proof {
            assert forall|c: Code| value@ == #[trigger] language_name(c) implies ascii_text(value@)
                && first_with_name(all_codes(), value@) == Some(c) && (first_with_code(
                all_codes(),
                ascii_lower(value@),
            ) is None || first_with_code(all_codes(), ascii_lower(value@)) == Some(c)) by {
                lemma_name_parses(c);
            }
        }
        proof {
            assert forall|c: Code|
                ascii_text(value@) && ascii_lower(value@) == #[trigger] code_str(c) implies first_with_code(
                all_codes(),
                ascii_lower(value@),
            ) == Some(c) by {
                lemma_all_codes_complete(c);
                lemma_first_with_own_code(all_codes(), c);
            }
        }
        if let Some(code) = get_language_code(value) {
            Ok(code)
        } else if let Some(code) = get_language_code_from_name(value) {
            Ok(code)
        } else {
            Err(Error::InvalidLanguageCode(owned(value)))
        }
    }
}

impl Default for Code {
    fn default() -> (r: Self)
        ensures
            r == Code::rs,
    {
        Code::rs
    }
}

/// A programming language with its code, file extension and name.
#[derive(Clone, Debug, PartialEq, Eq)]
pub struct Language {
    pub code: Code,
    pub extension: String,
    pub name: String,
}

/// The language that a code stands for.
pub open spec fn language_of(l: Language, code: Code) -> bool {
    &&& l.code == code
    &&& l.extension@ == file_extension(code)
    &&& l.name@ == language_name(code)
}

impl Default for Language {
    fn default() -> (r: Self)
        ensures
            language_of(r, Code::rs),
    {
        Language::from(Code::rs)
    }
}

impl Language {
    /// The language that a code stands for.
    pub fn from(code: Code) -> (r: Language)
        ensures
            language_of(r, code),
    {
        Language { code, extension: owned(code.get_extension()), name: owned(code.get_name()) }
    }

    /// The language named by a code or a name.
    pub fn try_from(value: &str) -> (r: Result<Language, Error>)
        ensures
            match r {
                Ok(l) => parse_code(value@) == Some(l.code) && language_of(l, l.code),
                Err(e) => parse_code(value@).is_none() && e == Error::InvalidLanguageName(
                    e->InvalidLanguageName_0,
                ) && e->InvalidLanguageName_0@ == value@,
            },
    {
        match Code::try_from(value) {
            Ok(code) => Ok(Language::from(code)),
            Err(_) => Err(Error::InvalidLanguageName(owned(value))),
        }
    }
}

impl Code {
    /// Parse an owned string as a code, or failing that a name.
    pub fn try_from_string(value: String) -> (r: Result<Code, Error>)
        ensures
            match r {
                Ok(c) => parse_code(value@) == Some(c),
                Err(e) => parse_code(value@).is_none() && e == Error::InvalidLanguageCode(
                    e->InvalidLanguageCode_0,
                ) && e->InvalidLanguageCode_0@ == value@,
            },
    {
        Code::try_from(value.as_str())
    }
}
/// The code written with the letters `p`, if any.
pub open spec fn code_of_letters(p: (char, char)) -> Option<Code> {
    if p == ('p', 'y') {
        Some(Code::py)
    } else
    if p == ('j', 's') {
        Some(Code::js)
    } else
    if p == ('j', 'a') {
        Some(Code::ja)
    } else
    if p == ('c', 's') {
        Some(Code::cs)
    } else
    if p == ('c', 'p') {
        Some(Code::cp)
    } else
    if p == ('g', 'o') {
        Some(Code::go)
    } else
    if p == ('r', 'b') {
        Some(Code::rb)
    } else
    if p == ('p', 'h') {
        Some(Code::ph)
    } else
    if p == ('t', 's') {
        Some(Code::ts)
    } else
    if p == ('s', 'w') {
        Some(Code::sw)
    } else
    if p == ('k', 't') {
        Some(Code::kt)
    } else
    if p == ('r', 's') {
        Some(Code::rs)
    } else
    if p == ('s', 'c') {
        Some(Code::sc)
    } else
    if p == ('l', 'u') {
        Some(Code::lu)
    } else
    if p == ('p', 'e') {
        Some(Code::pe)
    } else
    if p == ('h', 's') {
        Some(Code::hs)
    } else
    if p == ('e', 'r') {
        Some(Code::er)
    } else
    if p == ('c', 'l') {
        Some(Code::cl)
    } else
    if p == ('e', 'l') {
        Some(Code::el)
    } else
    if p == ('f', 's') {
        Some(Code::fs)
    } else {
        None
    }
}

/// Reading a code's letters back gives the code.
pub proof fn lemma_code_of_letters(c: Code)
    ensures
        code_of_letters(code_chars(c)) == Some(c),
{
    match c {
        Code::py => {},
        Code::js => {},
        Code::ja => {},
        Code::cs => {},
        Code::cp => {},
        Code::go => {},
        Code::rb => {},
        Code::ph => {},
        Code::ts => {},
        Code::sw => {},
        Code::kt => {},
        Code::rs => {},
        Code::sc => {},
        Code::lu => {},
        Code::pe => {},
        Code::hs => {},
        Code::er => {},
        Code::cl => {},
        Code::el => {},
        Code::fs => {},
    }
}

/// Different codes are spelled differently.
pub proof fn lemma_code_chars_injective(a: Code, b: Code)
    ensures
        code_chars(a) == code_chars(b) ==> a == b,
{
    lemma_code_of_letters(a);
    lemma_code_of_letters(b);
}

/// The order of codes: the alphabetical order of their two-letter spelling.
pub open spec fn code_before(a: Code, b: Code) -> bool {
    let x = code_chars(a);
    let y = code_chars(b);
    (x.0 as u32) < (y.0 as u32) || (x.0 == y.0 && (x.1 as u32) < (y.1 as u32))
}

/// `s` is in strictly increasing code order, so it holds no code twice.
pub open spec fn strictly_sorted(s: Seq<Code>) -> bool {
    forall|i: int, j: int| 0 <= i < j < s.len() ==> code_before(#[trigger] s[i], #[trigger] s[j])
}

/// Two different codes are ordered one way or the other.
pub proof fn lemma_code_before_total(a: Code, b: Code)
    ensures
        a != b ==> (code_before(a, b) || code_before(b, a)),
        !(code_before(a, b) && code_before(b, a)),
        !code_before(a, a),
{
    lemma_code_chars_injective(a, b);
}

/// Whether `v` holds `c`.
pub fn contains_code(v: &Vec<Code>, c: Code) -> (r: bool)
    ensures
        r == v@.contains(c),
{
    let mut i: usize = 0;
    while i < v.len()
        invariant
            i <= v.len(),
            forall|k: int| 0 <= k < i ==> v@[k] != c,
        decreases v.len() - i,
    {
        if v[i] == c {
            return true;
        }
        i = i + 1;
    }
    false
}

impl Code {
    /// Whether this code comes before `other` in the alphabetical order of codes.
    pub fn is_before(&self, other: &Code) -> (r: bool)
        ensures
            r == code_before(*self, *other),
    {
        let (a0, a1) = self.letters();
        let (b0, b1) = other.letters();
        (a0 as u32) < (b0 as u32) || (a0 == b0 && (a1 as u32) < (b1 as u32))
    }
}

/// The codes of `v` in alphabetical order of their spelling, each once.
pub fn sort_dedup(v: &Vec<Code>) -> (r: Vec<Code>)
    ensures
        strictly_sorted(r@),
        forall|c: Code| r@.contains(c) <==> v@.contains(c),
{
    let mut r: Vec<Code> = Vec::new();
    let mut i: usize = 0;
    while i < v.len()
        invariant
            i <= v.len(),
            strictly_sorted(r@),
            forall|c: Code| r@.contains(c) <==> v@.take(i as int).contains(c),
        decreases v.len() - i,
    {
        let x = v[i];
        let mut p: usize = 0;
        while p < r.len() && r[p].is_before(&x)
            invariant
                p <= r.len(),
                forall|k: int| 0 <= k < p ==> code_before(#[trigger] r@[k], x),
            decreases r.len() - p,
        {
            p = p + 1;
        }
        proof {
            assert(v@.take(i + 1) =~= v@.take(i as int).push(x));
        }
        if p < r.len() && r[p] == x {
            proof {
                assert forall|c: Code| r@.contains(c) <==> v@.take(i + 1).contains(c) by {
                    if c == x {
                        assert(r@[p as int] == c);
                    }
                    if v@.take(i as int).push(x).contains(c) && c != x {
                        let k = choose|k: int| 0 <= k < v@.take(i as int).push(x).len() && v@.take(i as int).push(x)[k] == c;
                        assert(v@.take(i as int)[k] == c);
                    }
                }
            }
        } else {
            let ghost old_r = r@;
            proof {
                if p < r.len() {
                    lemma_code_before_total(r@[p as int], x);
                }
                assert forall|k: int| p <= k < old_r.len() implies code_before(x, #[trigger] old_r[k]) by {
                    lemma_code_before_total(old_r[p as int], x);
                    if k > p {
                        assert(code_before(old_r[p as int], old_r[k]));
                    }
                }
            }
            r.insert(p, x);
            proof {
                assert(r@ =~= old_r.take(p as int).push(x) + old_r.skip(p as int));
                assert forall|a: int, b: int| 0 <= a < b < r@.len() implies code_before(#[trigger] r@[a], #[trigger] r@[b]) by {
                    if a < p && b == p {
                    } else if a < p && b > p {
                        assert(r@[b] == old_r[b - 1]);
                    } else if a == p {
                        assert(r@[b] == old_r[b - 1]);
                    } else if a > p {
                        assert(r@[a] == old_r[a - 1]);
                        assert(r@[b] == old_r[b - 1]);
                    }
                }
                assert forall|c: Code| r@.contains(c) <==> v@.take(i + 1).contains(c) by {
                    if r@.contains(c) {
                        let k = choose|k: int| 0 <= k < r@.len() && r@[k] == c;
                        if k < p {
                            assert(old_r[k] == c);
                        } else if k > p {
                            assert(old_r[k - 1] == c);
                        }
                        if c != x {
                            assert(old_r.contains(c));
                            assert(v@.take(i as int).contains(c));
                            let m = choose|m: int| 0 <= m < v@.take(i as int).len() && v@.take(i as int)[m] == c;
                            assert(v@.take(i as int).push(x)[m] == c);
                        } else {
                            assert(v@.take(i as int).push(x)[i as int] == c);
                        }
                    }
                    if v@.take(i + 1).contains(c) {
                        if c == x {
                            assert(r@[p as int] == c);
                        } else {
                            let m = choose|m: int| 0 <= m < v@.take(i as int).push(x).len() && v@.take(i as int).push(x)[m] == c;
                            assert(v@.take(i as int)[m] == c);
                            assert(old_r.contains(c));
                            let k = choose|k: int| 0 <= k < old_r.len() && old_r[k] == c;
                            if k < p {
                                assert(r@[k] == c);
                            } else {
                                assert(r@[k + 1] == c);
                            }
                        }
                    }
                }
            }
        }
        i = i + 1;
    }
    proof {
        assert(v@.take(v.len() as int) =~= v@);
    }
    r
}

/// Looking a code up by its own spelling finds it, in any list that holds it.
proof fn lemma_first_with_own_code(codes: Seq<Code>, c: Code)
    requires
        codes.contains(c),
    ensures
        first_with_code(codes, code_str(c)) == Some(c),
    decreases codes.len(),
{
    if codes[0] != c {
        lemma_code_chars_injective(codes[0], c);
        if code_str(codes[0]) == code_str(c) {
            assert(code_str(codes[0])[0] == code_str(c)[0]);
            assert(code_str(codes[0])[1] == code_str(c)[1]);
        }
        let k = choose|k: int| 0 <= k < codes.len() && codes[k] == c;
        assert(codes.drop_first()[k - 1] == c);
        lemma_first_with_own_code(codes.drop_first(), c);
    }
}

/// A code's second letter is a small letter.
proof fn lemma_second_letter(c: Code)
    ensures
        'a' <= code_chars(c).1 && code_chars(c).1 <= 'z',
{
}

/// Nothing is found by a spelling that is not two letters ending in a small letter.
proof fn lemma_first_with_code_len(codes: Seq<Code>, s: Seq<char>)
    requires
        s.len() != 2 || !('a' <= s[1] && s[1] <= 'z'),
    ensures
        first_with_code(codes, s) is None,
    decreases codes.len(),
{
    if codes.len() > 0 {
        lemma_second_letter(codes[0]);
        assert(code_str(codes[0]).len() == 2);
        if s.len() == 2 {
            assert(code_str(codes[0])[1] == code_chars(codes[0]).1);
        }
        lemma_first_with_code_len(codes.drop_first(), s);
    }
}

/// A language's name is ASCII text and names that language alone; read as a code, in any
/// letter case, it names no other language.
proof fn lemma_name_parses(c: Code)
    ensures
        ascii_text(language_name(c)),
        first_with_name(all_codes(), language_name(c)) == Some(c),
        first_with_code(all_codes(), ascii_lower(language_name(c))) is None || first_with_code(
            all_codes(),
            ascii_lower(language_name(c)),
        ) == Some(c),
{
    reveal_strlit("Python");
    reveal_strlit("JavaScript");
    reveal_strlit("Java");
    reveal_strlit(".Net");
    reveal_strlit("C++");
    reveal_strlit("Go");
    reveal_strlit("Ruby");
    reveal_strlit("PHP");
    reveal_strlit("TypeScript");
    reveal_strlit("Swift");
    reveal_strlit("Kotlin");
    reveal_strlit("Rust");
    reveal_strlit("Scala");
    reveal_strlit("Lua");
    reveal_strlit("Perl");
    reveal_strlit("Haskell");
    reveal_strlit("Erlang");
    reveal_strlit("Clojure");
    reveal_strlit("Elixir");
    reveal_strlit("F#");
    reveal_with_fuel(first_with_name, 21);
    reveal_with_fuel(ascii_text, 12);
    match c {
        Code::py => {
            assert(language_name(c) =~= seq!['P', 'y', 't', 'h', 'o', 'n']);
            lemma_first_with_code_len(all_codes(), ascii_lower(language_name(c)));
        },
        Code::js => {
            assert(language_name(c) =~= seq!['J', 'a', 'v', 'a', 'S', 'c', 'r', 'i', 'p', 't']);
            lemma_first_with_code_len(all_codes(), ascii_lower(language_name(c)));
        },
        Code::ja => {
            assert(language_name(c) =~= seq!['J', 'a', 'v', 'a']);
            lemma_first_with_code_len(all_codes(), ascii_lower(language_name(c)));
        },
        Code::cs => {
            assert(language_name(c) =~= seq!['.', 'N', 'e', 't']);
            lemma_first_with_code_len(all_codes(), ascii_lower(language_name(c)));
        },
        Code::cp => {
            assert(language_name(c) =~= seq!['C', '+', '+']);
            lemma_first_with_code_len(all_codes(), ascii_lower(language_name(c)));
        },
        Code::go => {
            assert(language_name(c) =~= seq!['G', 'o']);
            assert(ascii_lower(language_name(c)) =~= seq!['g', 'o']);
            assert(code_str(Code::go) =~= seq!['g', 'o']);
            lemma_all_codes_complete(c);
            lemma_first_with_own_code(all_codes(), c);
        },
        Code::rb => {
            assert(language_name(c) =~= seq!['R', 'u', 'b', 'y']);
            lemma_first_with_code_len(all_codes(), ascii_lower(language_name(c)));
        },
        Code::ph => {
            assert(language_name(c) =~= seq!['P', 'H', 'P']);
            lemma_first_with_code_len(all_codes(), ascii_lower(language_name(c)));
        },
        Code::ts => {
            assert(language_name(c) =~= seq!['T', 'y', 'p', 'e', 'S', 'c', 'r', 'i', 'p', 't']);
            lemma_first_with_code_len(all_codes(), ascii_lower(language_name(c)));
        },
        Code::sw => {
            assert(language_name(c) =~= seq!['S', 'w', 'i', 'f', 't']);
            lemma_first_with_code_len(all_codes(), ascii_lower(language_name(c)));
        },
        Code::kt => {
            assert(language_name(c) =~= seq!['K', 'o', 't', 'l', 'i', 'n']);
            lemma_first_with_code_len(all_codes(), ascii_lower(language_name(c)));
        },
        Code::rs => {
            assert(language_name(c) =~= seq!['R', 'u', 's', 't']);
            lemma_first_with_code_len(all_codes(), ascii_lower(language_name(c)));
        },
        Code::sc => {
            assert(language_name(c) =~= seq!['S', 'c', 'a', 'l', 'a']);
            lemma_first_with_code_len(all_codes(), ascii_lower(language_name(c)));
        },
        Code::lu => {
            assert(language_name(c) =~= seq!['L', 'u', 'a']);
            lemma_first_with_code_len(all_codes(), ascii_lower(language_name(c)));
        },
        Code::pe => {
            assert(language_name(c) =~= seq!['P', 'e', 'r', 'l']);
            lemma_first_with_code_len(all_codes(), ascii_lower(language_name(c)));
        },
        Code::hs => {
            assert(language_name(c) =~= seq!['H', 'a', 's', 'k', 'e', 'l', 'l']);
            lemma_first_with_code_len(all_codes(), ascii_lower(language_name(c)));
        },
        Code::er => {
            assert(language_name(c) =~= seq!['E', 'r', 'l', 'a', 'n', 'g']);
            lemma_first_with_code_len(all_codes(), ascii_lower(language_name(c)));
        },
        Code::cl => {
            assert(language_name(c) =~= seq!['C', 'l', 'o', 'j', 'u', 'r', 'e']);
            lemma_first_with_code_len(all_codes(), ascii_lower(language_name(c)));
        },
        Code::el => {
            assert(language_name(c) =~= seq!['E', 'l', 'i', 'x', 'i', 'r']);
            lemma_first_with_code_len(all_codes(), ascii_lower(language_name(c)));
        },
        Code::fs => {
            assert(language_name(c) =~= seq!['F', '#']);
            assert(ascii_lower(language_name(c)) =~= seq!['f', '#']);
            lemma_first_with_code_len(all_codes(), ascii_lower(language_name(c)));
        },
    }
}

} // verus!
