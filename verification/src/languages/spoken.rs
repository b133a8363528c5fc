//! Spoken languages: the ISO 639-1 codes a workshop may be written in.

use crate::languages::Error;
use crate::text::{lowercase, owned, str_eq, to_lowercase, ascii_lower, ascii_text};
use vstd::prelude::*;

verus! {

/// The direction in which a language's text is written.
#[derive(Clone, Copy, Debug, PartialEq, Eq, Structural)]
pub enum Direction {
    LeftToRight,
    RightToLeft,
}

/// The name a direction is displayed with.
pub open spec fn direction_text(d: Direction) -> Seq<char> {
    match d {
        Direction::LeftToRight => "LeftToRight"@,
        Direction::RightToLeft => "RightToLeft"@,
    }
}

impl Direction {
    /// The direction's name as it is displayed.
    pub fn to_string(&self) -> (r: String)
        ensures
            r@ == direction_text(*self),
    {
        match self {
            Direction::LeftToRight => owned("LeftToRight"),
            Direction::RightToLeft => owned("RightToLeft"),
        }
    }
}

impl Default for Direction {
    fn default() -> (r: Self)
        ensures
            r == Direction::LeftToRight,
    {
        Direction::LeftToRight
    }
}

/// The list of language codes.
#[allow(non_camel_case_types)]
#[derive(Clone, Copy, Debug, PartialEq, Eq, Hash, Structural)]
pub enum Code {
    en,
    es,
    fr,
    de,
    zh,
    ar,
    hi,
    pt,
    ru,
    ja,
    ko,
    it,
    nl,
    sv,
    tr,
    pl,
    vi,
    th,
    id,
    fa,
    he,
    bn,
    ta,
    te,
    mr,
    ur,
    gu,
    pa,
    kn,
    ml,
    or,
    my,
    uk,
    cs,
    hu,
    fi,
    da,
    no,
    el,
    ro,
    sk,
    bg,
    hr,
    sr,
    lt,
    lv,
    et,
    sl,
    ms,
    sw,
}

/// The two letters of a code.
pub open spec fn code_chars(c: Code) -> (char, char) {
    match c {
        Code::en => ('e', 'n'),
        Code::es => ('e', 's'),
        Code::fr => ('f', 'r'),
        Code::de => ('d', 'e'),
        Code::zh => ('z', 'h'),
        Code::ar => ('a', 'r'),
        Code::hi => ('h', 'i'),
        Code::pt => ('p', 't'),
        Code::ru => ('r', 'u'),
        Code::ja => ('j', 'a'),
        Code::ko => ('k', 'o'),
        Code::it => ('i', 't'),
        Code::nl => ('n', 'l'),
        Code::sv => ('s', 'v'),
        Code::tr => ('t', 'r'),
        Code::pl => ('p', 'l'),
        Code::vi => ('v', 'i'),
        Code::th => ('t', 'h'),
        Code::id => ('i', 'd'),
        Code::fa => ('f', 'a'),
        Code::he => ('h', 'e'),
        Code::bn => ('b', 'n'),
        Code::ta => ('t', 'a'),
        Code::te => ('t', 'e'),
        Code::mr => ('m', 'r'),
        Code::ur => ('u', 'r'),
        Code::gu => ('g', 'u'),
        Code::pa => ('p', 'a'),
        Code::kn => ('k', 'n'),
        Code::ml => ('m', 'l'),
        Code::or => ('o', 'r'),
        Code::my => ('m', 'y'),
        Code::uk => ('u', 'k'),
        Code::cs => ('c', 's'),
        Code::hu => ('h', 'u'),
        Code::fi => ('f', 'i'),
        Code::da => ('d', 'a'),
        Code::no => ('n', 'o'),
        Code::el => ('e', 'l'),
        Code::ro => ('r', 'o'),
        Code::sk => ('s', 'k'),
        Code::bg => ('b', 'g'),
        Code::hr => ('h', 'r'),
        Code::sr => ('s', 'r'),
        Code::lt => ('l', 't'),
        Code::lv => ('l', 'v'),
        Code::et => ('e', 't'),
        Code::sl => ('s', 'l'),
        Code::ms => ('m', 's'),
        Code::sw => ('s', 'w'),
    }
}

/// The code written as a string.
pub open spec fn code_str(c: Code) -> Seq<char> {
    seq![code_chars(c).0, code_chars(c).1]
}

/// The name of the language in English.
pub open spec fn english_name(c: Code) -> Seq<char> {
    match c {
        Code::en => "English"@,
        Code::es => "Spanish"@,
        Code::fr => "French"@,
        Code::de => "German"@,
        Code::zh => "Chinese"@,
        Code::ar => "Arabic"@,
        Code::hi => "Hindi"@,
        Code::pt => "Portuguese"@,
        Code::ru => "Russian"@,
        Code::ja => "Japanese"@,
        Code::ko => "Korean"@,
        Code::it => "Italian"@,
        Code::nl => "Dutch"@,
        Code::sv => "Swedish"@,
        Code::tr => "Turkish"@,
        Code::pl => "Polish"@,
        Code::vi => "Vietnamese"@,
        Code::th => "Thai"@,
        Code::id => "Indonesian"@,
        Code::fa => "Persian"@,
        Code::he => "Hebrew"@,
        Code::bn => "Bengali"@,
        Code::ta => "Tamil"@,
        Code::te => "Telugu"@,
        Code::mr => "Marathi"@,
        Code::ur => "Urdu"@,
        Code::gu => "Gujarati"@,
        Code::pa => "Punjabi"@,
        Code::kn => "Kannada"@,
        Code::ml => "Malayalam"@,
        Code::or => "Odia"@,
        Code::my => "Burmese"@,
        Code::uk => "Ukrainian"@,
        Code::cs => "Czech"@,
        Code::hu => "Hungarian"@,
        Code::fi => "Finnish"@,
        Code::da => "Danish"@,
        Code::no => "Norwegian"@,
        Code::el => "Greek"@,
        Code::ro => "Romanian"@,
        Code::sk => "Slovak"@,
        Code::bg => "Bulgarian"@,
        Code::hr => "Croatian"@,
        Code::sr => "Serbian"@,
        Code::lt => "Lithuanian"@,
        Code::lv => "Latvian"@,
        Code::et => "Estonian"@,
        Code::sl => "Slovenian"@,
        Code::ms => "Malay"@,
        Code::sw => "Swahili"@,
    }
}

/// The name of the language in the language itself.
pub open spec fn native_name(c: Code) -> Seq<char> {
    match c {
        Code::en => "English"@,
        Code::es => "Español"@,
        Code::fr => "Français"@,
        Code::de => "Deutsch"@,
        Code::zh => "中文"@,
        Code::ar => "العربية"@,
        Code::hi => "हिन्दी"@,
        Code::pt => "Português"@,
        Code::ru => "Русский"@,
        Code::ja => "日本語"@,
        Code::ko => "한국어"@,
        Code::it => "Italiano"@,
        Code::nl => "Nederlands"@,
        Code::sv => "Svenska"@,
        Code::tr => "Türkçe"@,
        Code::pl => "Polski"@,
        Code::vi => "Tiếng Việt"@,
        Code::th => "ไทย"@,
        Code::id => "Bahasa Indonesia"@,
        Code::fa => "فارسی"@,
        Code::he => "עברית"@,
        Code::bn => "বাংলা"@,
        Code::ta => "தமிழ்"@,
        Code::te => "తెలుగు"@,
        Code::mr => "मराठी"@,
        Code::ur => "اردو"@,
        Code::gu => "ગુજરાતી"@,
        Code::pa => "ਪੰਜਾਬੀ"@,
        Code::kn => "ಕನ್ನಡ"@,
        Code::ml => "മലയാളം"@,
        Code::or => "ଓଡ଼ିଆ"@,
        Code::my => "မြန်မာ"@,
        Code::uk => "Українська"@,
        Code::cs => "Čeština"@,
        Code::hu => "Magyar"@,
        Code::fi => "Suomi"@,
        Code::da => "Dansk"@,
        Code::no => "Norsk"@,
        Code::el => "Ελληνικά"@,
        Code::ro => "Română"@,
        Code::sk => "Slovenčina"@,
        Code::bg => "Български"@,
        Code::hr => "Hrvatski"@,
        Code::sr => "Српски"@,
        Code::lt => "Lietuvių"@,
        Code::lv => "Latviešu"@,
        Code::et => "Eesti"@,
        Code::sl => "Slovenščina"@,
        Code::ms => "Bahasa Melayu"@,
        Code::sw => "Kiswahili"@,
    }
}

/// The direction the language is written in.
pub open spec fn text_direction(c: Code) -> Direction {
    match c {
        Code::en => Direction::LeftToRight,
        Code::es => Direction::LeftToRight,
        Code::fr => Direction::LeftToRight,
        Code::de => Direction::LeftToRight,
        Code::zh => Direction::LeftToRight,
        Code::ar => Direction::RightToLeft,
        Code::hi => Direction::LeftToRight,
        Code::pt => Direction::LeftToRight,
        Code::ru => Direction::LeftToRight,
        Code::ja => Direction::LeftToRight,
        Code::ko => Direction::LeftToRight,
        Code::it => Direction::LeftToRight,
        Code::nl => Direction::LeftToRight,
        Code::sv => Direction::LeftToRight,
        Code::tr => Direction::LeftToRight,
        Code::pl => Direction::LeftToRight,
        Code::vi => Direction::LeftToRight,
        Code::th => Direction::LeftToRight,
        Code::id => Direction::LeftToRight,
        Code::fa => Direction::RightToLeft,
        Code::he => Direction::RightToLeft,
        Code::bn => Direction::LeftToRight,
        Code::ta => Direction::LeftToRight,
        Code::te => Direction::LeftToRight,
        Code::mr => Direction::LeftToRight,
        Code::ur => Direction::RightToLeft,
        Code::gu => Direction::LeftToRight,
        Code::pa => Direction::LeftToRight,
        Code::kn => Direction::LeftToRight,
        Code::ml => Direction::LeftToRight,
        Code::or => Direction::LeftToRight,
        Code::my => Direction::LeftToRight,
        Code::uk => Direction::LeftToRight,
        Code::cs => Direction::LeftToRight,
        Code::hu => Direction::LeftToRight,
        Code::fi => Direction::LeftToRight,
        Code::da => Direction::LeftToRight,
        Code::no => Direction::LeftToRight,
        Code::el => Direction::LeftToRight,
        Code::ro => Direction::LeftToRight,
        Code::sk => Direction::LeftToRight,
        Code::bg => Direction::LeftToRight,
        Code::hr => Direction::LeftToRight,
        Code::sr => Direction::LeftToRight,
        Code::lt => Direction::LeftToRight,
        Code::lv => Direction::LeftToRight,
        Code::et => Direction::LeftToRight,
        Code::sl => Direction::LeftToRight,
        Code::ms => Direction::LeftToRight,
        Code::sw => Direction::LeftToRight,
    }
}

/// Every code, in declaration order.
pub open spec fn all_codes() -> Seq<Code> {
    seq![Code::en, Code::es, Code::fr, Code::de, Code::zh, Code::ar, Code::hi, Code::pt, Code::ru, Code::ja, Code::ko, Code::it, Code::nl, Code::sv, Code::tr, Code::pl, Code::vi, Code::th, Code::id, Code::fa, Code::he, Code::bn, Code::ta, Code::te, Code::mr, Code::ur, Code::gu, Code::pa, Code::kn, Code::ml, Code::or, Code::my, Code::uk, Code::cs, Code::hu, Code::fi, Code::da, Code::no, Code::el, Code::ro, Code::sk, Code::bg, Code::hr, Code::sr, Code::lt, Code::lv, Code::et, Code::sl, Code::ms, Code::sw]
}

/// The first code of `codes` written as `s`.
pub open spec fn first_with_code(codes: Seq<Code>, s: Seq<char>) -> Option<Code>
    decreases codes.len(),
{
    if codes.len() == 0 {
        None
    } else if code_str(codes[0]) == s {
        Some(codes[0])
    } else {
        first_with_code(codes.drop_first(), s)
    }
}

/// The first code of `codes` whose name is `name`.
pub open spec fn first_with_name(codes: Seq<Code>, name: Seq<char>) -> Option<Code>
    decreases codes.len(),
{
    if codes.len() == 0 {
        None
    } else if english_name(codes[0]) == name {
        Some(codes[0])
    } else {
        first_with_name(codes.drop_first(), name)
    }
}

/// The code a string stands for: a code (in any letter case) first, then a name.
pub open spec fn parse_code(s: Seq<char>) -> Option<Code> {
    match first_with_code(all_codes(), lowercase(s)) {
        Some(c) => Some(c),
        None => first_with_name(all_codes(), s),
    }
}

/// Every code occurs in `all_codes`.
pub proof fn lemma_all_codes_complete(c: Code)
    ensures
        all_codes().contains(c),
{
    match c {
        Code::en => assert(all_codes()[0] == c),
        Code::es => assert(all_codes()[1] == c),
        Code::fr => assert(all_codes()[2] == c),
        Code::de => assert(all_codes()[3] == c),
        Code::zh => assert(all_codes()[4] == c),
        Code::ar => assert(all_codes()[5] == c),
        Code::hi => assert(all_codes()[6] == c),
        Code::pt => assert(all_codes()[7] == c),
        Code::ru => assert(all_codes()[8] == c),
        Code::ja => assert(all_codes()[9] == c),
        Code::ko => assert(all_codes()[10] == c),
        Code::it => assert(all_codes()[11] == c),
        Code::nl => assert(all_codes()[12] == c),
        Code::sv => assert(all_codes()[13] == c),
        Code::tr => assert(all_codes()[14] == c),
        Code::pl => assert(all_codes()[15] == c),
        Code::vi => assert(all_codes()[16] == c),
        Code::th => assert(all_codes()[17] == c),
        Code::id => assert(all_codes()[18] == c),
        Code::fa => assert(all_codes()[19] == c),
        Code::he => assert(all_codes()[20] == c),
        Code::bn => assert(all_codes()[21] == c),
        Code::ta => assert(all_codes()[22] == c),
        Code::te => assert(all_codes()[23] == c),
        Code::mr => assert(all_codes()[24] == c),
        Code::ur => assert(all_codes()[25] == c),
        Code::gu => assert(all_codes()[26] == c),
        Code::pa => assert(all_codes()[27] == c),
        Code::kn => assert(all_codes()[28] == c),
        Code::ml => assert(all_codes()[29] == c),
        Code::or => assert(all_codes()[30] == c),
        Code::my => assert(all_codes()[31] == c),
        Code::uk => assert(all_codes()[32] == c),
        Code::cs => assert(all_codes()[33] == c),
        Code::hu => assert(all_codes()[34] == c),
        Code::fi => assert(all_codes()[35] == c),
        Code::da => assert(all_codes()[36] == c),
        Code::no => assert(all_codes()[37] == c),
        Code::el => assert(all_codes()[38] == c),
        Code::ro => assert(all_codes()[39] == c),
        Code::sk => assert(all_codes()[40] == c),
        Code::bg => assert(all_codes()[41] == c),
        Code::hr => assert(all_codes()[42] == c),
        Code::sr => assert(all_codes()[43] == c),
        Code::lt => assert(all_codes()[44] == c),
        Code::lv => assert(all_codes()[45] == c),
        Code::et => assert(all_codes()[46] == c),
        Code::sl => assert(all_codes()[47] == c),
        Code::ms => assert(all_codes()[48] == c),
        Code::sw => assert(all_codes()[49] == c),
    }
}

impl Code {
    /// Get the name in English.
    pub fn get_name_in_english(&self) -> (r: &'static str)
        ensures
            r@ == english_name(*self),
    {
        match self {
            Code::en => "English",
            Code::es => "Spanish",
            Code::fr => "French",
            Code::de => "German",
            Code::zh => "Chinese",
            Code::ar => "Arabic",
            Code::hi => "Hindi",
            Code::pt => "Portuguese",
            Code::ru => "Russian",
            Code::ja => "Japanese",
            Code::ko => "Korean",
            Code::it => "Italian",
            Code::nl => "Dutch",
            Code::sv => "Swedish",
            Code::tr => "Turkish",
            Code::pl => "Polish",
            Code::vi => "Vietnamese",
            Code::th => "Thai",
            Code::id => "Indonesian",
            Code::fa => "Persian",
            Code::he => "Hebrew",
            Code::bn => "Bengali",
            Code::ta => "Tamil",
            Code::te => "Telugu",
            Code::mr => "Marathi",
            Code::ur => "Urdu",
            Code::gu => "Gujarati",
            Code::pa => "Punjabi",
            Code::kn => "Kannada",
            Code::ml => "Malayalam",
            Code::or => "Odia",
            Code::my => "Burmese",
            Code::uk => "Ukrainian",
            Code::cs => "Czech",
            Code::hu => "Hungarian",
            Code::fi => "Finnish",
            Code::da => "Danish",
            Code::no => "Norwegian",
            Code::el => "Greek",
            Code::ro => "Romanian",
            Code::sk => "Slovak",
            Code::bg => "Bulgarian",
            Code::hr => "Croatian",
            Code::sr => "Serbian",
            Code::lt => "Lithuanian",
            Code::lv => "Latvian",
            Code::et => "Estonian",
            Code::sl => "Slovenian",
            Code::ms => "Malay",
            Code::sw => "Swahili",
        }
    }

    /// Get the name in the language itself.
    pub fn get_name_in_native(&self) -> (r: &'static str)
        ensures
            r@ == native_name(*self),
    {
        match self {
            Code::en => "English",
            Code::es => "Español",
            Code::fr => "Français",
            Code::de => "Deutsch",
            Code::zh => "中文",
            Code::ar => "العربية",
            Code::hi => "हिन्दी",
            Code::pt => "Português",
            Code::ru => "Русский",
            Code::ja => "日本語",
            Code::ko => "한국어",
            Code::it => "Italiano",
            Code::nl => "Nederlands",
            Code::sv => "Svenska",
            Code::tr => "Türkçe",
            Code::pl => "Polski",
            Code::vi => "Tiếng Việt",
            Code::th => "ไทย",
            Code::id => "Bahasa Indonesia",
            Code::fa => "فارسی",
            Code::he => "עברית",
            Code::bn => "বাংলা",
            Code::ta => "தமிழ்",
            Code::te => "తెలుగు",
            Code::mr => "मराठी",
            Code::ur => "اردو",
            Code::gu => "ગુજરાતી",
            Code::pa => "ਪੰਜਾਬੀ",
            Code::kn => "ಕನ್ನಡ",
            Code::ml => "മലയാളം",
            Code::or => "ଓଡ଼ିଆ",
            Code::my => "မြန်မာ",
            Code::uk => "Українська",
            Code::cs => "Čeština",
            Code::hu => "Magyar",
            Code::fi => "Suomi",
            Code::da => "Dansk",
            Code::no => "Norsk",
            Code::el => "Ελληνικά",
            Code::ro => "Română",
            Code::sk => "Slovenčina",
            Code::bg => "Български",
            Code::hr => "Hrvatski",
            Code::sr => "Српски",
            Code::lt => "Lietuvių",
            Code::lv => "Latviešu",
            Code::et => "Eesti",
            Code::sl => "Slovenščina",
            Code::ms => "Bahasa Melayu",
            Code::sw => "Kiswahili",
        }
    }

    /// Get the text direction of the language.
    pub fn get_text_direction(&self) -> (r: Direction)
        ensures
            r == text_direction(*self),
    {
        match self {
            Code::en => Direction::LeftToRight,
            Code::es => Direction::LeftToRight,
            Code::fr => Direction::LeftToRight,
            Code::de => Direction::LeftToRight,
            Code::zh => Direction::LeftToRight,
            Code::ar => Direction::RightToLeft,
            Code::hi => Direction::LeftToRight,
            Code::pt => Direction::LeftToRight,
            Code::ru => Direction::LeftToRight,
            Code::ja => Direction::LeftToRight,
            Code::ko => Direction::LeftToRight,
            Code::it => Direction::LeftToRight,
            Code::nl => Direction::LeftToRight,
            Code::sv => Direction::LeftToRight,
            Code::tr => Direction::LeftToRight,
            Code::pl => Direction::LeftToRight,
            Code::vi => Direction::LeftToRight,
            Code::th => Direction::LeftToRight,
            Code::id => Direction::LeftToRight,
            Code::fa => Direction::RightToLeft,
            Code::he => Direction::RightToLeft,
            Code::bn => Direction::LeftToRight,
            Code::ta => Direction::LeftToRight,
            Code::te => Direction::LeftToRight,
            Code::mr => Direction::LeftToRight,
            Code::ur => Direction::RightToLeft,
            Code::gu => Direction::LeftToRight,
            Code::pa => Direction::LeftToRight,
            Code::kn => Direction::LeftToRight,
            Code::ml => Direction::LeftToRight,
            Code::or => Direction::LeftToRight,
            Code::my => Direction::LeftToRight,
            Code::uk => Direction::LeftToRight,
            Code::cs => Direction::LeftToRight,
            Code::hu => Direction::LeftToRight,
            Code::fi => Direction::LeftToRight,
            Code::da => Direction::LeftToRight,
            Code::no => Direction::LeftToRight,
            Code::el => Direction::LeftToRight,
            Code::ro => Direction::LeftToRight,
            Code::sk => Direction::LeftToRight,
            Code::bg => Direction::LeftToRight,
            Code::hr => Direction::LeftToRight,
            Code::sr => Direction::LeftToRight,
            Code::lt => Direction::LeftToRight,
            Code::lv => Direction::LeftToRight,
            Code::et => Direction::LeftToRight,
            Code::sl => Direction::LeftToRight,
            Code::ms => Direction::LeftToRight,
            Code::sw => Direction::LeftToRight,
        }
    }

    /// The code as a string, as it is displayed and used in paths.
    pub fn as_str(&self) -> (r: &'static str)
        ensures
            r@ == code_str(*self),
    {
        match self {
            Code::en => {
                proof { reveal_strlit("en"); }
                "en"
            }
            Code::es => {
                proof { reveal_strlit("es"); }
                "es"
            }
            Code::fr => {
                proof { reveal_strlit("fr"); }
                "fr"
            }
            Code::de => {
                proof { reveal_strlit("de"); }
                "de"
            }
            Code::zh => {
                proof { reveal_strlit("zh"); }
                "zh"
            }
            Code::ar => {
                proof { reveal_strlit("ar"); }
                "ar"
            }
            Code::hi => {
                proof { reveal_strlit("hi"); }
                "hi"
            }
            Code::pt => {
                proof { reveal_strlit("pt"); }
                "pt"
            }
            Code::ru => {
                proof { reveal_strlit("ru"); }
                "ru"
            }
            Code::ja => {
                proof { reveal_strlit("ja"); }
                "ja"
            }
            Code::ko => {
                proof { reveal_strlit("ko"); }
                "ko"
            }
            Code::it => {
                proof { reveal_strlit("it"); }
                "it"
            }
            Code::nl => {
                proof { reveal_strlit("nl"); }
                "nl"
            }
            Code::sv => {
                proof { reveal_strlit("sv"); }
                "sv"
            }
            Code::tr => {
                proof { reveal_strlit("tr"); }
                "tr"
            }
            Code::pl => {
                proof { reveal_strlit("pl"); }
                "pl"
            }
            Code::vi => {
                proof { reveal_strlit("vi"); }
                "vi"
            }
            Code::th => {
                proof { reveal_strlit("th"); }
                "th"
            }
            Code::id => {
                proof { reveal_strlit("id"); }
                "id"
            }
            Code::fa => {
                proof { reveal_strlit("fa"); }
                "fa"
            }
            Code::he => {
                proof { reveal_strlit("he"); }
                "he"
            }
            Code::bn => {
                proof { reveal_strlit("bn"); }
                "bn"
            }
            Code::ta => {
                proof { reveal_strlit("ta"); }
                "ta"
            }
            Code::te => {
                proof { reveal_strlit("te"); }
                "te"
            }
            Code::mr => {
                proof { reveal_strlit("mr"); }
                "mr"
            }
            Code::ur => {
                proof { reveal_strlit("ur"); }
                "ur"
            }
            Code::gu => {
                proof { reveal_strlit("gu"); }
                "gu"
            }
            Code::pa => {
                proof { reveal_strlit("pa"); }
                "pa"
            }
            Code::kn => {
                proof { reveal_strlit("kn"); }
                "kn"
            }
            Code::ml => {
                proof { reveal_strlit("ml"); }
                "ml"
            }
            Code::or => {
                proof { reveal_strlit("or"); }
                "or"
            }
            Code::my => {
                proof { reveal_strlit("my"); }
                "my"
            }
            Code::uk => {
                proof { reveal_strlit("uk"); }
                "uk"
            }
            Code::cs => {
                proof { reveal_strlit("cs"); }
                "cs"
            }
            Code::hu => {
                proof { reveal_strlit("hu"); }
                "hu"
            }
            Code::fi => {
                proof { reveal_strlit("fi"); }
                "fi"
            }
            Code::da => {
                proof { reveal_strlit("da"); }
                "da"
            }
            Code::no => {
                proof { reveal_strlit("no"); }
                "no"
            }
            Code::el => {
                proof { reveal_strlit("el"); }
                "el"
            }
            Code::ro => {
                proof { reveal_strlit("ro"); }
                "ro"
            }
            Code::sk => {
                proof { reveal_strlit("sk"); }
                "sk"
            }
            Code::bg => {
                proof { reveal_strlit("bg"); }
                "bg"
            }
            Code::hr => {
                proof { reveal_strlit("hr"); }
                "hr"
            }
            Code::sr => {
                proof { reveal_strlit("sr"); }
                "sr"
            }
            Code::lt => {
                proof { reveal_strlit("lt"); }
                "lt"
            }
            Code::lv => {
                proof { reveal_strlit("lv"); }
                "lv"
            }
            Code::et => {
                proof { reveal_strlit("et"); }
                "et"
            }
            Code::sl => {
                proof { reveal_strlit("sl"); }
                "sl"
            }
            Code::ms => {
                proof { reveal_strlit("ms"); }
                "ms"
            }
            Code::sw => {
                proof { reveal_strlit("sw"); }
                "sw"
            }
        }
    }

    /// The two letters of the code.
    pub fn letters(&self) -> (r: (char, char))
        ensures
            r == code_chars(*self),
    {
        match self {
            Code::en => ('e', 'n'),
            Code::es => ('e', 's'),
            Code::fr => ('f', 'r'),
            Code::de => ('d', 'e'),
            Code::zh => ('z', 'h'),
            Code::ar => ('a', 'r'),
            Code::hi => ('h', 'i'),
            Code::pt => ('p', 't'),
            Code::ru => ('r', 'u'),
            Code::ja => ('j', 'a'),
            Code::ko => ('k', 'o'),
            Code::it => ('i', 't'),
            Code::nl => ('n', 'l'),
            Code::sv => ('s', 'v'),
            Code::tr => ('t', 'r'),
            Code::pl => ('p', 'l'),
            Code::vi => ('v', 'i'),
            Code::th => ('t', 'h'),
            Code::id => ('i', 'd'),
            Code::fa => ('f', 'a'),
            Code::he => ('h', 'e'),
            Code::bn => ('b', 'n'),
            Code::ta => ('t', 'a'),
            Code::te => ('t', 'e'),
            Code::mr => ('m', 'r'),
            Code::ur => ('u', 'r'),
            Code::gu => ('g', 'u'),
            Code::pa => ('p', 'a'),
            Code::kn => ('k', 'n'),
            Code::ml => ('m', 'l'),
            Code::or => ('o', 'r'),
            Code::my => ('m', 'y'),
            Code::uk => ('u', 'k'),
            Code::cs => ('c', 's'),
            Code::hu => ('h', 'u'),
            Code::fi => ('f', 'i'),
            Code::da => ('d', 'a'),
            Code::no => ('n', 'o'),
            Code::el => ('e', 'l'),
            Code::ro => ('r', 'o'),
            Code::sk => ('s', 'k'),
            Code::bg => ('b', 'g'),
            Code::hr => ('h', 'r'),
            Code::sr => ('s', 'r'),
            Code::lt => ('l', 't'),
            Code::lv => ('l', 'v'),
            Code::et => ('e', 't'),
            Code::sl => ('s', 'l'),
            Code::ms => ('m', 's'),
            Code::sw => ('s', 'w'),
        }
    }

    /// Every code, in declaration order.
    pub fn all() -> (r: Vec<Code>)
        ensures
            r@ == all_codes(),
    {
        vec![Code::en, Code::es, Code::fr, Code::de, Code::zh, Code::ar, Code::hi, Code::pt, Code::ru, Code::ja, Code::ko, Code::it, Code::nl, Code::sv, Code::tr, Code::pl, Code::vi, Code::th, Code::id, Code::fa, Code::he, Code::bn, Code::ta, Code::te, Code::mr, Code::ur, Code::gu, Code::pa, Code::kn, Code::ml, Code::or, Code::my, Code::uk, Code::cs, Code::hu, Code::fi, Code::da, Code::no, Code::el, Code::ro, Code::sk, Code::bg, Code::hr, Code::sr, Code::lt, Code::lv, Code::et, Code::sl, Code::ms, Code::sw]
    }
}


/// Scanning `codes` from index `i` finds what scanning from `i + 1` finds, unless `codes[i]`
/// itself matches.
proof fn lemma_first_with_code_step(codes: Seq<Code>, i: int, s: Seq<char>)
    requires
        0 <= i < codes.len(),
    ensures
        first_with_code(codes.skip(i), s) == (if code_str(codes[i]) == s {
            Some(codes[i])
        } else {
            first_with_code(codes.skip(i + 1), s)
        }),
{
    assert(codes.skip(i).drop_first() =~= codes.skip(i + 1));
}

/// Scanning `codes` by name from index `i`, one step at a time.
proof fn lemma_first_with_name_step(codes: Seq<Code>, i: int, name: Seq<char>)
    requires
        0 <= i < codes.len(),
    ensures
        first_with_name(codes.skip(i), name) == (if english_name(codes[i]) == name {
            Some(codes[i])
        } else {
            first_with_name(codes.skip(i + 1), name)
        }),
{
    assert(codes.skip(i).drop_first() =~= codes.skip(i + 1));
}

/// Get the Code from the language name.
pub fn get_language_code_from_name(name: &str) -> (r: Option<Code>)
    ensures
        r == first_with_name(all_codes(), name@),
{
    let all = Code::all();
    let mut i: usize = 0;
    assert(all@.skip(0) =~= all@);
    while i < all.len()
        invariant
            all@ == all_codes(),
            i <= all.len(),
            first_with_name(all_codes(), name@) == first_with_name(all_codes().skip(i as int), name@),
        decreases all.len() - i,
    {
        let c = all[i];
        proof {
            lemma_first_with_name_step(all_codes(), i as int, name@);
        }
        if str_eq(name, c.get_name_in_english()) {
            return Some(c);
        }
        i = i + 1;
    }
    assert(all_codes().skip(i as int).len() == 0);
    None
}

/// Get the Code whose lowercase spelling is exactly `lower`.
pub fn code_from_lowercase(lower: &str) -> (r: Option<Code>)
    ensures
        r == first_with_code(all_codes(), lower@),
{
    let all = Code::all();
    let mut i: usize = 0;
    assert(all@.skip(0) =~= all@);
    while i < all.len()
        invariant
            all@ == all_codes(),
            i <= all.len(),
            first_with_code(all_codes(), lower@) == first_with_code(all_codes().skip(i as int), lower@),
        decreases all.len() - i,
    {
        let c = all[i];
        proof {
            lemma_first_with_code_step(all_codes(), i as int, lower@);
        }
        if str_eq(lower, c.as_str()) {
            return Some(c);
        }
        i = i + 1;
    }
    assert(all_codes().skip(i as int).len() == 0);
    None
}

/// Get the Code from the language code as a string, in any letter case.
pub fn get_language_code(code: &str) -> (r: Option<Code>)
    ensures
        r == first_with_code(all_codes(), lowercase(code@)),
        ascii_text(code@) ==> r == first_with_code(all_codes(), ascii_lower(code@)),
{
    let lower = to_lowercase(code);
    code_from_lowercase(lower.as_str())
}

impl Code {
    /// Parse a code, or failing that a language name.
    pub fn try_from(value: &str) -> (r: Result<Code, Error>)
        ensures
            match r {
                Ok(c) => parse_code(value@) == Some(c),
                Err(e) => parse_code(value@).is_none() && e == Error::InvalidLanguageCode(
                    e->InvalidLanguageCode_0,
                ) && e->InvalidLanguageCode_0@ == value@,
            },
            forall|c: Code|
                ascii_text(value@) && ascii_lower(value@) == #[trigger] code_str(c) ==> r
                    == Ok::<Code, Error>(c),
            ascii_text(value@) ==> (r is Err <==> (first_with_code(all_codes(), ascii_lower(value@))
                is None && first_with_name(all_codes(), value@) is None)),
            forall|c: Code| value@ == #[trigger] english_name(c) ==> r == Ok::<Code, Error>(c),
    {
        proof {
            assert forall|c: Code| value@ == #[trigger] english_name(c) implies ascii_text(value@)
                && first_with_name(all_codes(), value@) == Some(c) && first_with_code(
                all_codes(),
                ascii_lower(value@),
            ) is None by {
                lemma_name_parses(c);
                lemma_first_with_code_len(all_codes(), ascii_lower(value@));
            }
        }
        proof {
            assert forall|c: Code|
                ascii_text(value@) && ascii_lower(value@) == #[trigger] code_str(c) implies first_with_code(
                all_codes(),
                ascii_lower(value@),
            ) == Some(c) by {
                lemma_all_codes_complete(c);
                lemma_first_with_own_code(all_codes(), c);
            }
        }
        if let Some(code) = get_language_code(value) {
            Ok(code)
        } else if let Some(code) = get_language_code_from_name(value) {
            Ok(code)
        } else {
            Err(Error::InvalidLanguageCode(owned(value)))
        }
    }
}

impl Default for Code {
    fn default() -> (r: Self)
        ensures
            r == Code::en,
    {
        Code::en
    }
}

/// A spoken language with its code, its name in English and in the language itself, and the
/// direction it is written in.
#[derive(Clone, Debug, PartialEq, Eq)]
pub struct Language {
    pub code: Code,
    pub name: String,
    pub native_name: String,
    pub direction: Direction,
}

/// The language that a code stands for.
pub open spec fn language_of(l: Language, code: Code) -> bool {
    &&& l.code == code
    &&& l.name@ == english_name(code)
    &&& l.native_name@ == native_name(code)
    &&& l.direction == text_direction(code)
}

impl Default for Language {
    fn default() -> (r: Self)
        ensures
            language_of(r, Code::en),
    {
        Language::from(Code::en)
    }
}

impl Language {
    /// The language that a code stands for.
    pub fn from(code: Code) -> (r: Language)
        ensures
            language_of(r, code),
    {
        Language {
            code,
            name: owned(code.get_name_in_english()),
            native_name: owned(code.get_name_in_native()),
            direction: code.get_text_direction(),
        }
    }

    /// The language named by a code or an English name.
    pub fn try_from(value: &str) -> (r: Result<Language, Error>)
        ensures
            match r {
                Ok(l) => parse_code(value@) == Some(l.code) && language_of(l, l.code),
                Err(e) => parse_code(value@).is_none() && e == Error::InvalidLanguageName(
                    e->InvalidLanguageName_0,
                ) && e->InvalidLanguageName_0@ == value@,
            },
    {
        match Code::try_from(value) {
            Ok(code) => Ok(Language::from(code)),
            Err(_) => Err(Error::InvalidLanguageName(owned(value))),
        }
    }
}
/// The code written with the letters `p`, if any.
pub open spec fn code_of_letters(p: (char, char)) -> Option<Code> {
    if p == ('e', 'n') {
        Some(Code::en)
    } else
    if p == ('e', 's') {
        Some(Code::es)
    } else
    if p == ('f', 'r') {
        Some(Code::fr)
    } else
    if p == ('d', 'e') {
        Some(Code::de)
    } else
    if p == ('z', 'h') {
        Some(Code::zh)
    } else
    if p == ('a', 'r') {
        Some(Code::ar)
    } else
    if p == ('h', 'i') {
        Some(Code::hi)
    } else
    if p == ('p', 't') {
        Some(Code::pt)
    } else
    if p == ('r', 'u') {
        Some(Code::ru)
    } else
    if p == ('j', 'a') {
        Some(Code::ja)
    } else
    if p == ('k', 'o') {
        Some(Code::ko)
    } else
    if p == ('i', 't') {
        Some(Code::it)
    } else
    if p == ('n', 'l') {
        Some(Code::nl)
    } else
    if p == ('s', 'v') {
        Some(Code::sv)
    } else
    if p == ('t', 'r') {
        Some(Code::tr)
    } else
    if p == ('p', 'l') {
        Some(Code::pl)
    } else
    if p == ('v', 'i') {
        Some(Code::vi)
    } else
    if p == ('t', 'h') {
        Some(Code::th)
    } else
    if p == ('i', 'd') {
        Some(Code::id)
    } else
    if p == ('f', 'a') {
        Some(Code::fa)
    } else
    if p == ('h', 'e') {
        Some(Code::he)
    } else
    if p == ('b', 'n') {
        Some(Code::bn)
    } else
    if p == ('t', 'a') {
        Some(Code::ta)
    } else
    if p == ('t', 'e') {
        Some(Code::te)
    } else
    if p == ('m', 'r') {
        Some(Code::mr)
    } else
    if p == ('u', 'r') {
        Some(Code::ur)
    } else
    if p == ('g', 'u') {
        Some(Code::gu)
    } else
    if p == ('p', 'a') {
        Some(Code::pa)
    } else
    if p == ('k', 'n') {
        Some(Code::kn)
    } else
    if p == ('m', 'l') {
        Some(Code::ml)
    } else
    if p == ('o', 'r') {
        Some(Code::or)
    } else
    if p == ('m', 'y') {
        Some(Code::my)
    } else
    if p == ('u', 'k') {
        Some(Code::uk)
    } else
    if p == ('c', 's') {
        Some(Code::cs)
    } else
    if p == ('h', 'u') {
        Some(Code::hu)
    } else
    if p == ('f', 'i') {
        Some(Code::fi)
    } else
    if p == ('d', 'a') {
        Some(Code::da)
    } else
    if p == ('n', 'o') {
        Some(Code::no)
    } else
    if p == ('e', 'l') {
        Some(Code::el)
    } else
    if p == ('r', 'o') {
        Some(Code::ro)
    } else
    if p == ('s', 'k') {
        Some(Code::sk)
    } else
    if p == ('b', 'g') {
        Some(Code::bg)
    } else
    if p == ('h', 'r') {
        Some(Code::hr)
    } else
    if p == ('s', 'r') {
        Some(Code::sr)
    } else
    if p == ('l', 't') {
        Some(Code::lt)
    } else
    if p == ('l', 'v') {
        Some(Code::lv)
    } else
    if p == ('e', 't') {
        Some(Code::et)
    } else
    if p == ('s', 'l') {
        Some(Code::sl)
    } else
    if p == ('m', 's') {
        Some(Code::ms)
    } else
    if p == ('s', 'w') {
        Some(Code::sw)
    } else {
        None
    }
}

/// Reading a code's letters back gives the code.
pub proof fn lemma_code_of_letters(c: Code)
    ensures
        code_of_letters(code_chars(c)) == Some(c),
{
    match c {
        Code::en => {},
        Code::es => {},
        Code::fr => {},
        Code::de => {},
        Code::zh => {},
        Code::ar => {},
        Code::hi => {},
        Code::pt => {},
        Code::ru => {},
        Code::ja => {},
        Code::ko => {},
        Code::it => {},
        Code::nl => {},
        Code::sv => {},
        Code::tr => {},
        Code::pl => {},
        Code::vi => {},
        Code::th => {},
        Code::id => {},
        Code::fa => {},
        Code::he => {},
        Code::bn => {},
        Code::ta => {},
        Code::te => {},
        Code::mr => {},
        Code::ur => {},
        Code::gu => {},
        Code::pa => {},
        Code::kn => {},
        Code::ml => {},
        Code::or => {},
        Code::my => {},
        Code::uk => {},
        Code::cs => {},
        Code::hu => {},
        Code::fi => {},
        Code::da => {},
        Code::no => {},
        Code::el => {},
        Code::ro => {},
        Code::sk => {},
        Code::bg => {},
        Code::hr => {},
        Code::sr => {},
        Code::lt => {},
        Code::lv => {},
        Code::et => {},
        Code::sl => {},
        Code::ms => {},
        Code::sw => {},
    }
}

/// Different codes are spelled differently.
pub proof fn lemma_code_chars_injective(a: Code, b: Code)
    ensures
        code_chars(a) == code_chars(b) ==> a == b,
{
    lemma_code_of_letters(a);
    lemma_code_of_letters(b);
}

/// The order of codes: the alphabetical order of their two-letter spelling.
pub open spec fn code_before(a: Code, b: Code) -> bool {
    let x = code_chars(a);
    let y = code_chars(b);
    (x.0 as u32) < (y.0 as u32) || (x.0 == y.0 && (x.1 as u32) < (y.1 as u32))
}

/// `s` is in strictly increasing code order, so it holds no code twice.
pub open spec fn strictly_sorted(s: Seq<Code>) -> bool {
    forall|i: int, j: int| 0 <= i < j < s.len() ==> code_before(#[trigger] s[i], #[trigger] s[j])
}

/// Two different codes are ordered one way or the other.
pub proof fn lemma_code_before_total(a: Code, b: Code)
    ensures
        a != b ==> (code_before(a, b) || code_before(b, a)),
        !(code_before(a, b) && code_before(b, a)),
        !code_before(a, a),
{
    lemma_code_chars_injective(a, b);
}

/// Whether `v` holds `c`.
pub fn contains_code(v: &Vec<Code>, c: Code) -> (r: bool)
    ensures
        r == v@.contains(c),
{
    let mut i: usize = 0;
    while i < v.len()
        invariant
            i <= v.len(),
            forall|k: int| 0 <= k < i ==> v@[k] != c,
        decreases v.len() - i,
    {
        if v[i] == c {
            return true;
        }
        i = i + 1;
    }
    false
}

impl Code {
    /// Whether this code comes before `other` in the alphabetical order of codes.
    pub fn is_before(&self, other: &Code) -> (r: bool)
        ensures
            r == code_before(*self, *other),
    {
        let (a0, a1) = self.letters();
        let (b0, b1) = other.letters();
        (a0 as u32) < (b0 as u32) || (a0 == b0 && (a1 as u32) < (b1 as u32))
    }
}

/// The codes of `v` in alphabetical order of their spelling, each once.
pub fn sort_dedup(v: &Vec<Code>) -> (r: Vec<Code>)
    ensures
        strictly_sorted(r@),
        forall|c: Code| r@.contains(c) <==> v@.contains(c),
{
    let mut r: Vec<Code> = Vec::new();
    let mut i: usize = 0;
    while i < v.len()
        invariant
            i <= v.len(),
            strictly_sorted(r@),
            forall|c: Code| r@.contains(c) <==> v@.take(i as int).contains(c),
        decreases v.len() - i,
    {
        let x = v[i];
        let mut p: usize = 0;
        while p < r.len() && r[p].is_before(&x)
            invariant
                p <= r.len(),
                forall|k: int| 0 <= k < p ==> code_before(#[trigger] r@[k], x),
            decreases r.len() - p,
        {
            p = p + 1;
        }
        proof {
            assert(v@.take(i + 1) =~= v@.take(i as int).push(x));
        }
        if p < r.len() && r[p] == x {
            proof {
                assert forall|c: Code| r@.contains(c) <==> v@.take(i + 1).contains(c) by {
                    if c == x {
                        assert(r@[p as int] == c);
                    }
                    if v@.take(i as int).push(x).contains(c) && c != x {
                        let k = choose|k: int| 0 <= k < v@.take(i as int).push(x).len() && v@.take(i as int).push(x)[k] == c;
                        assert(v@.take(i as int)[k] == c);
                    }
                }
            }
        } else {
            let ghost old_r = r@;
            proof {
                if p < r.len() {
                    lemma_code_before_total(r@[p as int], x);
                }
                assert forall|k: int| p <= k < old_r.len() implies code_before(x, #[trigger] old_r[k]) by {
                    lemma_code_before_total(old_r[p as int], x);
                    if k > p {
                        assert(code_before(old_r[p as int], old_r[k]));
                    }
                }
            }
            r.insert(p, x);
            proof {
                assert(r@ =~= old_r.take(p as int).push(x) + old_r.skip(p as int));
                assert forall|a: int, b: int| 0 <= a < b < r@.len() implies code_before(#[trigger] r@[a], #[trigger] r@[b]) by {
                    if a < p && b == p {
                    } else if a < p && b > p {
                        assert(r@[b] == old_r[b - 1]);
                    } else if a == p {
                        assert(r@[b] == old_r[b - 1]);
                    } else if a > p {
                        assert(r@[a] == old_r[a - 1]);
                        assert(r@[b] == old_r[b - 1]);
                    }
                }
                assert forall|c: Code| r@.contains(c) <==> v@.take(i + 1).contains(c) by {
                    if r@.contains(c) {
                        let k = choose|k: int| 0 <= k < r@.len() && r@[k] == c;
                        if k < p {
                            assert(old_r[k] == c);
                        } else if k > p {
                            assert(old_r[k - 1] == c);
                        }
                        if c != x {
                            assert(old_r.contains(c));
                            assert(v@.take(i as int).contains(c));
                            let m = choose|m: int| 0 <= m < v@.take(i as int).len() && v@.take(i as int)[m] == c;
                            assert(v@.take(i as int).push(x)[m] == c);
                        } else {
                            assert(v@.take(i as int).push(x)[i as int] == c);
                        }
                    }
                    if v@.take(i + 1).contains(c) {
                        if c == x {
                            assert(r@[p as int] == c);
                        } else {
                            let m = choose|m: int| 0 <= m < v@.take(i as int).push(x).len() && v@.take(i as int).push(x)[m] == c;
                            assert(v@.take(i as int)[m] == c);
                            assert(old_r.contains(c));
                            let k = choose|k: int| 0 <= k < old_r.len() && old_r[k] == c;
                            if k < p {
                                assert(r@[k] == c);
                            } else {
                                assert(r@[k + 1] == c);
                            }
                        }
                    }
                }
            }
        }
        i = i + 1;
    }
    proof {
        assert(v@.take(v.len() as int) =~= v@);
    }
    r
}

/// Looking a code up by its own spelling finds it, in any list that holds it.
proof fn lemma_first_with_own_code(codes: Seq<Code>, c: Code)
    requires
        codes.contains(c),
    ensures
        first_with_code(codes, code_str(c)) == Some(c),
    decreases codes.len(),
{
    if codes[0] != c {
        lemma_code_chars_injective(codes[0], c);
        if code_str(codes[0]) == code_str(c) {
            assert(code_str(codes[0])[0] == code_str(c)[0]);
            assert(code_str(codes[0])[1] == code_str(c)[1]);
        }
        let k = choose|k: int| 0 <= k < codes.len() && codes[k] == c;
        assert(codes.drop_first()[k - 1] == c);
        lemma_first_with_own_code(codes.drop_first(), c);
    }
}

/// Nothing is found by a spelling whose length is not two.
proof fn lemma_first_with_code_len(codes: Seq<Code>, s: Seq<char>)
    requires
        s.len() != 2,
    ensures
        first_with_code(codes, s) is None,
    decreases codes.len(),
{
    if codes.len() > 0 {
        assert(code_str(codes[0]).len() == 2);
        lemma_first_with_code_len(codes.drop_first(), s);
    }
}

/// The length and first three letters of a language's English name.
spec fn name_key(c: Code) -> (nat, char, char, char) {
    let n = english_name(c);
    (n.len(), n[0], n[1], n[2])
}

/// The code whose English name has the given length and first three letters.
spec fn code_of_name_key(k: (nat, char, char, char)) -> Option<Code> {
    if k == (7nat, 'E', 'n', 'g') {
        Some(Code::en)
    } else if k == (7nat, 'S', 'p', 'a') {
        Some(Code::es)
    } else if k == (6nat, 'F', 'r', 'e') {
        Some(Code::fr)
    } else if k == (6nat, 'G', 'e', 'r') {
        Some(Code::de)
    } else if k == (7nat, 'C', 'h', 'i') {
        Some(Code::zh)
    } else if k == (6nat, 'A', 'r', 'a') {
        Some(Code::ar)
    } else if k == (5nat, 'H', 'i', 'n') {
        Some(Code::hi)
    } else if k == (10nat, 'P', 'o', 'r') {
        Some(Code::pt)
    } else if k == (7nat, 'R', 'u', 's') {
        Some(Code::ru)
    } else if k == (8nat, 'J', 'a', 'p') {
        Some(Code::ja)
    } else if k == (6nat, 'K', 'o', 'r') {
        Some(Code::ko)
    } else if k == (7nat, 'I', 't', 'a') {
        Some(Code::it)
    } else if k == (5nat, 'D', 'u', 't') {
        Some(Code::nl)
    } else if k == (7nat, 'S', 'w', 'e') {
        Some(Code::sv)
    } else if k == (7nat, 'T', 'u', 'r') {
        Some(Code::tr)
    } else if k == (6nat, 'P', 'o', 'l') {
        Some(Code::pl)
    } else if k == (10nat, 'V', 'i', 'e') {
        Some(Code::vi)
    } else if k == (4nat, 'T', 'h', 'a') {
        Some(Code::th)
    } else if k == (10nat, 'I', 'n', 'd') {
        Some(Code::id)
    } else if k == (7nat, 'P', 'e', 'r') {
        Some(Code::fa)
    } else if k == (6nat, 'H', 'e', 'b') {
        Some(Code::he)
    } else if k == (7nat, 'B', 'e', 'n') {
        Some(Code::bn)
    } else if k == (5nat, 'T', 'a', 'm') {
        Some(Code::ta)
    } else if k == (6nat, 'T', 'e', 'l') {
        Some(Code::te)
    } else if k == (7nat, 'M', 'a', 'r') {
        Some(Code::mr)
    } else if k == (4nat, 'U', 'r', 'd') {
        Some(Code::ur)
    } else if k == (8nat, 'G', 'u', 'j') {
        Some(Code::gu)
    } else if k == (7nat, 'P', 'u', 'n') {
        Some(Code::pa)
    } else if k == (7nat, 'K', 'a', 'n') {
        Some(Code::kn)
    } else if k == (9nat, 'M', 'a', 'l') {
        Some(Code::ml)
    } else if k == (4nat, 'O', 'd', 'i') {
        Some(Code::or)
    } else if k == (7nat, 'B', 'u', 'r') {
        Some(Code::my)
    } else if k == (9nat, 'U', 'k', 'r') {
        Some(Code::uk)
    } else if k == (5nat, 'C', 'z', 'e') {
        Some(Code::cs)
    } else if k == (9nat, 'H', 'u', 'n') {
        Some(Code::hu)
    } else if k == (7nat, 'F', 'i', 'n') {
        Some(Code::fi)
    } else if k == (6nat, 'D', 'a', 'n') {
        Some(Code::da)
    } else if k == (9nat, 'N', 'o', 'r') {
        Some(Code::no)
    } else if k == (5nat, 'G', 'r', 'e') {
        Some(Code::el)
    } else if k == (8nat, 'R', 'o', 'm') {
        Some(Code::ro)
    } else if k == (6nat, 'S', 'l', 'o') {
        Some(Code::sk)
    } else if k == (9nat, 'B', 'u', 'l') {
        Some(Code::bg)
    } else if k == (8nat, 'C', 'r', 'o') {
        Some(Code::hr)
    } else if k == (7nat, 'S', 'e', 'r') {
        Some(Code::sr)
    } else if k == (10nat, 'L', 'i', 't') {
        Some(Code::lt)
    } else if k == (7nat, 'L', 'a', 't') {
        Some(Code::lv)
    } else if k == (8nat, 'E', 's', 't') {
        Some(Code::et)
    } else if k == (9nat, 'S', 'l', 'o') {
        Some(Code::sl)
    } else if k == (5nat, 'M', 'a', 'l') {
        Some(Code::ms)
    } else if k == (7nat, 'S', 'w', 'a') {
        Some(Code::sw)
    } else {
        None
    }
}

/// A language's English name is ASCII text of more than two characters, and its length and
/// first three letters give the language back.
proof fn lemma_name_key(c: Code)
    ensures
        ascii_text(english_name(c)),
        english_name(c).len() > 2,
        code_of_name_key(name_key(c)) == Some(c),
{
    reveal_with_fuel(ascii_text, 12);
    match c {
        Code::en => {
            reveal_strlit("English");
            assert(english_name(c) =~= seq!['E', 'n', 'g', 'l', 'i', 's', 'h']);
        },
        Code::es => {
            reveal_strlit("Spanish");
            assert(english_name(c) =~= seq!['S', 'p', 'a', 'n', 'i', 's', 'h']);
        },
        Code::fr => {
            reveal_strlit("French");
            assert(english_name(c) =~= seq!['F', 'r', 'e', 'n', 'c', 'h']);
        },
        Code::de => {
            reveal_strlit("German");
            assert(english_name(c) =~= seq!['G', 'e', 'r', 'm', 'a', 'n']);
        },
        Code::zh => {
            reveal_strlit("Chinese");
            assert(english_name(c) =~= seq!['C', 'h', 'i', 'n', 'e', 's', 'e']);
        },
        Code::ar => {
            reveal_strlit("Arabic");
            assert(english_name(c) =~= seq!['A', 'r', 'a', 'b', 'i', 'c']);
        },
        Code::hi => {
            reveal_strlit("Hindi");
            assert(english_name(c) =~= seq!['H', 'i', 'n', 'd', 'i']);
        },
        Code::pt => {
            reveal_strlit("Portuguese");
            assert(english_name(c) =~= seq!['P', 'o', 'r', 't', 'u', 'g', 'u', 'e', 's', 'e']);
        },
        Code::ru => {
            reveal_strlit("Russian");
            assert(english_name(c) =~= seq!['R', 'u', 's', 's', 'i', 'a', 'n']);
        },
        Code::ja => {
            reveal_strlit("Japanese");
            assert(english_name(c) =~= seq!['J', 'a', 'p', 'a', 'n', 'e', 's', 'e']);
        },
        Code::ko => {
            reveal_strlit("Korean");
            assert(english_name(c) =~= seq!['K', 'o', 'r', 'e', 'a', 'n']);
        },
        Code::it => {
            reveal_strlit("Italian");
            assert(english_name(c) =~= seq!['I', 't', 'a', 'l', 'i', 'a', 'n']);
        },
        Code::nl => {
            reveal_strlit("Dutch");
            assert(english_name(c) =~= seq!['D', 'u', 't', 'c', 'h']);
        },
        Code::sv => {
            reveal_strlit("Swedish");
            assert(english_name(c) =~= seq!['S', 'w', 'e', 'd', 'i', 's', 'h']);
        },
        Code::tr => {
            reveal_strlit("Turkish");
            assert(english_name(c) =~= seq!['T', 'u', 'r', 'k', 'i', 's', 'h']);
        },
        Code::pl => {
            reveal_strlit("Polish");
            assert(english_name(c) =~= seq!['P', 'o', 'l', 'i', 's', 'h']);
        },
        Code::vi => {
            reveal_strlit("Vietnamese");
            assert(english_name(c) =~= seq!['V', 'i', 'e', 't', 'n', 'a', 'm', 'e', 's', 'e']);
        },
        Code::th => {
            reveal_strlit("Thai");
            assert(english_name(c) =~= seq!['T', 'h', 'a', 'i']);
        },
        Code::id => {
            reveal_strlit("Indonesian");
            assert(english_name(c) =~= seq!['I', 'n', 'd', 'o', 'n', 'e', 's', 'i', 'a', 'n']);
        },
        Code::fa => {
            reveal_strlit("Persian");
            assert(english_name(c) =~= seq!['P', 'e', 'r', 's', 'i', 'a', 'n']);
        },
        Code::he => {
            reveal_strlit("Hebrew");
            assert(english_name(c) =~= seq!['H', 'e', 'b', 'r', 'e', 'w']);
        },
        Code::bn => {
            reveal_strlit("Bengali");
            assert(english_name(c) =~= seq!['B', 'e', 'n', 'g', 'a', 'l', 'i']);
        },
        Code::ta => {
            reveal_strlit("Tamil");
            assert(english_name(c) =~= seq!['T', 'a', 'm', 'i', 'l']);
        },
        Code::te => {
            reveal_strlit("Telugu");
            assert(english_name(c) =~= seq!['T', 'e', 'l', 'u', 'g', 'u']);
        },
        Code::mr => {
            reveal_strlit("Marathi");
            assert(english_name(c) =~= seq!['M', 'a', 'r', 'a', 't', 'h', 'i']);
        },
        Code::ur => {
            reveal_strlit("Urdu");
            assert(english_name(c) =~= seq!['U', 'r', 'd', 'u']);
        },
        Code::gu => {
            reveal_strlit("Gujarati");
            assert(english_name(c) =~= seq!['G', 'u', 'j', 'a', 'r', 'a', 't', 'i']);
        },
        Code::pa => {
            reveal_strlit("Punjabi");
            assert(english_name(c) =~= seq!['P', 'u', 'n', 'j', 'a', 'b', 'i']);
        },
        Code::kn => {
            reveal_strlit("Kannada");
            assert(english_name(c) =~= seq!['K', 'a', 'n', 'n', 'a', 'd', 'a']);
        },
        Code::ml => {
            reveal_strlit("Malayalam");
            assert(english_name(c) =~= seq!['M', 'a', 'l', 'a', 'y', 'a', 'l', 'a', 'm']);
        },
        Code::or => {
            reveal_strlit("Odia");
            assert(english_name(c) =~= seq!['O', 'd', 'i', 'a']);
        },
        Code::my => {
            reveal_strlit("Burmese");
            assert(english_name(c) =~= seq!['B', 'u', 'r', 'm', 'e', 's', 'e']);
        },
        Code::uk => {
            reveal_strlit("Ukrainian");
            assert(english_name(c) =~= seq!['U', 'k', 'r', 'a', 'i', 'n', 'i', 'a', 'n']);
        },
        Code::cs => {
            reveal_strlit("Czech");
            assert(english_name(c) =~= seq!['C', 'z', 'e', 'c', 'h']);
        },
        Code::hu => {
            reveal_strlit("Hungarian");
            assert(english_name(c) =~= seq!['H', 'u', 'n', 'g', 'a', 'r', 'i', 'a', 'n']);
        },
        Code::fi => {
            reveal_strlit("Finnish");
            assert(english_name(c) =~= seq!['F', 'i', 'n', 'n', 'i', 's', 'h']);
        },
        Code::da => {
            reveal_strlit("Danish");
            assert(english_name(c) =~= seq!['D', 'a', 'n', 'i', 's', 'h']);
        },
        Code::no => {
            reveal_strlit("Norwegian");
            assert(english_name(c) =~= seq!['N', 'o', 'r', 'w', 'e', 'g', 'i', 'a', 'n']);
        },
        Code::el => {
            reveal_strlit("Greek");
            assert(english_name(c) =~= seq!['G', 'r', 'e', 'e', 'k']);
        },
        Code::ro => {
            reveal_strlit("Romanian");
            assert(english_name(c) =~= seq!['R', 'o', 'm', 'a', 'n', 'i', 'a', 'n']);
        },
        Code::sk => {
            reveal_strlit("Slovak");
            assert(english_name(c) =~= seq!['S', 'l', 'o', 'v', 'a', 'k']);
        },
        Code::bg => {
            reveal_strlit("Bulgarian");
            assert(english_name(c) =~= seq!['B', 'u', 'l', 'g', 'a', 'r', 'i', 'a', 'n']);
        },
        Code::hr => {
            reveal_strlit("Croatian");
            assert(english_name(c) =~= seq!['C', 'r', 'o', 'a', 't', 'i', 'a', 'n']);
        },
        Code::sr => {
            reveal_strlit("Serbian");
            assert(english_name(c) =~= seq!['S', 'e', 'r', 'b', 'i', 'a', 'n']);
        },
        Code::lt => {
            reveal_strlit("Lithuanian");
            assert(english_name(c) =~= seq!['L', 'i', 't', 'h', 'u', 'a', 'n', 'i', 'a', 'n']);
        },
        Code::lv => {
            reveal_strlit("Latvian");
            assert(english_name(c) =~= seq!['L', 'a', 't', 'v', 'i', 'a', 'n']);
        },
        Code::et => {
            reveal_strlit("Estonian");
            assert(english_name(c) =~= seq!['E', 's', 't', 'o', 'n', 'i', 'a', 'n']);
        },
        Code::sl => {
            reveal_strlit("Slovenian");
            assert(english_name(c) =~= seq!['S', 'l', 'o', 'v', 'e', 'n', 'i', 'a', 'n']);
        },
        Code::ms => {
            reveal_strlit("Malay");
            assert(english_name(c) =~= seq!['M', 'a', 'l', 'a', 'y']);
        },
        Code::sw => {
            reveal_strlit("Swahili");
            assert(english_name(c) =~= seq!['S', 'w', 'a', 'h', 'i', 'l', 'i']);
        },
    }
}

/// Looking a language up by its English name finds it, in any list that holds it.
proof fn lemma_first_with_own_name(codes: Seq<Code>, c: Code)
    requires
        codes.contains(c),
    ensures
        first_with_name(codes, english_name(c)) == Some(c),
    decreases codes.len(),
{
    if codes[0] != c {
        lemma_name_key(codes[0]);
        lemma_name_key(c);
        let k = choose|k: int| 0 <= k < codes.len() && codes[k] == c;
        assert(codes.drop_first()[k - 1] == c);
        lemma_first_with_own_name(codes.drop_first(), c);
    }
}

/// A language's English name is ASCII text of more than two characters and names that
/// language alone.
proof fn lemma_name_parses(c: Code)
    ensures
        ascii_text(english_name(c)),
        english_name(c).len() != 2,
        first_with_name(all_codes(), english_name(c)) == Some(c),
{
    lemma_name_key(c);
    lemma_all_codes_complete(c);
    lemma_first_with_own_name(all_codes(), c);
}
} // verus!
