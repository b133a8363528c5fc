//! The workshop model: its metadata, default languages, and the spoken and programming
//! language versions it has been written in.

use crate::languages::{programming, spoken};
use crate::models::{result_view, Error, ErrorView};
use crate::text::{copy_vec, join_path, owned, path_join, strings_view};
use vstd::prelude::*;

verus! {

/// Represents the progress through a workshop.
#[derive(Clone, Copy, Debug, PartialEq, Eq, Structural)]
pub enum Status {
    NotStarted,
    InProgress,
    Completed,
}

impl Status {
    /// The status as it is displayed.
    pub fn as_str(&self) -> (r: &'static str)
        ensures
            r@ == status_text(*self),
    {
        match self {
            Status::NotStarted => "Not Started",
            Status::InProgress => "In Progress",
            Status::Completed => "Completed",
        }
    }
}

/// The displayed text of a status.
pub open spec fn status_text(s: Status) -> Seq<char> {
    match s {
        Status::NotStarted => "Not Started"@,
        Status::InProgress => "In Progress"@,
        Status::Completed => "Completed"@,
    }
}

/// Represents a workshop's metadata.
#[derive(Clone, Debug)]
pub struct Workshop {
    pub title: String,
    pub authors: Vec<String>,
    pub copyright: String,
    pub license: String,
    pub homepage: String,
    pub difficulty: String,
    pub status: Status,
}

/// Represents the default spoken and programming language for a workshop.
#[derive(Clone, Copy, Debug, PartialEq, Eq, Structural)]
pub struct Defaults {
    pub spoken_language: spoken::Code,
    pub programming_language: programming::Code,
}

/// A spoken language and the programming languages it is available in.
pub type LanguageEntry = (spoken::Code, Vec<programming::Code>);

/// Spoken languages, each with the programming languages available in it.
pub type LanguageMap = Seq<(spoken::Code, Seq<programming::Code>)>;

/// The language map that a vector of entries stands for.
pub open spec fn map_view(v: Seq<LanguageEntry>) -> LanguageMap {
    Seq::new(v.len(), |i: int| (v[i].0, v[i].1@))
}

/// `i` is the first position of the spoken language `s` in `m`.
pub open spec fn is_first_key(m: LanguageMap, s: spoken::Code, i: int) -> bool {
    &&& 0 <= i < m.len()
    &&& m[i].0 == s
    &&& forall|k: int| 0 <= k < i ==> m[k].0 != s
}

/// `m` has an entry for `s`.
pub open spec fn has_key(m: LanguageMap, s: spoken::Code) -> bool {
    exists|i: int| 0 <= i < m.len() && m[i].0 == s
}

/// The spoken languages of `m`, in order.
pub open spec fn keys(m: LanguageMap) -> Seq<spoken::Code> {
    Seq::new(m.len(), |i: int| m[i].0)
}

/// The first entry for a spoken language gives its programming languages.
pub proof fn lemma_programming_for_first(m: LanguageMap, s: spoken::Code, i: int)
    requires
        is_first_key(m, s, i),
    ensures
        programming_for(m, s) == m[i].1,
{
    let k = choose|k: int| is_first_key(m, s, k);
    assert(is_first_key(m, s, k));
    if k < i {
        assert(m[k].0 != s);
    }
    if k > i {
        assert(m[i].0 != s);
    }
}

/// The programming languages of the first entry for `s`, or none.
pub open spec fn programming_for(m: LanguageMap, s: spoken::Code) -> Seq<programming::Code> {
    if has_key(m, s) {
        m[choose|i: int| is_first_key(m, s, i)].1
    } else {
        Seq::empty()
    }
}

/// Some entry of `m` offers `p`.
pub open spec fn offers_programming(m: LanguageMap, p: programming::Code) -> bool {
    exists|i: int| 0 <= i < m.len() && m[i].1.contains(p)
}

/// The spoken languages of `m` whose entries offer `p`, in order.
pub open spec fn spoken_offering(m: LanguageMap, p: programming::Code) -> Seq<spoken::Code>
    decreases m.len(),
{
    if m.len() == 0 {
        Seq::empty()
    } else {
        let rest = spoken_offering(m.drop_first(), p);
        if m[0].1.contains(p) {
            seq![m[0].0] + rest
        } else {
            rest
        }
    }
}

/// The requested language, or the default when none is requested.
pub open spec fn requested<T>(wanted: Option<T>, default: T) -> T {
    match wanted {
        Some(x) => x,
        None => default,
    }
}

/// The spoken language used among `keys`: the requested one if present, else the first.
pub open spec fn chosen_spoken(
    keys: Seq<spoken::Code>,
    wanted: Option<spoken::Code>,
    default: spoken::Code,
) -> Option<spoken::Code> {
    let s = requested(wanted, default);
    if keys.contains(s) {
        Some(s)
    } else if keys.len() > 0 {
        Some(keys[0])
    } else {
        None
    }
}

/// The programming language used among `langs`: the requested one if present, else the first.
pub open spec fn chosen_programming(
    langs: Seq<programming::Code>,
    wanted: Option<programming::Code>,
    default: programming::Code,
) -> programming::Code {
    let p = requested(wanted, default);
    if langs.contains(p) {
        p
    } else {
        langs[0]
    }
}

/// The abstract content of a workshop's data.
pub struct WorkshopDataView {
    pub name: Seq<char>,
    pub path: Seq<char>,
    pub defaults: Defaults,
    pub descriptions: Seq<spoken::Code>,
    pub setup_instructions: LanguageMap,
    pub metadata: Seq<spoken::Code>,
    pub lessons: LanguageMap,
}

/// The data of a workshop: its name, where it lives, its defaults, and which language
/// versions of its description, setup instructions, metadata and lessons it holds.
#[derive(Clone, Debug)]
pub struct WorkshopData {
    name: String,
    path: String,
    defaults: Defaults,
    descriptions: Vec<spoken::Code>,
    setup_instructions: Vec<LanguageEntry>,
    metadata: Vec<spoken::Code>,
    lessons: Vec<LanguageEntry>,
}

impl View for WorkshopData {
    type V = WorkshopDataView;

    closed spec fn view(&self) -> WorkshopDataView {
        WorkshopDataView {
            name: self.name@,
            path: self.path@,
            defaults: self.defaults,
            descriptions: self.descriptions@,
            setup_instructions: map_view(self.setup_instructions@),
            metadata: self.metadata@,
            lessons: map_view(self.lessons@),
        }
    }
}

/// The spoken languages of a map of entries.
fn entry_keys(m: &Vec<LanguageEntry>) -> (r: Vec<spoken::Code>)
    ensures
        r@ == keys(map_view(m@)),
{
    let mut r: Vec<spoken::Code> = Vec::new();
    let mut i: usize = 0;
    while i < m.len()
        invariant
            i <= m.len(),
            r@ == keys(map_view(m@)).take(i as int),
        decreases m.len() - i,
    {
        r.push(m[i].0);
        proof {
            assert(keys(map_view(m@)).take(i + 1) =~= keys(map_view(m@)).take(i as int).push(m@[i as int].0));
        }
        i = i + 1;
    }
    proof {
        assert(keys(map_view(m@)).take(m.len() as int) =~= keys(map_view(m@)));
    }
    r
}

/// The first position of `s` in `m`, if any.
fn find_key(m: &Vec<LanguageEntry>, s: spoken::Code) -> (r: Option<usize>)
    ensures
        match r {
            Some(i) => is_first_key(map_view(m@), s, i as int),
            None => !has_key(map_view(m@), s),
        },
{
    let mut i: usize = 0;
    while i < m.len()
        invariant
            i <= m.len(),
            forall|k: int| 0 <= k < i ==> map_view(m@)[k].0 != s,
        decreases m.len() - i,
    {
        if m[i].0 == s {
            return Some(i);
        }
        i = i + 1;
    }
    None
}

/// The programming languages of the first entry for `s`, or none.
fn entry_programming(m: &Vec<LanguageEntry>, s: spoken::Code) -> (r: Vec<programming::Code>)
    ensures
        r@ == programming_for(map_view(m@), s),
{
    match find_key(m, s) {
        Some(i) => {
            proof {
                let j = choose|j: int| is_first_key(map_view(m@), s, j);
                assert(is_first_key(map_view(m@), s, j));
                assert(j == i as int);
            }
            copy_vec(&m[i].1)
        },
        None => Vec::new(),
    }
}

/// The spoken language used among `keys`: the requested one if present, else the first.
fn choose_spoken(keys: &Vec<spoken::Code>, wanted: Option<spoken::Code>, default: spoken::Code) -> (r:
    Option<spoken::Code>)
    ensures
        r == chosen_spoken(keys@, wanted, default),
{
    let s = match wanted {
        Some(x) => x,
        None => default,
    };
    if spoken::contains_code(keys, s) {
        Some(s)
    } else if keys.len() > 0 {
        Some(keys[0])
    } else {
        None
    }
}

/// The programming language used among `langs`, which is not empty.
fn choose_programming(
    langs: &Vec<programming::Code>,
    wanted: Option<programming::Code>,
    default: programming::Code,
) -> (r: programming::Code)
    requires
        langs.len() > 0,
    ensures
        r == chosen_programming(langs@, wanted, default),
{
    let p = match wanted {
        Some(x) => x,
        None => default,
    };
    if programming::contains_code(langs, p) {
        p
    } else {
        langs[0]
    }
}

/// Which spoken language the description is shown in, or why it cannot be shown.
pub open spec fn description_language(
    w: WorkshopDataView,
    wanted: Option<spoken::Code>,
) -> Result<spoken::Code, ErrorView> {
    if w.descriptions.len() == 0 {
        Err(ErrorView::WorkshopNoDescriptions)
    } else {
        match chosen_spoken(keys(w.setup_instructions), wanted, w.defaults.spoken_language) {
            None => Err(
                ErrorView::WorkshopSpokenLanguageNotFound(
                    spoken::english_name(requested(wanted, w.defaults.spoken_language)),
                ),
            ),
            Some(s) => if w.descriptions.contains(s) {
                Ok(s)
            } else {
                Err(ErrorView::WorkshopSpokenLanguageNotFound(spoken::english_name(s)))
            },
        }
    }
}

/// Which language pair is used from a map of versions, or why none can be used.
pub open spec fn language_pair(
    m: LanguageMap,
    defaults: Defaults,
    spoken_wanted: Option<spoken::Code>,
    programming_wanted: Option<programming::Code>,
    empty_error: ErrorView,
) -> Result<(spoken::Code, programming::Code), ErrorView> {
    if m.len() == 0 {
        Err(empty_error)
    } else {
        let s = chosen_spoken(keys(m), spoken_wanted, defaults.spoken_language).unwrap();
        let langs = programming_for(m, s);
        if langs.len() == 0 {
            Err(ErrorView::WorkshopNoProgrammingLanguagesForSpokenLanguage(spoken::english_name(s)))
        } else {
            Ok((s, chosen_programming(langs, programming_wanted, defaults.programming_language)))
        }
    }
}

/// Which spoken language the metadata is read in, or why it cannot be read.
pub open spec fn metadata_language(w: WorkshopDataView, wanted: Option<spoken::Code>) -> Result<
    spoken::Code,
    ErrorView,
> {
    if w.metadata.len() == 0 {
        Err(ErrorView::WorkshopNoMetadata)
    } else {
        Ok(chosen_spoken(w.metadata, wanted, w.defaults.spoken_language).unwrap())
    }
}

/// Whether a workshop is offered in the given spoken and programming languages, where no
/// language matches any.
pub open spec fn selected_by(
    w: WorkshopDataView,
    spoken_language: Option<spoken::Code>,
    programming_language: Option<programming::Code>,
) -> bool {
    match spoken_language {
        Some(s) => keys(w.setup_instructions).contains(s) && match programming_language {
            Some(p) => programming_for(w.setup_instructions, s).contains(p),
            None => true,
        },
        None => match programming_language {
            Some(p) => offers_programming(w.setup_instructions, p),
            None => true,
        },
    }
}

/// The path, as components, of a file below a language version of a workshop.
pub open spec fn language_path(
    data_dir: Seq<char>,
    w: WorkshopDataView,
    s: Option<spoken::Code>,
    p: Option<programming::Code>,
) -> Seq<Seq<char>> {
    seq![
        data_dir,
        w.name,
        spoken::code_str(requested(s, w.defaults.spoken_language)),
        programming::code_str(requested(p, w.defaults.programming_language)),
    ]
}

impl WorkshopData {
    /// Build the data of a workshop from what was found on disk.
    pub fn new(
        name: String,
        path: String,
        defaults: Defaults,
        descriptions: Vec<spoken::Code>,
        setup_instructions: Vec<LanguageEntry>,
        metadata: Vec<spoken::Code>,
        lessons: Vec<LanguageEntry>,
    ) -> (r: WorkshopData)
        ensures
            r@ == (WorkshopDataView {
                name: name@,
                path: path@,
                defaults,
                descriptions: descriptions@,
                setup_instructions: map_view(setup_instructions@),
                metadata: metadata@,
                lessons: map_view(lessons@),
            }),
    {
        WorkshopData { name, path, defaults, descriptions, setup_instructions, metadata, lessons }
    }

    /// returns the workshop name
    pub fn get_name(&self) -> (r: &str)
        ensures
            r@ == self@.name,
    {
        self.name.as_str()
    }

    /// returns the path to the workshop root directory
    pub fn get_path(&self) -> (r: &str)
        ensures
            r@ == self@.path,
    {
        self.path.as_str()
    }

    /// returns the default languages for this workshop
    pub fn get_defaults(&self) -> (r: &Defaults)
        ensures
            *r == self@.defaults,
    {
        &self.defaults
    }

    /// returns the set of spoken languages the workshop is written in
    pub fn get_all_spoken_languages(&self) -> (r: Vec<spoken::Code>)
        ensures
            r@ == keys(self@.setup_instructions),
    {
        entry_keys(&self.setup_instructions)
    }

    /// returns the set of programming languages the workshop is offered in, in order and
    /// each once
    pub fn get_all_programming_languages(&self) -> (r: Vec<programming::Code>)
        ensures
            programming::strictly_sorted(r@),
            forall|p: programming::Code| r@.contains(p) <==> offers_programming(
                self@.setup_instructions,
                p,
            ),
    {
        let m = &self.setup_instructions;
        let mut all: Vec<programming::Code> = Vec::new();
        let mut i: usize = 0;
        while i < m.len()
            invariant
                i <= m.len(),
                m@ == self.setup_instructions@,
                forall|p: programming::Code| all@.contains(p) <==> exists|k: int| 0 <= k < i && m@[k].1@.contains(p),
            decreases m.len() - i,
        {
            let langs = &m[i].1;
            let ghost before = all@;
            let mut j: usize = 0;
            while j < langs.len()
                invariant
                    j <= langs.len(),
                    langs@ == m@[i as int].1@,
                    all@.len() == before.len() + j,
                    forall|k: int| 0 <= k < before.len() ==> all@[k] == before[k],
                    forall|k: int| 0 <= k < j ==> all@[before.len() + k] == langs@[k],
                decreases langs.len() - j,
            {
                all.push(langs[j]);
                j = j + 1;
            }
            proof {
                assert forall|p: programming::Code| all@.contains(p) <==> exists|k: int| 0 <= k < i + 1 && m@[k].1@.contains(p) by {
                    if all@.contains(p) {
                        let x = choose|x: int| 0 <= x < all@.len() && all@[x] == p;
                        if x < before.len() {
                            assert(before[x] == p);
                            assert(before.contains(p));
                            let k = choose|k: int| 0 <= k < i && m@[k].1@.contains(p);
                            assert(0 <= k < i + 1 && m@[k].1@.contains(p));
                        } else {
                            assert(langs@[x - before.len()] == p);
                            assert(m@[i as int].1@.contains(p));
                        }
                    }
                    if exists|k: int| 0 <= k < i + 1 && m@[k].1@.contains(p) {
                        let k = choose|k: int| 0 <= k < i + 1 && m@[k].1@.contains(p);
                        if k < i {
                            assert(before.contains(p));
                            let x = choose|x: int| 0 <= x < before.len() && before[x] == p;
                            assert(all@[x] == p);
                        } else {
                            let y = choose|y: int| 0 <= y < langs@.len() && langs@[y] == p;
                            assert(all@[before.len() + y] == p);
                        }
                    }
                }
            }
            i = i + 1;
        }
        proof {
            assert forall|p: programming::Code| all@.contains(p) <==> offers_programming(self@.setup_instructions, p) by {
                if all@.contains(p) {
                    let k = choose|k: int| 0 <= k < m@.len() && m@[k].1@.contains(p);
                    assert(map_view(m@)[k].1 == m@[k].1@);
                }
                if offers_programming(self@.setup_instructions, p) {
                    let k = choose|k: int| 0 <= k < map_view(m@).len() && map_view(m@)[k].1.contains(p);
                    assert(map_view(m@)[k].1 == m@[k].1@);
                }
            }
        }
        programming::sort_dedup(&all)
    }

    /// returns the mapping of spoken languages to programming languages
    pub fn get_languages(&self) -> (r: &Vec<LanguageEntry>)
        ensures
            map_view(r@) == self@.setup_instructions,
    {
        &self.setup_instructions
    }

    /// returns the set of programming languages given a spoken language
    pub fn get_programming_languages_for_spoken_language(&self, spoken_language: spoken::Code) -> (r:
        Vec<programming::Code>)
        ensures
            r@ == programming_for(self@.setup_instructions, spoken_language),
    {
        entry_programming(&self.setup_instructions, spoken_language)
    }

    /// returns the set of spoken languages given a programming language
    pub fn get_spoken_languages_for_programming_language(
        &self,
        programming_language: programming::Code,
    ) -> (r: Result<Vec<spoken::Code>, Error>)
        ensures
            r is Ok,
            r->Ok_0@ == spoken_offering(self@.setup_instructions, programming_language),
    {
        let m = &self.setup_instructions;
        let mut r: Vec<spoken::Code> = Vec::new();
        let mut i: usize = m.len();
        proof {
            assert(map_view(m@).skip(m.len() as int) =~= Seq::<(spoken::Code, Seq<programming::Code>)>::empty());
        }
        while i > 0
            invariant
                i <= m.len(),
                m@ == self.setup_instructions@,
                r@ == spoken_offering(map_view(m@).skip(i as int), programming_language),
            decreases i,
        {
            i = i - 1;
            proof {
                assert(map_view(m@).skip(i as int).drop_first() =~= map_view(m@).skip(i + 1));
            }
            if programming::contains_code(&m[i].1, programming_language) {
                r.insert(0, m[i].0);
                proof {
                    assert(r@ =~= seq![m@[i as int].0] + spoken_offering(
                        map_view(m@).skip(i + 1),
                        programming_language,
                    ));
                }
            }
        }
        proof {
            assert(map_view(m@).skip(0) =~= map_view(m@));
        }
        Ok(r)
    }

    /// test if this workshop is selected with the given spoken and programming language
    pub fn is_selected(
        &self,
        spoken_language: Option<spoken::Code>,
        programming_language: Option<programming::Code>,
    ) -> (r: bool)
        ensures
            r == selected_by(self@, spoken_language, programming_language),
    {
        if let Some(spoken) = spoken_language {
            if !spoken::contains_code(&self.get_all_spoken_languages(), spoken) {
                return false;
            }
            if let Some(programming) = programming_language {
                if !programming::contains_code(
                    &self.get_programming_languages_for_spoken_language(spoken),
                    programming,
                ) {
                    return false;
                }
            }
        } else {
            if let Some(programming) = programming_language {
                if !programming::contains_code(&self.get_all_programming_languages(), programming) {
                    return false;
                }
            }
        }
        true
    }

    /// Which spoken language the description is shown in, for the requested spoken language.
    pub fn get_description_language(&self, spoken_language: Option<spoken::Code>) -> (r: Result<
        spoken::Code,
        Error,
    >)
        ensures
            result_view(r) == description_language(self@, spoken_language),
    {
        if self.descriptions.len() == 0 {
            return Err(Error::WorkshopNoDescriptions);
        }
        let keys = entry_keys(&self.setup_instructions);
        match choose_spoken(&keys, spoken_language, self.defaults.spoken_language) {
            None => {
                let s = match spoken_language {
                    Some(x) => x,
                    None => self.defaults.spoken_language,
                };
                Err(Error::WorkshopSpokenLanguageNotFound(owned(s.get_name_in_english())))
            },
            Some(s) => {
                if spoken::contains_code(&self.descriptions, s) {
                    Ok(s)
                } else {
                    Err(Error::WorkshopSpokenLanguageNotFound(owned(s.get_name_in_english())))
                }
            },
        }
    }

    /// Which language pair the setup instructions are shown in, for the requested languages.
    pub fn get_setup_instructions_languages(
        &self,
        spoken_language: Option<spoken::Code>,
        programming_language: Option<programming::Code>,
    ) -> (r: Result<(spoken::Code, programming::Code), Error>)
        ensures
            result_view(r) == language_pair(
                self@.setup_instructions,
                self@.defaults,
                spoken_language,
                programming_language,
                ErrorView::WorkshopNoSetupInstructions,
            ),
    {
        pair_of(
            &self.setup_instructions,
            self.defaults,
            spoken_language,
            programming_language,
            Error::WorkshopNoSetupInstructions,
        )
    }

    /// Which language pair the lessons are taken from, for the requested languages.
    pub fn get_lessons_languages(
        &self,
        spoken_language: Option<spoken::Code>,
        programming_language: Option<programming::Code>,
    ) -> (r: Result<(spoken::Code, programming::Code), Error>)
        ensures
            result_view(r) == language_pair(
                self@.lessons,
                self@.defaults,
                spoken_language,
                programming_language,
                ErrorView::WorkshopNoLessonsData,
            ),
    {
        pair_of(
            &self.lessons,
            self.defaults,
            spoken_language,
            programming_language,
            Error::WorkshopNoLessonsData,
        )
    }

    /// Which spoken language the metadata is read in, for the requested spoken language.
    pub fn get_metadata_language(&self, spoken_language: Option<spoken::Code>) -> (r: Result<
        spoken::Code,
        Error,
    >)
        ensures
            result_view(r) == metadata_language(self@, spoken_language),
    {
        if self.metadata.len() == 0 {
            return Err(Error::WorkshopNoMetadata);
        }
        match choose_spoken(&self.metadata, spoken_language, self.defaults.spoken_language) {
            Some(s) => Ok(s),
            None => Err(Error::WorkshopNoMetadata),
        }
    }

    /// The path, as components, of the dependency check script, given the directory that holds
    /// the project's workshops.
    pub fn get_deps_script_path(
        &self,
        data_dir: Option<&str>,
        status_spoken: Option<spoken::Code>,
        status_programming: Option<programming::Code>,
    ) -> (r: Result<Vec<String>, Error>)
        ensures
            match data_dir {
                None => result_view(r) == Err::<Vec<String>, ErrorView>(
                    ErrorView::WorkshopDataDirNotFound,
                ),
                Some(d) => r is Ok && strings_view(r->Ok_0@) == language_path(
                    d@,
                    self@,
                    status_spoken,
                    status_programming,
                ).push("deps.py"@),
            },
    {
        let mut parts = self.language_parts(data_dir, status_spoken, status_programming)?;
        parts.push(owned("deps.py"));
        proof {
            assert(strings_view(parts@) =~= language_path(data_dir.unwrap()@, self@, status_spoken, status_programming).push("deps.py"@));
        }
        Ok(parts)
    }

    /// The path, as components, of a lesson's check script.
    pub fn get_check_script_path(
        &self,
        data_dir: Option<&str>,
        lesson_name: &str,
        status_spoken: Option<spoken::Code>,
        status_programming: Option<programming::Code>,
    ) -> (r: Result<Vec<String>, Error>)
        ensures
            match data_dir {
                None => result_view(r) == Err::<Vec<String>, ErrorView>(
                    ErrorView::WorkshopDataDirNotFound,
                ),
                Some(d) => r is Ok && strings_view(r->Ok_0@) == language_path(
                    d@,
                    self@,
                    status_spoken,
                    status_programming,
                ).push(lesson_name@).push("check.py"@),
            },
    {
        let mut parts = self.language_parts(data_dir, status_spoken, status_programming)?;
        parts.push(owned(lesson_name));
        parts.push(owned("check.py"));
        proof {
            assert(strings_view(parts@) =~= language_path(data_dir.unwrap()@, self@, status_spoken, status_programming).push(lesson_name@).push("check.py"@));
        }
        Ok(parts)
    }

    /// The path, as components, of a lesson's directory.
    pub fn get_lesson_dir_path(
        &self,
        data_dir: Option<&str>,
        lesson_name: &str,
        status_spoken: Option<spoken::Code>,
        status_programming: Option<programming::Code>,
    ) -> (r: Result<Vec<String>, Error>)
        ensures
            match data_dir {
                None => result_view(r) == Err::<Vec<String>, ErrorView>(
                    ErrorView::WorkshopDataDirNotFound,
                ),
                Some(d) => r is Ok && strings_view(r->Ok_0@) == language_path(
                    d@,
                    self@,
                    status_spoken,
                    status_programming,
                ).push(lesson_name@),
            },
    {
        let mut parts = self.language_parts(data_dir, status_spoken, status_programming)?;
        parts.push(owned(lesson_name));
        proof {
            assert(strings_view(parts@) =~= language_path(data_dir.unwrap()@, self@, status_spoken, status_programming).push(lesson_name@));
        }
        Ok(parts)
    }

    /// The first four path components of a language version of this workshop.
    fn language_parts(
        &self,
        data_dir: Option<&str>,
        status_spoken: Option<spoken::Code>,
        status_programming: Option<programming::Code>,
    ) -> (r: Result<Vec<String>, Error>)
        ensures
            match data_dir {
                None => result_view(r) == Err::<Vec<String>, ErrorView>(
                    ErrorView::WorkshopDataDirNotFound,
                ),
                Some(d) => r is Ok && strings_view(r->Ok_0@) == language_path(
                    d@,
                    self@,
                    status_spoken,
                    status_programming,
                ),
            },
    {
        let d = match data_dir {
            Some(d) => d,
            None => return Err(Error::WorkshopDataDirNotFound),
        };
        let spoken = match status_spoken {
            Some(s) => s,
            None => self.defaults.spoken_language,
        };
        let programming = match status_programming {
            Some(p) => p,
            None => self.defaults.programming_language,
        };
        let mut parts: Vec<String> = Vec::new();
        parts.push(owned(d));
        parts.push(self.name.clone());
        parts.push(owned(spoken.as_str()));
        parts.push(owned(programming.as_str()));
        proof {
            assert(strings_view(parts@) =~= language_path(d@, self@, status_spoken, status_programming));
        }
        Ok(parts)
    }
}

/// The language pair used from a map of versions.
fn pair_of(
    m: &Vec<LanguageEntry>,
    defaults: Defaults,
    spoken_wanted: Option<spoken::Code>,
    programming_wanted: Option<programming::Code>,
    empty_error: Error,
) -> (r: Result<(spoken::Code, programming::Code), Error>)
    ensures
        result_view(r) == language_pair(
            map_view(m@),
            defaults,
            spoken_wanted,
            programming_wanted,
            empty_error@,
        ),
{
    if m.len() == 0 {
        return Err(empty_error);
    }
    let keys = entry_keys(m);
    let s = match choose_spoken(&keys, spoken_wanted, defaults.spoken_language) {
        Some(s) => s,
        None => {
            return Err(empty_error);
        },
    };
    let langs = entry_programming(m, s);
    if langs.len() == 0 {
        return Err(Error::WorkshopNoProgrammingLanguagesForSpokenLanguage(owned(s.get_name_in_english())));
    }
    let p = choose_programming(&langs, programming_wanted, defaults.programming_language);
    Ok((s, p))
}

/// Where a spoken language has an entry, it has a first one.
proof fn lemma_first_key_exists(m: LanguageMap, s: spoken::Code, j: int)
    requires
        0 <= j < m.len(),
        m[j].0 == s,
    ensures
        exists|i: int| is_first_key(m, s, i),
    decreases j,
{
    if exists|k: int| 0 <= k < j && m[k].0 == s {
        let k = choose|k: int| 0 <= k < j && m[k].0 == s;
        lemma_first_key_exists(m, s, k);
    } else {
        assert(is_first_key(m, s, j));
    }
}

/// A workshop chosen for a spoken language `s` and a programming language `p` is one whose
/// version in `s` itself offers `p`: the first entry for `s` lists `p`. Another spoken
/// version offering `p` does not count.
pub proof fn lemma_selected_by_entry_of_spoken(
    w: WorkshopDataView,
    s: spoken::Code,
    p: programming::Code,
)
    ensures
        selected_by(w, Some(s), Some(p)) <==> exists|i: int|
            #[trigger] is_first_key(w.setup_instructions, s, i) && w.setup_instructions[i].1.contains(p),
        selected_by(w, Some(s), Some(p)) ==> programming_for(w.setup_instructions, s).contains(p),
{
    let m = w.setup_instructions;
    if selected_by(w, Some(s), Some(p)) {
        let j = choose|j: int| 0 <= j < keys(m).len() && keys(m)[j] == s;
        assert(m[j].0 == s);
        assert(has_key(m, s));
        lemma_first_key_exists(m, s, j);
        let i = choose|i: int| is_first_key(m, s, i);
        lemma_programming_for_first(m, s, i);
        assert(is_first_key(m, s, i) && m[i].1.contains(p));
    }
    if exists|i: int| #[trigger] is_first_key(m, s, i) && m[i].1.contains(p) {
        let i = choose|i: int| #[trigger] is_first_key(m, s, i) && m[i].1.contains(p);
        lemma_programming_for_first(m, s, i);
        assert(keys(m)[i] == s);
        assert(keys(m).contains(s));
    }
}

/// With only a spoken language chosen, a workshop is chosen when it has a version in it;
/// with only a programming language, when some version offers it; with neither, always.
pub proof fn lemma_selected_by_one_language(
    w: WorkshopDataView,
    s: spoken::Code,
    p: programming::Code,
)
    ensures
        selected_by(w, Some(s), None) <==> exists|i: int|
            0 <= i < w.setup_instructions.len() && #[trigger] w.setup_instructions[i].0 == s,
        selected_by(w, None, Some(p)) <==> exists|i: int|
            0 <= i < w.setup_instructions.len() && #[trigger] w.setup_instructions[i].1.contains(p),
        selected_by(w, None, None),
        selected_by(w, Some(s), Some(p)) ==> selected_by(w, Some(s), None) && selected_by(w, None, Some(p)),
{
    let m = w.setup_instructions;
    if selected_by(w, Some(s), None) {
        let j = choose|j: int| 0 <= j < keys(m).len() && keys(m)[j] == s;
        assert(m[j].0 == s);
    }
    if exists|i: int| 0 <= i < m.len() && #[trigger] m[i].0 == s {
        let i = choose|i: int| 0 <= i < m.len() && #[trigger] m[i].0 == s;
        assert(keys(m)[i] == s);
    }
    if selected_by(w, Some(s), Some(p)) {
        lemma_selected_by_entry_of_spoken(w, s, p);
        let i = choose|i: int| #[trigger] is_first_key(m, s, i) && m[i].1.contains(p);
        assert(0 <= i < m.len() && m[i].1.contains(p));
    }
}

/// The language pair taken from a map of versions: a spoken language that has a version,
/// and a programming language that this very version offers. The requested spoken language
/// is taken whenever it has a version, and the requested programming language whenever the
/// chosen version offers it; a request left open stands for the default.
pub proof fn lemma_language_pair_prefers_requested(
    m: LanguageMap,
    d: Defaults,
    spoken_wanted: Option<spoken::Code>,
    programming_wanted: Option<programming::Code>,
    empty_error: ErrorView,
)
    ensures
        m.len() == 0 ==> language_pair(m, d, spoken_wanted, programming_wanted, empty_error) == Err::<
            (spoken::Code, programming::Code),
            ErrorView,
        >(empty_error),
        match language_pair(m, d, spoken_wanted, programming_wanted, empty_error) {
            Ok((s, p)) => {
                &&& keys(m).contains(s)
                &&& programming_for(m, s).contains(p)
                &&& keys(m).contains(requested(spoken_wanted, d.spoken_language)) ==> s == requested(
                    spoken_wanted,
                    d.spoken_language,
                )
                &&& !keys(m).contains(requested(spoken_wanted, d.spoken_language)) ==> s == m[0].0
                &&& programming_for(m, s).contains(requested(programming_wanted, d.programming_language))
                    ==> p == requested(programming_wanted, d.programming_language)
            },
            Err(_) => true,
        },
{
    if m.len() > 0 {
        assert(keys(m)[0] == m[0].0);
        let s = chosen_spoken(keys(m), spoken_wanted, d.spoken_language).unwrap();
        assert(keys(m).contains(s));
        let langs = programming_for(m, s);
        if langs.len() > 0 {
            let p = chosen_programming(langs, programming_wanted, d.programming_language);
            assert(langs[0] == langs[0]);
            assert(langs.contains(p));
        }
    }
}

/// When the requested spoken language has a version offering the requested programming
/// language, that pair is the one used.
pub proof fn lemma_language_pair_requested_offered(
    m: LanguageMap,
    d: Defaults,
    s: spoken::Code,
    p: programming::Code,
    empty_error: ErrorView,
)
    requires
        keys(m).contains(s),
        programming_for(m, s).contains(p),
    ensures
        language_pair(m, d, Some(s), Some(p), empty_error) == Ok::<
            (spoken::Code, programming::Code),
            ErrorView,
        >((s, p)),
        s == d.spoken_language ==> language_pair(m, d, None, Some(p), empty_error) == Ok::<
            (spoken::Code, programming::Code),
            ErrorView,
        >((s, p)),
        p == d.programming_language ==> language_pair(m, d, Some(s), None, empty_error) == Ok::<
            (spoken::Code, programming::Code),
            ErrorView,
        >((s, p)),
{
    assert(m.len() > 0);
    assert(programming_for(m, s).len() > 0);
}

/// A language version's path: the data directory, the workshop's name, then the code of the
/// given spoken language and of the given programming language, each replaced by the
/// workshop's default only where none is given.
pub proof fn lemma_language_path_parts(
    data_dir: Seq<char>,
    w: WorkshopDataView,
    s: Option<spoken::Code>,
    p: Option<programming::Code>,
)
    ensures
        language_path(data_dir, w, s, p).len() == 4,
        language_path(data_dir, w, s, p)[0] == data_dir,
        language_path(data_dir, w, s, p)[1] == w.name,
        s matches Some(c) ==> language_path(data_dir, w, s, p)[2] == spoken::code_str(c),
        s is None ==> language_path(data_dir, w, s, p)[2] == spoken::code_str(w.defaults.spoken_language),
        p matches Some(c) ==> language_path(data_dir, w, s, p)[3] == programming::code_str(c),
        p is None ==> language_path(data_dir, w, s, p)[3] == programming::code_str(
            w.defaults.programming_language,
        ),
{
}

/// Some name is the spoken language `c`, by code or name.
pub open spec fn names_spoken(names: Seq<Seq<char>>, c: spoken::Code) -> bool {
    exists|i: int| 0 <= i < names.len() && #[trigger] spoken::parse_code(names[i]) == Some(c)
}

/// Some name is the programming language `p`, by code or name.
pub open spec fn names_programming(names: Seq<Seq<char>>, p: programming::Code) -> bool {
    exists|i: int| 0 <= i < names.len() && #[trigger] programming::parse_code(names[i]) == Some(p)
}

/// Some entry that could be read is the programming language `p`.
pub open spec fn readable_programming(entries: Seq<(Seq<char>, bool)>, p: programming::Code) -> bool {
    exists|i: int|
        0 <= i < entries.len() && entries[i].1 && #[trigger] programming::parse_code(entries[i].0)
            == Some(p)
}

/// The spoken languages among directory names, in order and each once.
pub fn spoken_codes_in(names: &Vec<String>) -> (r: Vec<spoken::Code>)
    ensures
        spoken::strictly_sorted(r@),
        forall|c: spoken::Code| r@.contains(c) <==> names_spoken(strings_view(names@), c),
{
    let ghost ns = strings_view(names@);
    let mut found: Vec<spoken::Code> = Vec::new();
    let mut i: usize = 0;
    while i < names.len()
        invariant
            i <= names.len(),
            ns == strings_view(names@),
            forall|c: spoken::Code| found@.contains(c) <==> exists|j: int|
                0 <= j < i && #[trigger] spoken::parse_code(ns[j]) == Some(c),
        decreases names.len() - i,
    {
        proof {
            assert(ns[i as int] == names@[i as int]@);
        }
        match spoken::Code::try_from(names[i].as_str()) {
            Ok(c) => {
                let ghost before = found@;
                found.push(c);
                proof {
                    assert forall|d: spoken::Code| found@.contains(d) <==> exists|j: int|
                        0 <= j < i + 1 && #[trigger] spoken::parse_code(ns[j]) == Some(d) by {
                        if found@.contains(d) {
                            let k = choose|k: int| 0 <= k < found@.len() && found@[k] == d;
                            if k < before.len() {
                                assert(before[k] == d);
                                assert(before.contains(d));
                            }
                        }
                        if exists|j: int| 0 <= j < i + 1 && #[trigger] spoken::parse_code(ns[j]) == Some(d) {
                            let j = choose|j: int|
                                0 <= j < i + 1 && #[trigger] spoken::parse_code(ns[j]) == Some(d);
                            if j < i {
                                assert(before.contains(d));
                                let k = choose|k: int| 0 <= k < before.len() && before[k] == d;
                                assert(found@[k] == d);
                            } else {
                                assert(found@[before.len() as int] == d);
                            }
                        }
                    }
                }
            },
            Err(_) => {},
        }
        i = i + 1;
    }
    spoken::sort_dedup(&found)
}

/// The programming languages among directory names, in order and each once.
pub fn programming_codes_in(names: &Vec<String>) -> (r: Vec<programming::Code>)
    ensures
        programming::strictly_sorted(r@),
        forall|p: programming::Code| r@.contains(p) <==> names_programming(strings_view(names@), p),
{
    let ghost ns = strings_view(names@);
    let mut found: Vec<programming::Code> = Vec::new();
    let mut i: usize = 0;
    while i < names.len()
        invariant
            i <= names.len(),
            ns == strings_view(names@),
            forall|c: programming::Code| found@.contains(c) <==> exists|j: int|
                0 <= j < i && #[trigger] programming::parse_code(ns[j]) == Some(c),
        decreases names.len() - i,
    {
        proof {
            assert(ns[i as int] == names@[i as int]@);
        }
        match programming::Code::try_from(names[i].as_str()) {
            Ok(c) => {
                let ghost before = found@;
                found.push(c);
                proof {
                    assert forall|d: programming::Code| found@.contains(d) <==> exists|j: int|
                        0 <= j < i + 1 && #[trigger] programming::parse_code(ns[j]) == Some(d) by {
                        if found@.contains(d) {
                            let k = choose|k: int| 0 <= k < found@.len() && found@[k] == d;
                            if k < before.len() {
                                assert(before[k] == d);
                                assert(before.contains(d));
                            }
                        }
                        if exists|j: int|
                            0 <= j < i + 1 && #[trigger] programming::parse_code(ns[j]) == Some(d) {
                            let j = choose|j: int|
                                0 <= j < i + 1 && #[trigger] programming::parse_code(ns[j]) == Some(d);
                            if j < i {
                                assert(before.contains(d));
                                let k = choose|k: int| 0 <= k < before.len() && before[k] == d;
                                assert(found@[k] == d);
                            } else {
                                assert(found@[before.len() as int] == d);
                            }
                        }
                    }
                }
            },
            Err(_) => {},
        }
        i = i + 1;
    }
    programming::sort_dedup(&found)
}

/// The names of the entries that could be read.
fn readable_names(entries: &Vec<(String, bool)>) -> (r: Vec<String>)
    ensures
        forall|p: programming::Code| names_programming(strings_view(r@), p) <==> readable_programming(
            entries_view(entries@),
            p,
        ),
{
    let ghost es = entries_view(entries@);
    let mut r: Vec<String> = Vec::new();
    let mut i: usize = 0;
    while i < entries.len()
        invariant
            i <= entries.len(),
            es == entries_view(entries@),
            forall|p: programming::Code| names_programming(strings_view(r@), p) <==> exists|j: int|
                0 <= j < i && es[j].1 && #[trigger] programming::parse_code(es[j].0) == Some(p),
        decreases entries.len() - i,
    {
        if entries[i].1 {
            let ghost before = strings_view(r@);
            r.push(owned(entries[i].0.as_str()));
            proof {
                let ns = strings_view(r@);
                assert(ns =~= before.push(es[i as int].0));
                assert forall|p: programming::Code| names_programming(ns, p) <==> exists|j: int|
                    0 <= j < i + 1 && es[j].1 && #[trigger] programming::parse_code(es[j].0) == Some(p) by {
                    if names_programming(ns, p) {
                        let k = choose|k: int| 0 <= k < ns.len() && #[trigger] programming::parse_code(ns[k]) == Some(p);
                        if k < before.len() {
                            assert(programming::parse_code(before[k]) == Some(p));
                            assert(names_programming(before, p));
                        }
                    }
                    if exists|j: int| 0 <= j < i + 1 && es[j].1 && #[trigger] programming::parse_code(es[j].0) == Some(p) {
                        let j = choose|j: int|
                            0 <= j < i + 1 && es[j].1 && #[trigger] programming::parse_code(es[j].0) == Some(p);
                        if j < i {
                            assert(names_programming(before, p));
                            let k = choose|k: int| 0 <= k < before.len() && #[trigger] programming::parse_code(before[k]) == Some(p);
                            assert(programming::parse_code(ns[k]) == Some(p));
                        } else {
                            assert(programming::parse_code(ns[before.len() as int]) == Some(p));
                        }
                    }
                }
            }
        }
        i = i + 1;
    }
    r
}

/// Directory entries, each with whether it could be read, by value.
pub open spec fn entries_view(v: Seq<(String, bool)>) -> Seq<(Seq<char>, bool)> {
    Seq::new(v.len(), |i: int| (v[i].0@, v[i].1))
}

/// What a workshop's data is loaded from: its name, and the directory holding it.
pub struct Loader {
    name: String,
    path: Option<String>,
}

/// A loader by value.
pub struct LoaderView {
    pub name: Seq<char>,
    pub path: Option<Seq<char>>,
}

impl View for Loader {
    type V = LoaderView;

    closed spec fn view(&self) -> LoaderView {
        LoaderView {
            name: self.name@,
            path: match self.path {
                Some(p) => Some(p@),
                None => None,
            },
        }
    }
}

/// What reading the top of a workshop's directory gives: its directory must be known and the
/// workshop there, with its defaults, and the directory readable; then its spoken languages.
pub open spec fn top_result(
    l: LoaderView,
    exists: bool,
    has_defaults: bool,
    entries: Option<Seq<Seq<char>>>,
) -> Result<(), ErrorView> {
    if l.path is None {
        Err(ErrorView::WorkshopDataDirNotFound)
    } else if !exists {
        Err(ErrorView::WorkshopNotFound(l.name))
    } else if !has_defaults {
        Err(ErrorView::WorkshopDefaultsNotFound(l.name))
    } else if entries is None {
        Err(ErrorView::WorkshopDataDirNotFound)
    } else {
        Ok(())
    }
}

/// The directory of the `i`-th spoken language could not be read.
pub open spec fn unreadable(dirs: Seq<Option<Seq<(Seq<char>, bool)>>>, i: int) -> bool {
    i >= dirs.len() || dirs[i] is None
}

/// The first spoken language whose directory could not be read, if any.
pub open spec fn first_unreadable(
    spoken: Seq<spoken::Code>,
    dirs: Seq<Option<Seq<(Seq<char>, bool)>>>,
) -> Option<int> {
    if exists|i: int| 0 <= i < spoken.len() && #[trigger] unreadable(dirs, i) {
        Some(
            choose|i: int|
                0 <= i < spoken.len() && #[trigger] unreadable(dirs, i) && forall|j: int|
                    0 <= j < i ==> !unreadable(dirs, j),
        )
    } else {
        None
    }
}

/// Optional directory listings by value.
pub open spec fn dirs_view(v: Seq<Option<Vec<(String, bool)>>>) -> Seq<Option<Seq<(Seq<char>, bool)>>> {
    Seq::new(
        v.len(),
        |i: int|
            match v[i] {
                Some(e) => Some(entries_view(e@)),
                None => None,
            },
    )
}

impl Loader {
    /// A loader for the workshop with a name.
    pub fn new(name: &str) -> (r: Self)
        ensures
            r@ == (LoaderView { name: name@, path: None }),
    {
        Loader { name: owned(name), path: None }
    }

    /// The loader with the directory that holds the workshop.
    pub fn path(self, path: &str) -> (r: Self)
        ensures
            r@ == (LoaderView { path: Some(path@), ..self@ }),
    {
        Loader { path: Some(owned(path)), ..self }
    }

    /// The spoken languages of the workshop, from whether it exists and has its defaults, and
    /// the names in its directory as read (`None` when it could not be read).
    pub fn spoken_languages(
        &self,
        exists: bool,
        has_defaults: bool,
        entries: Option<&Vec<String>>,
    ) -> (r: Result<Vec<spoken::Code>, Error>)
        ensures
            match r {
                Ok(langs) => top_result(
                    self@,
                    exists,
                    has_defaults,
                    match entries {
                        Some(e) => Some(strings_view(e@)),
                        None => None,
                    },
                ) is Ok && spoken::strictly_sorted(langs@) && forall|c: spoken::Code|
                    langs@.contains(c) <==> names_spoken(strings_view(entries->Some_0@), c),
                Err(e) => top_result(
                    self@,
                    exists,
                    has_defaults,
                    match entries {
                        Some(e) => Some(strings_view(e@)),
                        None => None,
                    },
                ) == Err::<(), ErrorView>(e@),
            },
    {
        if self.path.is_none() {
            return Err(Error::WorkshopDataDirNotFound);
        }
        if !exists {
            return Err(Error::WorkshopNotFound(self.name.clone()));
        }
        if !has_defaults {
            return Err(Error::WorkshopDefaultsNotFound(self.name.clone()));
        }
        match entries {
            None => Err(Error::WorkshopDataDirNotFound),
            Some(e) => Ok(spoken_codes_in(e)),
        }
    }
}

/// The names of directory entries.
pub open spec fn entry_names(es: Seq<(Seq<char>, bool)>) -> Seq<Seq<char>> {
    Seq::new(es.len(), |j: int| es[j].0)
}

/// Why loading a workshop fails once its spoken languages are known, if it does: the first
/// spoken language directory that could not be read, then a missing license.
pub open spec fn load_error(
    l: LoaderView,
    spoken: Seq<spoken::Code>,
    dirs: Seq<Option<Seq<(Seq<char>, bool)>>>,
    license: bool,
) -> Option<ErrorView> {
    if l.path is None {
        Some(ErrorView::WorkshopDataDirNotFound)
    } else {
        match first_unreadable(spoken, dirs) {
            Some(i) => Some(ErrorView::WorkshopDataSpokenDirNotFound(spoken::english_name(spoken[i]))),
            None => if license {
                None
            } else {
                Some(ErrorView::WorkshopLicenseNotFound(l.name))
            },
        }
    }
}

/// The names of the entries of a directory.
fn names_of_entries(entries: &Vec<(String, bool)>) -> (r: Vec<String>)
    ensures
        strings_view(r@) == entry_names(entries_view(entries@)),
{
    let mut r: Vec<String> = Vec::new();
    let mut i: usize = 0;
    while i < entries.len()
        invariant
            i <= entries.len(),
            strings_view(r@) == entry_names(entries_view(entries@)).take(i as int),
        decreases entries.len() - i,
    {
        let ghost before = r@;
        r.push(owned(entries[i].0.as_str()));
        proof {
            assert(strings_view(r@) =~= strings_view(before).push(entries@[i as int].0@));
            assert(entry_names(entries_view(entries@)).take(i + 1) =~= entry_names(
                entries_view(entries@),
            ).take(i as int).push(entries@[i as int].0@));
        }
        i = i + 1;
    }
    proof {
        assert(entry_names(entries_view(entries@)).take(entries.len() as int) =~= entry_names(
            entries_view(entries@),
        ));
    }
    r
}

impl Loader {
    /// Loads the workshop's data, given its defaults, its spoken languages, the entries of the
    /// directory of each (in the same order; `None` when it could not be read), each with
    /// whether it could be read in turn, and whether the workshop has a license. The setup
    /// instructions of a spoken language are in each programming language named there; its
    /// lessons in each of those that could be read.
    pub fn try_load(
        &self,
        defaults: Defaults,
        spoken: &Vec<spoken::Code>,
        dirs: &Vec<Option<Vec<(String, bool)>>>,
        license: bool,
    ) -> (r: Result<WorkshopData, Error>)
        ensures
            match r {
                Ok(w) => {
                    let ds = dirs_view(dirs@);
                    &&& load_error(self@, spoken@, ds, license) is None
                    &&& w@.name == self@.name
                    &&& self@.path is Some
                    &&& w@.path == path_join(self@.path->Some_0, self@.name)
                    &&& keys(w@.setup_instructions) == spoken@
                    &&& forall|i: int|
                        0 <= i < spoken.len() && (forall|j: int| 0 <= j < i ==> spoken@[j] != spoken@[i])
                            ==> programming_for(w@.setup_instructions, #[trigger] spoken@[i])
                            == w@.setup_instructions[i].1
                    &&& w@.defaults == defaults
                    &&& w@.descriptions == spoken@
                    &&& w@.metadata == spoken@
                    &&& w@.setup_instructions.len() == spoken.len()
                    &&& w@.lessons.len() == spoken.len()
                    &&& forall|i: int|
                        0 <= i < spoken.len() ==> {
                            &&& (#[trigger] w@.setup_instructions[i]).0 == spoken@[i]
                            &&& programming::strictly_sorted(w@.setup_instructions[i].1)
                            &&& forall|p: programming::Code|
                                w@.setup_instructions[i].1.contains(p) <==> names_programming(
                                    entry_names(ds[i]->Some_0),
                                    p,
                                )
                        }
                    &&& forall|i: int|
                        0 <= i < spoken.len() ==> {
                            &&& (#[trigger] w@.lessons[i]).0 == spoken@[i]
                            &&& programming::strictly_sorted(w@.lessons[i].1)
                            &&& forall|p: programming::Code|
                                w@.lessons[i].1.contains(p) <==> readable_programming(ds[i]->Some_0, p)
                        }
                },
                Err(e) => load_error(self@, spoken@, dirs_view(dirs@), license) == Some(e@),
            },
    {
        let ghost ds = dirs_view(dirs@);
        let path = match &self.path {
            Some(p) => join_path(p.as_str(), self.name.as_str()),
            None => return Err(Error::WorkshopDataDirNotFound),
        };
        let mut setup: Vec<LanguageEntry> = Vec::new();
        let mut lessons: Vec<LanguageEntry> = Vec::new();
        let mut i: usize = 0;
        while i < spoken.len()
            invariant
                i <= spoken.len(),
                ds == dirs_view(dirs@),
                self@.path is Some,
                path@ == path_join(self@.path->Some_0, self@.name),
                forall|j: int| 0 <= j < i ==> !#[trigger] unreadable(ds, j),
                setup@.len() == i,
                lessons@.len() == i,
                forall|j: int|
                    0 <= j < i ==> {
                        &&& (#[trigger] map_view(setup@)[j]).0 == spoken@[j]
                        &&& programming::strictly_sorted(map_view(setup@)[j].1)
                        &&& forall|p: programming::Code|
                            map_view(setup@)[j].1.contains(p) <==> names_programming(
                                entry_names(ds[j]->Some_0),
                                p,
                            )
                    },
                forall|j: int|
                    0 <= j < i ==> {
                        &&& (#[trigger] map_view(lessons@)[j]).0 == spoken@[j]
                        &&& programming::strictly_sorted(map_view(lessons@)[j].1)
                        &&& forall|p: programming::Code|
                            map_view(lessons@)[j].1.contains(p) <==> readable_programming(
                                ds[j]->Some_0,
                                p,
                            )
                    },
            decreases spoken.len() - i,
        {
            let listing = if i < dirs.len() {
                match &dirs[i] {
                    Some(e) => Some(e),
                    None => None,
                }
            } else {
                None
            };
            match listing {
                None => {
                    proof {
                        assert(unreadable(ds, i as int));
                        let fu = first_unreadable(spoken@, ds);
                        let k = fu->Some_0;
                        assert(0 <= k < spoken.len() && unreadable(ds, k) && forall|j: int|
                            0 <= j < k ==> !unreadable(ds, j));
                        if k < i {
                            assert(!unreadable(ds, k));
                        }
                        if k > i {
                            assert(!unreadable(ds, i as int));
                        }
                    }
                    return Err(
                        Error::WorkshopDataSpokenDirNotFound(
                            owned(spoken[i].get_name_in_english()),
                        ),
                    );
                },
                Some(entries) => {
                    proof {
                        assert(ds[i as int] == Some(entries_view(entries@)));
                        assert(!unreadable(ds, i as int));
                    }
                    let names = names_of_entries(entries);
                    let ps = programming_codes_in(&names);
                    let readable = readable_names(entries);
                    let ls = programming_codes_in(&readable);
                    let ghost setup0 = setup@;
                    let ghost lessons0 = lessons@;
                    setup.push((spoken[i], ps));
                    lessons.push((spoken[i], ls));
                    proof {
                        assert forall|j: int| 0 <= j < i + 1 implies {
                            &&& (#[trigger] map_view(setup@)[j]).0 == spoken@[j]
                            &&& programming::strictly_sorted(map_view(setup@)[j].1)
                            &&& forall|p: programming::Code|
                                map_view(setup@)[j].1.contains(p) <==> names_programming(
                                    entry_names(ds[j]->Some_0),
                                    p,
                                )
                        } by {
                            if j < i {
                                assert(map_view(setup@)[j] == map_view(setup0)[j]);
                            }
                        }
                        assert forall|j: int| 0 <= j < i + 1 implies {
                            &&& (#[trigger] map_view(lessons@)[j]).0 == spoken@[j]
                            &&& programming::strictly_sorted(map_view(lessons@)[j].1)
                            &&& forall|p: programming::Code|
                                map_view(lessons@)[j].1.contains(p) <==> readable_programming(
                                    ds[j]->Some_0,
                                    p,
                                )
                        } by {
                            if j < i {
                                assert(map_view(lessons@)[j] == map_view(lessons0)[j]);
                            }
                        }
                    }
                },
            }
            i = i + 1;
        }
        proof {
            assert(!(exists|k: int| 0 <= k < spoken.len() && #[trigger] unreadable(ds, k)));
        }
        if !license {
            return Err(Error::WorkshopLicenseNotFound(self.name.clone()));
        }
        proof {
            assert(keys(map_view(setup@)) =~= spoken@);
            assert forall|i: int|
                0 <= i < spoken.len() && (forall|j: int| 0 <= j < i ==> spoken@[j] != spoken@[i])
                    implies programming_for(map_view(setup@), #[trigger] spoken@[i]) == map_view(setup@)[i].1 by {
                assert(is_first_key(map_view(setup@), spoken@[i], i));
                lemma_programming_for_first(map_view(setup@), spoken@[i], i);
            }
        }
        Ok(
            WorkshopData::new(
                self.name.clone(),
                path,
                defaults,
                copy_vec(spoken),
                setup,
                copy_vec(spoken),
                lessons,
            ),
        )
    }
}

} // verus!
