//! The lesson model: a lesson's progress and metadata, where its data lives, and the checks
//! made before its data is loaded.

use crate::languages::{programming, spoken};
use crate::models::{result_view, Error, ErrorView};
use crate::text::{owned, strings_view};
use vstd::prelude::*;

verus! {

/// Represents the status of a Lesson
#[derive(Clone, Copy, Debug, PartialEq, Eq, Structural)]
pub enum Status {
    /// The lesson is not started
    NotStarted,
    /// The lesson is in progress
    InProgress,
    /// The lesson is completed
    Completed,
}

impl Default for Status {
    fn default() -> (r: Self)
        ensures
            r == Status::NotStarted,
    {
        Status::NotStarted
    }
}

/// The displayed text of a lesson's status.
pub open spec fn status_text(s: Status) -> Seq<char> {
    match s {
        Status::NotStarted => "Not Started"@,
        Status::InProgress => "In Progress"@,
        Status::Completed => "Completed"@,
    }
}

impl Status {
    /// The status as it is displayed.
    pub fn as_str(&self) -> (r: &'static str)
        ensures
            r@ == status_text(*self),
    {
        match self {
            Status::NotStarted => "Not Started",
            Status::InProgress => "In Progress",
            Status::Completed => "Completed",
        }
    }
}

/// Represents a lesson's metadata
#[derive(Clone, Debug)]
pub struct Lesson {
    pub title: String,
    pub description: String,
    pub status: Status,
}

/// Where a lesson's data lives, and its languages.
pub struct LessonData {
    name: String,
    path: String,
    spoken_language: spoken::Code,
    programming_language: programming::Code,
}

/// A lesson's data, by value.
pub struct LessonDataView {
    pub name: Seq<char>,
    pub path: Seq<char>,
    pub spoken_language: spoken::Code,
    pub programming_language: programming::Code,
}

impl View for LessonData {
    type V = LessonDataView;

    closed spec fn view(&self) -> LessonDataView {
        LessonDataView {
            name: self.name@,
            path: self.path@,
            spoken_language: self.spoken_language,
            programming_language: self.programming_language,
        }
    }
}

impl LessonData {
    /// returns the name of the lesson
    pub fn get_name(&self) -> (r: &str)
        ensures
            r@ == self@.name,
    {
        self.name.as_str()
    }

    /// returns the path to the lesson data directory
    pub fn get_path(&self) -> (r: &str)
        ensures
            r@ == self@.path,
    {
        self.path.as_str()
    }

    /// returns the spoken language of the lesson
    pub fn get_spoken_language(&self) -> (r: spoken::Code)
        ensures
            r == self@.spoken_language,
    {
        self.spoken_language
    }

    /// returns the programming language of the lesson
    pub fn get_programming_language(&self) -> (r: programming::Code)
        ensures
            r == self@.programming_language,
    {
        self.programming_language
    }
}

/// What a lesson's data is built from.
pub struct Loader {
    name: String,
    path: Option<String>,
    spoken_language: Option<spoken::Code>,
    programming_language: Option<programming::Code>,
}

/// A loader, by value.
pub struct LoaderView {
    pub name: Seq<char>,
    pub path: Option<Seq<char>>,
    pub spoken_language: Option<spoken::Code>,
    pub programming_language: Option<programming::Code>,
}

impl View for Loader {
    type V = LoaderView;

    closed spec fn view(&self) -> LoaderView {
        LoaderView {
            name: self.name@,
            path: match self.path {
                Some(p) => Some(p@),
                None => None,
            },
            spoken_language: self.spoken_language,
            programming_language: self.programming_language,
        }
    }
}

/// What loading a lesson's data gives, from the loader and what the file system shows: its
/// directory must be known and exist, both languages must be known, and the lesson text and
/// metadata files must exist, checked in that order.
pub open spec fn load_result(
    l: LoaderView,
    dir_exists: bool,
    text_exists: bool,
    metadata_exists: bool,
) -> Result<LessonDataView, ErrorView> {
    if l.path is None || !dir_exists {
        Err(ErrorView::LessonDataDirNotFound)
    } else if l.spoken_language is None {
        Err(ErrorView::NoSpokenLanguageSpecified)
    } else if l.programming_language is None {
        Err(ErrorView::NoProgrammingLanguageSpecified)
    } else if !text_exists {
        Err(ErrorView::LessonTextFileMissing)
    } else if !metadata_exists {
        Err(ErrorView::LessonMetadataFileMissing)
    } else {
        Ok(
            LessonDataView {
                name: l.name,
                path: l.path.unwrap(),
                spoken_language: l.spoken_language.unwrap(),
                programming_language: l.programming_language.unwrap(),
            },
        )
    }
}

impl Loader {
    /// A loader for the lesson with a name.
    pub fn new(name: &str) -> (r: Self)
        ensures
            r@ == (LoaderView {
                name: name@,
                path: None,
                spoken_language: None,
                programming_language: None,
            }),
    {
        Loader { name: owned(name), path: None, spoken_language: None, programming_language: None }
    }

    /// The loader with the lesson's directory.
    pub fn path(self, path: &str) -> (r: Self)
        ensures
            r@ == (LoaderView { path: Some(path@), ..self@ }),
    {
        Loader { path: Some(owned(path)), ..self }
    }

    /// The loader with the lesson's spoken language.
    pub fn spoken_language(self, spoken_language: spoken::Code) -> (r: Self)
        ensures
            r@ == (LoaderView { spoken_language: Some(spoken_language), ..self@ }),
    {
        Loader { spoken_language: Some(spoken_language), ..self }
    }

    /// The loader with the lesson's programming language.
    pub fn programming_language(self, programming_language: programming::Code) -> (r: Self)
        ensures
            r@ == (LoaderView { programming_language: Some(programming_language), ..self@ }),
    {
        Loader { programming_language: Some(programming_language), ..self }
    }

    /// Build the lesson's data, given whether its directory, its text and its metadata exist.
    pub fn try_load(&self, dir_exists: bool, text_exists: bool, metadata_exists: bool) -> (r:
        Result<LessonData, Error>)
        ensures
            match r {
                Ok(d) => load_result(self@, dir_exists, text_exists, metadata_exists) == Ok::<
                    LessonDataView,
                    ErrorView,
                >(d@),
                Err(e) => load_result(self@, dir_exists, text_exists, metadata_exists) == Err::<
                    LessonDataView,
                    ErrorView,
                >(e@),
            },
    {
        let path = match &self.path {
            Some(p) => p.clone(),
            None => return Err(Error::LessonDataDirNotFound),
        };
        if !dir_exists {
            return Err(Error::LessonDataDirNotFound);
        }
        let spoken_language = match self.spoken_language {
            Some(s) => s,
            None => return Err(Error::NoSpokenLanguageSpecified),
        };
        let programming_language = match self.programming_language {
            Some(p) => p,
            None => return Err(Error::NoProgrammingLanguageSpecified),
        };
        if !text_exists {
            return Err(Error::LessonTextFileMissing);
        }
        if !metadata_exists {
            return Err(Error::LessonMetadataFileMissing);
        }
        Ok(LessonData { name: self.name.clone(), path, spoken_language, programming_language })
    }
}

/// The loader a lesson's directory gives, from its path's components: the lesson's name is the
/// last, its programming language the one before, and its spoken language the one before that
/// (a workshop holds `{spoken}/{programming}/{lesson}`), each read as a language code or name.
pub open spec fn loader_from_path(path: Seq<Seq<char>>, whole: Seq<char>) -> Result<
    LoaderView,
    ErrorView,
> {
    if path.len() < 1 {
        Err(ErrorView::LessonDataDirNotFound)
    } else if path.len() < 3 || spoken::parse_code(path[path.len() - 3]) is None {
        Err(ErrorView::NoSpokenLanguageSpecified)
    } else if programming::parse_code(path[path.len() - 2]) is None {
        Err(ErrorView::NoProgrammingLanguageSpecified)
    } else {
        Ok(
            LoaderView {
                name: path.last(),
                path: Some(whole),
                spoken_language: spoken::parse_code(path[path.len() - 3]),
                programming_language: programming::parse_code(path[path.len() - 2]),
            },
        )
    }
}

/// The loader for the lesson in a directory, from the directory's path and its components.
pub fn loader_for_dir(path: &Vec<String>, whole: &str) -> (r: Result<Loader, Error>)
    ensures
        match r {
            Ok(l) => loader_from_path(strings_view(path@), whole@) == Ok::<LoaderView, ErrorView>(
                l@,
            ),
            Err(e) => loader_from_path(strings_view(path@), whole@) == Err::<LoaderView, ErrorView>(
                e@,
            ),
        },
{
    let n = path.len();
    if n < 1 {
        return Err(Error::LessonDataDirNotFound);
    }
    if n < 3 {
        return Err(Error::NoSpokenLanguageSpecified);
    }
    let spoken_language = match spoken::Code::try_from(path[n - 3].as_str()) {
        Ok(c) => c,
        Err(_) => return Err(Error::NoSpokenLanguageSpecified),
    };
    let programming_language = match programming::Code::try_from(path[n - 2].as_str()) {
        Ok(c) => c,
        Err(_) => return Err(Error::NoProgrammingLanguageSpecified),
    };
    proof {
        assert(strings_view(path@)[n - 1] == path@[n - 1]@);
        assert(strings_view(path@)[n - 2] == path@[n - 2]@);
        assert(strings_view(path@)[n - 3] == path@[n - 3]@);
    }
    Ok(
        Loader::new(path[n - 1].as_str()).path(whole).spoken_language(
            spoken_language,
        ).programming_language(programming_language),
    )
}

} // verus!
