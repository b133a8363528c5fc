//! The workshop engine: a stack of states driven by requests from the user interface, each
//! answered by a message back to it.

use crate::catalog::{
    all_programming_languages, all_spoken_languages, all_workshops_filtered, programming_list,
    results_view, selected_workshops, spoken_list, successes, workshops_view,
    lemma_filter_subset, lemma_programming_list,
};
use crate::languages::{programming, spoken};
use crate::models::lesson::{LessonData, LessonDataView};
use crate::lessons::LessonMeta;
use crate::models::workshop::{keys, selected_by, Workshop, WorkshopData, WorkshopDataView};
use crate::text::{copy_vec, owned, str_eq, strings_view};
use vstd::prelude::*;

verus! {

/// Errors of the engine.
#[derive(Clone, Debug, PartialEq, Eq)]
pub enum Error {
    Io(String),
    YamlParsing(String),
    InvalidStateChange(String, String),
    WorkshopNotFound(String),
    WorkshopNameNotFound,
    WorkshopDataDirNotFound,
    WorkshopDataSpokenDirNotFound(String),
    WorkshopSpokenLanguageNotFound(String),
    WorkshopDataProgrammingDirNotFound(String),
    WorkshopProgrammingLanguageNotFound(String),
    WorkshopMetadataNotFound(String),
    WorkshopLicenseNotFound(String),
    WorkshopSetupNotFound(String, String, String),
    WorkshopDescriptionNotFound(String, String),
    LessonNotFound(String),
    LessonDataDirNotFound,
    LessonTextFileMissing,
    LessonMetadataFileMissing,
    NoSpokenLanguageSpecified,
    NoProgrammingLanguageSpecified,
    DependencyCheckFailed(String),
    SolutionCheckFailed(String),
    FileSystemError(String),
    UiChannelClosed,
}

/// An engine error with its text taken by value.
pub enum ErrorView {
    Io(Seq<char>),
    YamlParsing(Seq<char>),
    InvalidStateChange(Seq<char>, Seq<char>),
    WorkshopNotFound(Seq<char>),
    WorkshopNameNotFound,
    WorkshopDataDirNotFound,
    WorkshopDataSpokenDirNotFound(Seq<char>),
    WorkshopSpokenLanguageNotFound(Seq<char>),
    WorkshopDataProgrammingDirNotFound(Seq<char>),
    WorkshopProgrammingLanguageNotFound(Seq<char>),
    WorkshopMetadataNotFound(Seq<char>),
    WorkshopLicenseNotFound(Seq<char>),
    WorkshopSetupNotFound(Seq<char>, Seq<char>, Seq<char>),
    WorkshopDescriptionNotFound(Seq<char>, Seq<char>),
    LessonNotFound(Seq<char>),
    LessonDataDirNotFound,
    LessonTextFileMissing,
    LessonMetadataFileMissing,
    NoSpokenLanguageSpecified,
    NoProgrammingLanguageSpecified,
    DependencyCheckFailed(Seq<char>),
    SolutionCheckFailed(Seq<char>),
    FileSystemError(Seq<char>),
    UiChannelClosed,
}

impl View for Error {
    type V = ErrorView;

    open spec fn view(&self) -> ErrorView {
        match self {
            Error::Io(a) => ErrorView::Io(a@),
            Error::YamlParsing(a) => ErrorView::YamlParsing(a@),
            Error::InvalidStateChange(a, b) => ErrorView::InvalidStateChange(a@, b@),
            Error::WorkshopNotFound(a) => ErrorView::WorkshopNotFound(a@),
            Error::WorkshopNameNotFound => ErrorView::WorkshopNameNotFound,
            Error::WorkshopDataDirNotFound => ErrorView::WorkshopDataDirNotFound,
            Error::WorkshopDataSpokenDirNotFound(a) => ErrorView::WorkshopDataSpokenDirNotFound(a@),
            Error::WorkshopSpokenLanguageNotFound(a) => ErrorView::WorkshopSpokenLanguageNotFound(a@),
            Error::WorkshopDataProgrammingDirNotFound(a) => ErrorView::WorkshopDataProgrammingDirNotFound(a@),
            Error::WorkshopProgrammingLanguageNotFound(a) => ErrorView::WorkshopProgrammingLanguageNotFound(a@),
            Error::WorkshopMetadataNotFound(a) => ErrorView::WorkshopMetadataNotFound(a@),
            Error::WorkshopLicenseNotFound(a) => ErrorView::WorkshopLicenseNotFound(a@),
            Error::WorkshopSetupNotFound(a, b, c) => ErrorView::WorkshopSetupNotFound(a@, b@, c@),
            Error::WorkshopDescriptionNotFound(a, b) => ErrorView::WorkshopDescriptionNotFound(a@, b@),
            Error::LessonNotFound(a) => ErrorView::LessonNotFound(a@),
            Error::LessonDataDirNotFound => ErrorView::LessonDataDirNotFound,
            Error::LessonTextFileMissing => ErrorView::LessonTextFileMissing,
            Error::LessonMetadataFileMissing => ErrorView::LessonMetadataFileMissing,
            Error::NoSpokenLanguageSpecified => ErrorView::NoSpokenLanguageSpecified,
            Error::NoProgrammingLanguageSpecified => ErrorView::NoProgrammingLanguageSpecified,
            Error::DependencyCheckFailed(a) => ErrorView::DependencyCheckFailed(a@),
            Error::SolutionCheckFailed(a) => ErrorView::SolutionCheckFailed(a@),
            Error::FileSystemError(a) => ErrorView::FileSystemError(a@),
            Error::UiChannelClosed => ErrorView::UiChannelClosed,
        }
    }
}

/// The text an error is reported with.
pub open spec fn error_text(e: ErrorView) -> Seq<char> {
    match e {
        ErrorView::Io(a) => "IO error: "@ + a,
        ErrorView::YamlParsing(a) => "YAML parsing error: "@ + a,
        ErrorView::InvalidStateChange(a, b) => "Invalid engine state change "@ + a + " -> "@ + b,
        ErrorView::WorkshopNotFound(a) => "Workshop not found: "@ + a,
        ErrorView::WorkshopNameNotFound => "Workshop name not found"@,
        ErrorView::WorkshopDataDirNotFound => "Workshop data directory not found"@,
        ErrorView::WorkshopDataSpokenDirNotFound(a) => "Workshop data directory for spoken langage "@ + a + " not found"@,
        ErrorView::WorkshopSpokenLanguageNotFound(a) => "Workshop spoken language not found: "@ + a,
        ErrorView::WorkshopDataProgrammingDirNotFound(a) => "Workshop data directory for programming language "@ + a + " not found"@,
        ErrorView::WorkshopProgrammingLanguageNotFound(a) => "Workshop programming language not found: "@ + a,
        ErrorView::WorkshopMetadataNotFound(a) => "Workshop metadata not found: "@ + a,
        ErrorView::WorkshopLicenseNotFound(a) => "Workshop license not found: "@ + a,
        ErrorView::WorkshopSetupNotFound(a, b, c) => "Workshop setup not found: "@ + a + " ("@ + b + ", "@ + c + ")"@,
        ErrorView::WorkshopDescriptionNotFound(a, b) => "Workshop description not found: "@ + a + " ("@ + b + ")"@,
        ErrorView::LessonNotFound(a) => "Lesson not found: "@ + a,
        ErrorView::LessonDataDirNotFound => "Lesson data directory not found"@,
        ErrorView::LessonTextFileMissing => "Lesson text file missing"@,
        ErrorView::LessonMetadataFileMissing => "Lesson metadata file missing"@,
        ErrorView::NoSpokenLanguageSpecified => "No spoken language specified"@,
        ErrorView::NoProgrammingLanguageSpecified => "No programming language specified"@,
        ErrorView::DependencyCheckFailed(a) => "Failed to run dependency check: "@ + a,
        ErrorView::SolutionCheckFailed(a) => "Failed to run solution check: "@ + a,
        ErrorView::FileSystemError(a) => "File system error: "@ + a,
        ErrorView::UiChannelClosed => "UI Channel Closed"@,
    }
}

impl Error {
    /// The text the error is reported with.
    pub fn message(&self) -> (r: String)
        ensures
            r@ == error_text(self@),
    {
        match self {
            Error::Io(a) => {
                let mut r = String::from_str("IO error: ");
                r.append(a.as_str());
                r
            },
            Error::YamlParsing(a) => {
                let mut r = String::from_str("YAML parsing error: ");
                r.append(a.as_str());
                r
            },
            Error::InvalidStateChange(a, b) => {
                let mut r = String::from_str("Invalid engine state change ");
                r.append(a.as_str());
                r.append(" -> ");
                r.append(b.as_str());
                r
            },
            Error::WorkshopNotFound(a) => {
                let mut r = String::from_str("Workshop not found: ");
                r.append(a.as_str());
                r
            },
            Error::WorkshopNameNotFound => {
                let mut r = String::from_str("Workshop name not found");
                r
            },
            Error::WorkshopDataDirNotFound => {
                let mut r = String::from_str("Workshop data directory not found");
                r
            },
            Error::WorkshopDataSpokenDirNotFound(a) => {
                let mut r = String::from_str("Workshop data directory for spoken langage ");
                r.append(a.as_str());
                r.append(" not found");
                r
            },
            Error::WorkshopSpokenLanguageNotFound(a) => {
                let mut r = String::from_str("Workshop spoken language not found: ");
                r.append(a.as_str());
                r
            },
            Error::WorkshopDataProgrammingDirNotFound(a) => {
                let mut r = String::from_str("Workshop data directory for programming language ");
                r.append(a.as_str());
                r.append(" not found");
                r
            },
            Error::WorkshopProgrammingLanguageNotFound(a) => {
                let mut r = String::from_str("Workshop programming language not found: ");
                r.append(a.as_str());
                r
            },
            Error::WorkshopMetadataNotFound(a) => {
                let mut r = String::from_str("Workshop metadata not found: ");
                r.append(a.as_str());
                r
            },
            Error::WorkshopLicenseNotFound(a) => {
                let mut r = String::from_str("Workshop license not found: ");
                r.append(a.as_str());
                r
            },
            Error::WorkshopSetupNotFound(a, b, c) => {
                let mut r = String::from_str("Workshop setup not found: ");
                r.append(a.as_str());
                r.append(" (");
                r.append(b.as_str());
                r.append(", ");
                r.append(c.as_str());
                r.append(")");
                r
            },
            Error::WorkshopDescriptionNotFound(a, b) => {
                let mut r = String::from_str("Workshop description not found: ");
                r.append(a.as_str());
                r.append(" (");
                r.append(b.as_str());
                r.append(")");
                r
            },
            Error::LessonNotFound(a) => {
                let mut r = String::from_str("Lesson not found: ");
                r.append(a.as_str());
                r
            },
            Error::LessonDataDirNotFound => {
                let mut r = String::from_str("Lesson data directory not found");
                r
            },
            Error::LessonTextFileMissing => {
                let mut r = String::from_str("Lesson text file missing");
                r
            },
            Error::LessonMetadataFileMissing => {
                let mut r = String::from_str("Lesson metadata file missing");
                r
            },
            Error::NoSpokenLanguageSpecified => {
                let mut r = String::from_str("No spoken language specified");
                r
            },
            Error::NoProgrammingLanguageSpecified => {
                let mut r = String::from_str("No programming language specified");
                r
            },
            Error::DependencyCheckFailed(a) => {
                let mut r = String::from_str("Failed to run dependency check: ");
                r.append(a.as_str());
                r
            },
            Error::SolutionCheckFailed(a) => {
                let mut r = String::from_str("Failed to run solution check: ");
                r.append(a.as_str());
                r
            },
            Error::FileSystemError(a) => {
                let mut r = String::from_str("File system error: ");
                r.append(a.as_str());
                r
            },
            Error::UiChannelClosed => {
                let mut r = String::from_str("UI Channel Closed");
                r
            },
        }
    }
}


/// A state of the engine.
pub enum State {
    /// Not configured yet.
    Nil,
    /// Choosing a workshop among those offered in the chosen languages.
    SelectWorkshop { workshops_data: Vec<WorkshopData> },
    /// Showing a workshop's description.
    ShowDescription { name: String, text: String },
    /// Showing a workshop's setup instructions.
    ShowSetupInstructions { name: String, text: String },
    /// Showing the spoken languages of a workshop.
    ShowSpokenLanguages { name: String, spoken_languages: Vec<spoken::Code> },
    /// Showing the programming languages of a workshop.
    ShowProgrammingLanguages { name: String, programming_languages: Vec<programming::Code> },
    /// Showing a workshop's license.
    ShowLicense { license_text: String },
    /// Choosing the spoken language.
    SelectSpokenLanguage { spoken_languages: Vec<spoken::Code> },
    /// Asking whether the chosen spoken language becomes the default.
    SetSpokenLanguageDefault { spoken_language: Option<spoken::Code> },
    /// Choosing the programming language.
    SelectProgrammingLanguage { programming_languages: Vec<programming::Code> },
    /// Asking whether the chosen programming language becomes the default.
    SetProgrammingLanguageDefault { programming_language: Option<programming::Code> },
    /// Choosing a lesson of the chosen workshop.
    SelectLesson { lessons_data: Vec<LessonData> },
    /// Checking a lesson.
    CheckLesson,
    /// The lesson is complete.
    LessonComplete,
    /// The lesson is incomplete.
    LessonIncomplete,
    /// An error occurred; its text.
    Error(String),
    /// Quitting.
    Quit,
}

/// A state by value.
pub enum StateView {
    Nil,
    SelectWorkshop(Seq<WorkshopDataView>),
    ShowDescription(Seq<char>, Seq<char>),
    ShowSetupInstructions(Seq<char>, Seq<char>),
    ShowSpokenLanguages(Seq<char>, Seq<spoken::Code>),
    ShowProgrammingLanguages(Seq<char>, Seq<programming::Code>),
    ShowLicense(Seq<char>),
    SelectSpokenLanguage(Seq<spoken::Code>),
    SetSpokenLanguageDefault(Option<spoken::Code>),
    SelectProgrammingLanguage(Seq<programming::Code>),
    SetProgrammingLanguageDefault(Option<programming::Code>),
    SelectLesson(Seq<LessonDataView>),
    CheckLesson,
    LessonComplete,
    LessonIncomplete,
    Error(Seq<char>),
    Quit,
}

/// Lessons by value.
pub open spec fn lessons_view(v: Seq<LessonData>) -> Seq<LessonDataView> {
    Seq::new(v.len(), |i: int| v[i]@)
}

impl View for State {
    type V = StateView;

    open spec fn view(&self) -> StateView {
        match self {
            State::Nil => StateView::Nil,
            State::SelectWorkshop { workshops_data } => StateView::SelectWorkshop(
                workshops_view(workshops_data@),
            ),
            State::ShowDescription { name, text } => StateView::ShowDescription(name@, text@),
            State::ShowSetupInstructions { name, text } => StateView::ShowSetupInstructions(
                name@,
                text@,
            ),
            State::ShowSpokenLanguages { name, spoken_languages } => StateView::ShowSpokenLanguages(
                name@,
                spoken_languages@,
            ),
            State::ShowProgrammingLanguages {
                name,
                programming_languages,
            } => StateView::ShowProgrammingLanguages(name@, programming_languages@),
            State::ShowLicense { license_text } => StateView::ShowLicense(license_text@),
            State::SelectSpokenLanguage { spoken_languages } => StateView::SelectSpokenLanguage(
                spoken_languages@,
            ),
            State::SetSpokenLanguageDefault {
                spoken_language,
            } => StateView::SetSpokenLanguageDefault(*spoken_language),
            State::SelectProgrammingLanguage {
                programming_languages,
            } => StateView::SelectProgrammingLanguage(programming_languages@),
            State::SetProgrammingLanguageDefault {
                programming_language,
            } => StateView::SetProgrammingLanguageDefault(*programming_language),
            State::SelectLesson { lessons_data } => StateView::SelectLesson(
                lessons_view(lessons_data@),
            ),
            State::CheckLesson => StateView::CheckLesson,
            State::LessonComplete => StateView::LessonComplete,
            State::LessonIncomplete => StateView::LessonIncomplete,
            State::Error(e) => StateView::Error(e@),
            State::Quit => StateView::Quit,
        }
    }
}

/// The name a state is reported by.
pub open spec fn state_name(s: StateView) -> Seq<char> {
    match s {
        StateView::Nil => "Nil"@,
        StateView::SelectWorkshop(_) => "SelectWorkshop"@,
        StateView::ShowDescription(_, _) => "ShowDescription"@,
        StateView::ShowSetupInstructions(_, _) => "ShowSetupInstructions"@,
        StateView::ShowSpokenLanguages(_, _) => "ShowSpokenLanguages"@,
        StateView::ShowProgrammingLanguages(_, _) => "ShowProgrammingLanguages"@,
        StateView::ShowLicense(_) => "License"@,
        StateView::SelectSpokenLanguage(_) => "SelectSpokenLanguage"@,
        StateView::SetSpokenLanguageDefault(_) => "SetSpokenLanguageDefault"@,
        StateView::SelectProgrammingLanguage(_) => "SelectProgrammingLanguage"@,
        StateView::SetProgrammingLanguageDefault(_) => "SetProgrammingLanguageDefault"@,
        StateView::SelectLesson(_) => "SelectLesson"@,
        StateView::CheckLesson => "CheckLesson"@,
        StateView::LessonComplete => "LessonComplete"@,
        StateView::LessonIncomplete => "LessonIncomplete"@,
        StateView::Error(e) => "Error: "@ + e,
        StateView::Quit => "Quit"@,
    }
}

impl State {
    /// The name the state is reported by.
    pub fn name(&self) -> (r: String)
        ensures
            r@ == state_name(self@),
    {
        match self {
            State::Nil => String::from_str("Nil"),
            State::SelectWorkshop { .. } => String::from_str("SelectWorkshop"),
            State::ShowDescription { .. } => String::from_str("ShowDescription"),
            State::ShowSetupInstructions { .. } => String::from_str("ShowSetupInstructions"),
            State::ShowSpokenLanguages { .. } => String::from_str("ShowSpokenLanguages"),
            State::ShowProgrammingLanguages { .. } => String::from_str("ShowProgrammingLanguages"),
            State::ShowLicense { .. } => String::from_str("License"),
            State::SelectSpokenLanguage { .. } => String::from_str("SelectSpokenLanguage"),
            State::SetSpokenLanguageDefault { .. } => String::from_str("SetSpokenLanguageDefault"),
            State::SelectProgrammingLanguage { .. } => String::from_str(
                "SelectProgrammingLanguage",
            ),
            State::SetProgrammingLanguageDefault { .. } => String::from_str(
                "SetProgrammingLanguageDefault",
            ),
            State::SelectLesson { .. } => String::from_str("SelectLesson"),
            State::CheckLesson => String::from_str("CheckLesson"),
            State::LessonComplete => String::from_str("LessonComplete"),
            State::LessonIncomplete => String::from_str("LessonIncomplete"),
            State::Error(e) => {
                let mut r = String::from_str("Error: ");
                r.append(e.as_str());
                r
            },
            State::Quit => String::from_str("Quit"),
        }
    }
}

/// Where the engine finds the workshops, and where it runs.
pub struct Fs {
    /// The application data directory.
    pub data_dir: String,
    /// The present working directory.
    pub pwd: String,
}

/// The directories of the engine, by value.
pub struct FsView {
    pub data_dir: Seq<char>,
    pub pwd: Seq<char>,
}

impl View for Fs {
    type V = FsView;

    open spec fn view(&self) -> FsView {
        FsView { data_dir: self.data_dir@, pwd: self.pwd@ }
    }
}

impl Fs {
    /// No directories yet.
    pub fn new() -> (r: Fs)
        ensures
            r@ == (FsView { data_dir: Seq::empty(), pwd: Seq::empty() }),
    {
        Fs { data_dir: String::new(), pwd: String::new() }
    }

    /// Sets the data directory.
    pub fn set_data_dir(&mut self, data_dir: &str)
        ensures
            final(self)@ == (FsView { data_dir: data_dir@, ..old(self)@ }),
    {
        self.data_dir = owned(data_dir);
    }

    /// Sets the present working directory.
    pub fn set_pwd(&mut self, pwd: &str)
        ensures
            final(self)@ == (FsView { pwd: pwd@, ..old(self)@ }),
    {
        self.pwd = owned(pwd);
    }

    /// The installed workshops, from the result of loading each directory of the data
    /// directory (`None` when it could not be read); those that fail to load are left out.
    pub fn get_workshops_data(&self, loaded: Option<Vec<Result<WorkshopData, crate::models::Error>>>) -> (r:
        Result<Vec<WorkshopData>, Error>)
        ensures
            match loaded {
                None => r is Err && r->Err_0@ == ErrorView::WorkshopDataDirNotFound,
                Some(v) => r is Ok && workshops_view(r->Ok_0@) == successes(results_view(v@)),
            },
    {
        let v = match loaded {
            None => return Err(Error::WorkshopDataDirNotFound),
            Some(v) => v,
        };
        let ghost all = results_view(v@);
        let mut v = v;
        let mut out: Vec<WorkshopData> = Vec::new();
        let n = v.len();
        let mut k: usize = 0;
        proof {
            assert(all.skip(0) =~= all);
            assert(workshops_view(out@) =~= Seq::<WorkshopDataView>::empty());
        }
        while k < n
            invariant
                k <= n,
                n == all.len(),
                loaded is Some,
                results_view(loaded->Some_0@) == all,
                v@.len() == n - k,
                results_view(v@) == all.skip(k as int),
                successes(all) == workshops_view(out@) + successes(all.skip(k as int)),
            decreases n - k,
        {
            let ghost before = v@;
            let item = v.remove(0);
            proof {
                assert(item == before[0]);
                assert(results_view(before)[0] == all.skip(k as int)[0]);
                assert forall|j: int| 0 <= j < v@.len() implies #[trigger] results_view(v@)[j]
                    == all.skip(k + 1)[j] by {
                    assert(v@[j] == before[j + 1]);
                    assert(results_view(before)[j + 1] == all.skip(k as int)[j + 1]);
                }
                assert(results_view(v@) =~= all.skip(k + 1));
                assert(all.skip(k as int).drop_first() =~= all.skip(k + 1));
            }
            match item {
                Err(_) => {},
                Ok(w) => {
                    let ghost out0 = out@;
                    out.push(w);
                    proof {
                        assert(workshops_view(out@) =~= workshops_view(out0).push(w@));
                        assert(workshops_view(out@) + successes(all.skip(k + 1)) =~= workshops_view(
                            out0,
                        ) + (seq![w@] + successes(all.skip(k + 1))));
                    }
                },
            }
            k = k + 1;
        }
        proof {
            assert(all.skip(n as int) =~= Seq::<Result<WorkshopDataView, crate::models::ErrorView>>::empty());
            assert(workshops_view(out@) + Seq::<WorkshopDataView>::empty() =~= workshops_view(out@));
        }
        Ok(out)
    }

    /// Every spoken language of the installed workshops, in order and each once, from what
    /// reading the data directory gave.
    pub fn get_workshops_spoken_languages(&self, workshops: Result<Vec<WorkshopData>, Error>) -> (r:
        Result<Vec<spoken::Code>, Error>)
        ensures
            match workshops {
                Ok(ws) => r is Ok && r->Ok_0@ == spoken_list(workshops_view(ws@)),
                Err(e) => r == Err::<Vec<spoken::Code>, Error>(e),
            },
    {
        match workshops {
            Ok(ws) => Ok(all_spoken_languages(&ws)),
            Err(e) => Err(e),
        }
    }

    /// Every programming language of the installed workshops, in order and each once, from
    /// what reading the data directory gave.
    pub fn get_workshops_programming_languages(&self, workshops: Result<Vec<WorkshopData>, Error>) -> (r:
        Result<Vec<programming::Code>, Error>)
        ensures
            match workshops {
                Ok(ws) => r is Ok && r->Ok_0@ == programming_list(workshops_view(ws@)),
                Err(e) => r == Err::<Vec<programming::Code>, Error>(e),
            },
    {
        match workshops {
            Ok(ws) => Ok(all_programming_languages(&ws)),
            Err(e) => Err(e),
        }
    }
}

/// Optional text by value.
pub open spec fn opt_text(o: Option<String>) -> Option<Seq<char>> {
    match o {
        Some(t) => Some(t@),
        None => None,
    }
}

/// States by value.
pub open spec fn states_view(v: Seq<State>) -> Seq<StateView> {
    Seq::new(v.len(), |i: int| v[i]@)
}

/// The engine: its directories, its stack of states (the last is the current one), the chosen
/// workshop and lesson, and the chosen languages.
pub struct Engine {
    fs: Fs,
    state: Vec<State>,
    workshop: Option<String>,
    lesson: Option<String>,
    spoken_language: Option<spoken::Code>,
    programming_language: Option<programming::Code>,
}

/// The engine by value.
pub struct EngineView {
    pub fs: FsView,
    pub state: Seq<StateView>,
    pub workshop: Option<Seq<char>>,
    pub lesson: Option<Seq<char>>,
    pub spoken_language: Option<spoken::Code>,
    pub programming_language: Option<programming::Code>,
}

impl View for Engine {
    type V = EngineView;

    closed spec fn view(&self) -> EngineView {
        EngineView {
            fs: self.fs@,
            state: states_view(self.state@),
            workshop: opt_text(self.workshop),
            lesson: opt_text(self.lesson),
            spoken_language: self.spoken_language,
            programming_language: self.programming_language,
        }
    }
}

/// What a step leaves: the engine, and whether the request was accepted.
pub type Outcome = (EngineView, Result<(), ErrorView>);

/// A result without a value, by value.
pub open spec fn done_view(r: Result<(), Error>) -> Result<(), ErrorView> {
    match r {
        Ok(()) => Ok(()),
        Err(e) => Err(e@),
    }
}

/// A text that was read, or why not, by value.
pub open spec fn text_view(r: Result<String, Error>) -> Result<Seq<char>, ErrorView> {
    match r {
        Ok(t) => Ok(t@),
        Err(e) => Err(e@),
    }
}

/// Workshops that were read, or why not, by value.
pub open spec fn loaded_view(r: Result<Vec<WorkshopData>, Error>) -> Result<
    Seq<WorkshopDataView>,
    ErrorView,
> {
    match r {
        Ok(ws) => Ok(workshops_view(ws@)),
        Err(e) => Err(e@),
    }
}

/// Lessons that were read, or why not, by value.
pub open spec fn lessons_loaded_view(r: Result<Vec<LessonData>, Error>) -> Result<
    Seq<LessonDataView>,
    ErrorView,
> {
    match r {
        Ok(ls) => Ok(lessons_view(ls@)),
        Err(e) => Err(e@),
    }
}

/// The engine with another stack of states.
pub open spec fn with_stack(v: EngineView, st: Seq<StateView>) -> EngineView {
    EngineView { state: st, ..v }
}

/// The refusal of a request that the current state does not take.
pub open spec fn invalid(v: EngineView, op: Seq<char>) -> Outcome {
    (v, Err(ErrorView::InvalidStateChange(state_name(v.state.last()), op)))
}

/// The first workshop with the name.
pub open spec fn find_named(ws: Seq<WorkshopDataView>, name: Seq<char>) -> Option<WorkshopDataView>
    decreases ws.len(),
{
    if ws.len() == 0 {
        None
    } else if ws[0].name == name {
        Some(ws[0])
    } else {
        find_named(ws.drop_first(), name)
    }
}

/// The programming languages of one workshop, in order and each once.
pub open spec fn workshop_programming(w: WorkshopDataView) -> Seq<programming::Code> {
    programming_list(seq![w])
}

/// Configuring: only from `Nil`, which it leaves for the workshops offered in the chosen
/// languages.
pub open spec fn config_step(
    v: EngineView,
    data_dir: Seq<char>,
    pwd: Seq<char>,
    s: Option<spoken::Code>,
    p: Option<programming::Code>,
    loaded: Result<Seq<WorkshopDataView>, ErrorView>,
) -> Outcome {
    if v.state.last() is Nil {
        let v1 = EngineView {
            fs: FsView { data_dir, pwd },
            state: v.state.drop_last(),
            spoken_language: s,
            programming_language: p,
            ..v
        };
        match loaded {
            Err(e) => (v1, Err(e)),
            Ok(ws) => (
                with_stack(v1, v1.state.push(StateView::SelectWorkshop(selected_workshops(ws, s, p)))),
                Ok(()),
            ),
        }
    } else {
        invalid(v, "config"@)
    }
}

/// Showing something of a named workshop on top of the workshop choice: `shown` is the state
/// pushed when the workshop is there and the text was read.
pub open spec fn show_step(
    v: EngineView,
    name: Seq<char>,
    text: Result<Seq<char>, ErrorView>,
    shown: StateView,
) -> Outcome {
    match v.state.last() {
        StateView::SelectWorkshop(ws) => match find_named(ws, name) {
            None => (v, Err(ErrorView::WorkshopNotFound(name))),
            Some(_) => match text {
                Err(e) => (v, Err(e)),
                Ok(_) => (with_stack(v, v.state.push(shown)), Ok(())),
            },
        },
        _ => invalid(v, "get_license"@),
    }
}

/// Showing a workshop's description.
pub open spec fn description_step(
    v: EngineView,
    name: Seq<char>,
    text: Result<Seq<char>, ErrorView>,
) -> Outcome {
    show_step(v, name, text, StateView::ShowDescription(name, text->Ok_0))
}

/// Showing a workshop's setup instructions.
pub open spec fn setup_step(
    v: EngineView,
    name: Seq<char>,
    text: Result<Seq<char>, ErrorView>,
) -> Outcome {
    show_step(v, name, text, StateView::ShowSetupInstructions(name, text->Ok_0))
}

/// Showing a workshop's license.
pub open spec fn license_step(
    v: EngineView,
    name: Seq<char>,
    text: Result<Seq<char>, ErrorView>,
) -> Outcome {
    show_step(v, name, text, StateView::ShowLicense(text->Ok_0))
}

/// Showing a workshop's spoken languages.
pub open spec fn spoken_languages_step(v: EngineView, name: Seq<char>) -> Outcome {
    match v.state.last() {
        StateView::SelectWorkshop(ws) => match find_named(ws, name) {
            None => (v, Err(ErrorView::WorkshopNotFound(name))),
            Some(w) => (
                with_stack(
                    v,
                    v.state.push(StateView::ShowSpokenLanguages(name, keys(w.setup_instructions))),
                ),
                Ok(()),
            ),
        },
        _ => invalid(v, "get_license"@),
    }
}

/// Showing a workshop's programming languages.
pub open spec fn programming_languages_step(v: EngineView, name: Seq<char>) -> Outcome {
    match v.state.last() {
        StateView::SelectWorkshop(ws) => match find_named(ws, name) {
            None => (v, Err(ErrorView::WorkshopNotFound(name))),
            Some(w) => (
                with_stack(
                    v,
                    v.state.push(StateView::ShowProgrammingLanguages(name, workshop_programming(w))),
                ),
                Ok(()),
            ),
        },
        _ => invalid(v, "get_license"@),
    }
}

/// Offering the spoken languages of the workshops on offer.
pub open spec fn change_spoken_step(v: EngineView) -> Outcome {
    match v.state.last() {
        StateView::SelectWorkshop(ws) => (
            with_stack(v, v.state.push(StateView::SelectSpokenLanguage(spoken_list(ws)))),
            Ok(()),
        ),
        _ => invalid(v, "change_spoken_language"@),
    }
}

/// Offering the programming languages of the workshops on offer.
pub open spec fn change_programming_step(v: EngineView) -> Outcome {
    match v.state.last() {
        StateView::SelectWorkshop(ws) => (
            with_stack(v, v.state.push(StateView::SelectProgrammingLanguage(programming_list(ws)))),
            Ok(()),
        ),
        _ => invalid(v, "change_programming_language"@),
    }
}

/// Choosing the spoken language: the workshop choice below is refreshed for it, and the engine
/// asks whether it becomes the default.
pub open spec fn set_spoken_step(
    v: EngineView,
    s: Option<spoken::Code>,
    loaded: Result<Seq<WorkshopDataView>, ErrorView>,
) -> Outcome {
    if v.state.last() is SelectSpokenLanguage {
        let st1 = v.state.drop_last();
        let v1 = EngineView { state: st1, spoken_language: s, ..v };
        if st1.len() > 0 && st1.last() is SelectWorkshop {
            let st2 = st1.drop_last();
            match loaded {
                Err(e) => (with_stack(v1, st2), Err(e)),
                Ok(ws) => (
                    with_stack(
                        v1,
                        st2.push(
                            StateView::SelectWorkshop(
                                selected_workshops(ws, s, v.programming_language),
                            ),
                        ).push(StateView::SetSpokenLanguageDefault(s)),
                    ),
                    Ok(()),
                ),
            }
        } else {
            (v1, Ok(()))
        }
    } else {
        invalid(v, "set_spoken_language"@)
    }
}

/// Choosing the programming language: the workshop choice below is refreshed for it, and the
/// engine asks whether it becomes the default.
pub open spec fn set_programming_step(
    v: EngineView,
    p: Option<programming::Code>,
    loaded: Result<Seq<WorkshopDataView>, ErrorView>,
) -> Outcome {
    if v.state.last() is SelectProgrammingLanguage {
        let st1 = v.state.drop_last();
        let v1 = EngineView { state: st1, programming_language: p, ..v };
        if st1.len() > 0 && st1.last() is SelectWorkshop {
            let st2 = st1.drop_last();
            match loaded {
                Err(e) => (with_stack(v1, st2), Err(e)),
                Ok(ws) => (
                    with_stack(
                        v1,
                        st2.push(
                            StateView::SelectWorkshop(selected_workshops(ws, v.spoken_language, p)),
                        ).push(StateView::SetProgrammingLanguageDefault(p)),
                    ),
                    Ok(()),
                ),
            }
        } else {
            (v1, Ok(()))
        }
    } else {
        invalid(v, "set_programming_language"@)
    }
}

/// Choosing a workshop: it becomes the chosen one, and its lessons are offered.
pub open spec fn set_workshop_step(
    v: EngineView,
    name: Seq<char>,
    lessons: Result<Seq<LessonDataView>, ErrorView>,
) -> Outcome {
    match v.state.last() {
        StateView::SelectWorkshop(ws) => match find_named(ws, name) {
            None => (v, Err(ErrorView::WorkshopNotFound(name))),
            Some(w) => {
                let v1 = EngineView { workshop: Some(w.name), ..v };
                match lessons {
                    Err(e) => (v1, Err(e)),
                    Ok(ls) => (with_stack(v1, v1.state.push(StateView::SelectLesson(ls))), Ok(())),
                }
            },
        },
        _ => invalid(v, "set_workshop"@),
    }
}

/// Choosing a lesson among those offered.
pub open spec fn set_lesson_step(v: EngineView, name: Seq<char>) -> Outcome {
    if v.state.last() is SelectLesson {
        (EngineView { lesson: Some(name), ..v }, Ok(()))
    } else {
        invalid(v, "set_lesson"@)
    }
}

/// Going back to the state below, which there must be.
pub open spec fn back_step(v: EngineView) -> Outcome {
    if v.state.len() > 1 {
        (with_stack(v, v.state.drop_last()), Ok(()))
    } else {
        invalid(v, "back"@)
    }
}

/// Quitting.
pub open spec fn quit_step(v: EngineView) -> Outcome {
    (with_stack(v, v.state.push(StateView::Quit)), Ok(()))
}

/// Recording an error as the current state.
pub open spec fn fail_step(v: EngineView, e: ErrorView) -> EngineView {
    with_stack(v, v.state.push(StateView::Error(error_text(e))))
}

/// The engine after a step, with a refusal recorded as the current state.
pub open spec fn settle(o: Outcome) -> EngineView {
    match o.1 {
        Ok(()) => o.0,
        Err(e) => fail_step(o.0, e),
    }
}

proof fn lemma_states_push(s: Seq<State>, x: State)
    ensures
        states_view(s.push(x)) == states_view(s).push(x@),
{
    assert(states_view(s.push(x)) =~= states_view(s).push(x@));
}

proof fn lemma_states_pop(s: Seq<State>)
    requires
        s.len() > 0,
    ensures
        states_view(s.drop_last()) == states_view(s).drop_last(),
        states_view(s).last() == s.last()@,
{
    assert(states_view(s.drop_last()) =~= states_view(s).drop_last());
}

/// The position of the first workshop with the name.
fn find_workshop(ws: &Vec<WorkshopData>, name: &str) -> (r: Option<usize>)
    ensures
        match r {
            Some(i) => i < ws.len() && find_named(workshops_view(ws@), name@) == Some(ws@[i as int]@),
            None => find_named(workshops_view(ws@), name@) is None,
        },
{
    let ghost all = workshops_view(ws@);
    let mut i: usize = 0;
    proof {
        assert(all.skip(0) =~= all);
    }
    while i < ws.len()
        invariant
            i <= ws.len(),
            all == workshops_view(ws@),
            find_named(all, name@) == find_named(all.skip(i as int), name@),
        decreases ws.len() - i,
    {
        proof {
            assert(all.skip(i as int)[0] == ws@[i as int]@);
            assert(all.skip(i as int).drop_first() =~= all.skip(i + 1));
        }
        if str_eq(ws[i].get_name(), name) {
            return Some(i);
        }
        i = i + 1;
    }
    None
}

impl Engine {
    /// A new engine, not configured yet.
    pub fn new() -> (r: Engine)
        ensures
            r@ == (EngineView {
                fs: FsView { data_dir: Seq::empty(), pwd: Seq::empty() },
                state: seq![StateView::Nil],
                workshop: None,
                lesson: None,
                spoken_language: None,
                programming_language: None,
            }),
    {
        let mut state: Vec<State> = Vec::new();
        state.push(State::Nil);
        let r = Engine {
            fs: Fs::new(),
            state,
            workshop: None,
            lesson: None,
            spoken_language: None,
            programming_language: None,
        };
        proof {
            assert(states_view(r.state@) =~= seq![StateView::Nil]);
        }
        r
    }

    /// The refusal of an operation in the current state.
    fn invalid(&self, op: &str) -> (e: Error)
        requires
            self@.state.len() > 0,
        ensures
            invalid(self@, op@).1 == Err::<(), ErrorView>(e@),
    {
        let n = self.state.len();
        proof {
            lemma_states_pop(self.state@);
        }
        Error::InvalidStateChange(self.state[n - 1].name(), owned(op))
    }

    /// The workshops of the current state, when it is the workshop choice.
    fn current_workshops(&self) -> (r: Option<&Vec<WorkshopData>>)
        requires
            self@.state.len() > 0,
        ensures
            match self@.state.last() {
                StateView::SelectWorkshop(ws) => r is Some && workshops_view(r->Some_0@) == ws,
                _ => r is None,
            },
    {
        let n = self.state.len();
        proof {
            lemma_states_pop(self.state@);
        }
        match &self.state[n - 1] {
            State::SelectWorkshop { workshops_data } => Some(workshops_data),
            _ => None,
        }
    }

    /// The workshop with the name in the current workshop choice, for reading its texts.
    pub fn workshop_for(&self, name: &str) -> (r: Option<&WorkshopData>)
        requires
            self@.state.len() > 0,
        ensures
            match self@.state.last() {
                StateView::SelectWorkshop(ws) => match find_named(ws, name@) {
                    Some(w) => r is Some && r->Some_0@ == w,
                    None => r is None,
                },
                _ => r is None,
            },
    {
        match self.current_workshops() {
            Some(ws) => match find_workshop(ws, name) {
                Some(i) => Some(&ws[i]),
                None => None,
            },
            None => None,
        }
    }

    fn push_state(&mut self, s: State)
        ensures
            final(self)@ == with_stack(old(self)@, old(self)@.state.push(s@)),
    {
        proof {
            lemma_states_push(self.state@, s);
        }
        self.state.push(s);
    }

    fn pop_state(&mut self)
        requires
            old(self)@.state.len() > 0,
        ensures
            final(self)@ == with_stack(old(self)@, old(self)@.state.drop_last()),
    {
        proof {
            lemma_states_pop(self.state@);
        }
        self.state.pop();
    }

    /// Configures the engine with its directories and languages, and the workshops read from
    /// the data directory.
    pub fn config(
        &mut self,
        data_dir: &str,
        pwd: &str,
        spoken_language: Option<spoken::Code>,
        programming_language: Option<programming::Code>,
        workshops: Result<Vec<WorkshopData>, Error>,
    ) -> (r: Result<(), Error>)
        requires
            old(self)@.state.len() > 0,
        ensures
            (final(self)@, done_view(r)) == config_step(
                old(self)@,
                data_dir@,
                pwd@,
                spoken_language,
                programming_language,
                loaded_view(workshops),
            ),
    {
        let n = self.state.len();
        proof {
            lemma_states_pop(self.state@);
        }
        let is_nil = match &self.state[n - 1] {
            State::Nil => true,
            _ => false,
        };
        if !is_nil {
            return Err(self.invalid("config"));
        }
        self.pop_state();
        self.fs.set_data_dir(data_dir);
        self.fs.set_pwd(pwd);
        self.spoken_language = spoken_language;
        self.programming_language = programming_language;
        match workshops {
            Err(e) => Err(e),
            Ok(ws) => {
                let selected = all_workshops_filtered(ws, spoken_language, programming_language);
                self.push_state(State::SelectWorkshop { workshops_data: selected });
                Ok(())
            },
        }
    }

    /// Whether the current state is the workshop choice and holds the named workshop: `None`
    /// when it is not the workshop choice, `Some(false)` when the workshop is not there.
    fn has_workshop(&self, name: &str) -> (r: Option<bool>)
        requires
            self@.state.len() > 0,
        ensures
            match self@.state.last() {
                StateView::SelectWorkshop(ws) => r == Some(find_named(ws, name@) is Some),
                _ => r is None,
            },
    {
        match self.current_workshops() {
            Some(ws) => Some(find_workshop(ws, name).is_some()),
            None => None,
        }
    }

    /// Shows the description of a workshop, given its text as read.
    pub fn get_description(&mut self, name: &str, text: Result<String, Error>) -> (r: Result<
        (),
        Error,
    >)
        requires
            old(self)@.state.len() > 0,
        ensures
            (final(self)@, done_view(r)) == description_step(old(self)@, name@, text_view(text)),
    {
        match self.has_workshop(name) {
            None => Err(self.invalid("get_license")),
            Some(false) => Err(Error::WorkshopNotFound(owned(name))),
            Some(true) => match text {
                Err(e) => Err(e),
                Ok(t) => {
                    self.push_state(State::ShowDescription { name: owned(name), text: t });
                    Ok(())
                },
            },
        }
    }

    /// Shows the setup instructions of a workshop, given their text as read.
    pub fn get_setup_instructions(&mut self, name: &str, text: Result<String, Error>) -> (r:
        Result<(), Error>)
        requires
            old(self)@.state.len() > 0,
        ensures
            (final(self)@, done_view(r)) == setup_step(old(self)@, name@, text_view(text)),
    {
        match self.has_workshop(name) {
            None => Err(self.invalid("get_license")),
            Some(false) => Err(Error::WorkshopNotFound(owned(name))),
            Some(true) => match text {
                Err(e) => Err(e),
                Ok(t) => {
                    self.push_state(State::ShowSetupInstructions { name: owned(name), text: t });
                    Ok(())
                },
            },
        }
    }

    /// Shows the license of a workshop, given its text as read.
    pub fn get_license(&mut self, name: &str, text: Result<String, Error>) -> (r: Result<
        (),
        Error,
    >)
        requires
            old(self)@.state.len() > 0,
        ensures
            (final(self)@, done_view(r)) == license_step(old(self)@, name@, text_view(text)),
    {
        match self.has_workshop(name) {
            None => Err(self.invalid("get_license")),
            Some(false) => Err(Error::WorkshopNotFound(owned(name))),
            Some(true) => match text {
                Err(e) => Err(e),
                Ok(t) => {
                    self.push_state(State::ShowLicense { license_text: t });
                    Ok(())
                },
            },
        }
    }

    /// Shows the spoken languages of a workshop.
    pub fn get_spoken_languages(&mut self, name: &str) -> (r: Result<(), Error>)
        requires
            old(self)@.state.len() > 0,
        ensures
            (final(self)@, done_view(r)) == spoken_languages_step(old(self)@, name@),
    {
        let found = match self.current_workshops() {
            None => None,
            Some(ws) => match find_workshop(ws, name) {
                None => Some(None),
                Some(i) => Some(Some(ws[i].get_all_spoken_languages())),
            },
        };
        match found {
            None => Err(self.invalid("get_license")),
            Some(None) => Err(Error::WorkshopNotFound(owned(name))),
            Some(Some(langs)) => {
                self.push_state(
                    State::ShowSpokenLanguages { name: owned(name), spoken_languages: langs },
                );
                Ok(())
            },
        }
    }

    /// Shows the programming languages of a workshop.
    pub fn get_programming_languages(&mut self, name: &str) -> (r: Result<(), Error>)
        requires
            old(self)@.state.len() > 0,
        ensures
            (final(self)@, done_view(r)) == programming_languages_step(old(self)@, name@),
    {
        let found = match self.current_workshops() {
            None => None,
            Some(ws) => match find_workshop(ws, name) {
                None => Some(None),
                Some(i) => {
                    let langs = ws[i].get_all_programming_languages();
                    proof {
                        let w = ws@[i as int]@;
                        assert forall|c: programming::Code| langs@.contains(c) <==> #[trigger]
                            crate::catalog::some_offers_programming(seq![w], c) by {
                            if crate::models::workshop::offers_programming(w.setup_instructions, c) {
                                assert(crate::models::workshop::offers_programming(
                                    seq![w][0].setup_instructions,
                                    c,
                                ));
                            }
                        }
                        lemma_programming_list(seq![w], langs@);
                    }
                    Some(Some(langs))
                },
            },
        };
        match found {
            None => Err(self.invalid("get_license")),
            Some(None) => Err(Error::WorkshopNotFound(owned(name))),
            Some(Some(langs)) => {
                self.push_state(
                    State::ShowProgrammingLanguages {
                        name: owned(name),
                        programming_languages: langs,
                    },
                );
                Ok(())
            },
        }
    }

    /// Offers the spoken languages of the workshops on offer.
    pub fn change_spoken_language(&mut self) -> (r: Result<(), Error>)
        requires
            old(self)@.state.len() > 0,
        ensures
            (final(self)@, done_view(r)) == change_spoken_step(old(self)@),
    {
        let langs = match self.current_workshops() {
            None => None,
            Some(ws) => Some(all_spoken_languages(ws)),
        };
        match langs {
            None => Err(self.invalid("change_spoken_language")),
            Some(l) => {
                self.push_state(State::SelectSpokenLanguage { spoken_languages: l });
                Ok(())
            },
        }
    }

    /// Offers the programming languages of the workshops on offer.
    pub fn change_programming_language(&mut self) -> (r: Result<(), Error>)
        requires
            old(self)@.state.len() > 0,
        ensures
            (final(self)@, done_view(r)) == change_programming_step(old(self)@),
    {
        let langs = match self.current_workshops() {
            None => None,
            Some(ws) => Some(all_programming_languages(ws)),
        };
        match langs {
            None => Err(self.invalid("change_programming_language")),
            Some(l) => {
                self.push_state(State::SelectProgrammingLanguage { programming_languages: l });
                Ok(())
            },
        }
    }

    /// Whether the current state is the workshop choice.
    fn at_workshop_choice(&self) -> (r: bool)
        requires
            self@.state.len() > 0,
        ensures
            r == (self@.state.last() is SelectWorkshop),
    {
        self.current_workshops().is_some()
    }

    /// Chooses the spoken language, given the workshops read from the data directory.
    pub fn set_spoken_language(
        &mut self,
        spoken_language: Option<spoken::Code>,
        workshops: Result<Vec<WorkshopData>, Error>,
    ) -> (r: Result<(), Error>)
        requires
            old(self)@.state.len() > 0,
        ensures
            (final(self)@, done_view(r)) == set_spoken_step(
                old(self)@,
                spoken_language,
                loaded_view(workshops),
            ),
    {
        let n = self.state.len();
        proof {
            lemma_states_pop(self.state@);
        }
        let selecting = match &self.state[n - 1] {
            State::SelectSpokenLanguage { .. } => true,
            _ => false,
        };
        if !selecting {
            return Err(self.invalid("set_spoken_language"));
        }
        self.pop_state();
        self.spoken_language = spoken_language;
        if self.state.len() > 0 && self.at_workshop_choice() {
            self.pop_state();
            match workshops {
                Err(e) => Err(e),
                Ok(ws) => {
                    let selected = all_workshops_filtered(
                        ws,
                        self.spoken_language,
                        self.programming_language,
                    );
                    self.push_state(State::SelectWorkshop { workshops_data: selected });
                    self.push_state(State::SetSpokenLanguageDefault { spoken_language });
                    Ok(())
                },
            }
        } else {
            Ok(())
        }
    }

    /// Chooses the programming language, given the workshops read from the data directory.
    pub fn set_programming_language(
        &mut self,
        programming_language: Option<programming::Code>,
        workshops: Result<Vec<WorkshopData>, Error>,
    ) -> (r: Result<(), Error>)
        requires
            old(self)@.state.len() > 0,
        ensures
            (final(self)@, done_view(r)) == set_programming_step(
                old(self)@,
                programming_language,
                loaded_view(workshops),
            ),
    {
        let n = self.state.len();
        proof {
            lemma_states_pop(self.state@);
        }
        let selecting = match &self.state[n - 1] {
            State::SelectProgrammingLanguage { .. } => true,
            _ => false,
        };
        if !selecting {
            return Err(self.invalid("set_programming_language"));
        }
        self.pop_state();
        self.programming_language = programming_language;
        if self.state.len() > 0 && self.at_workshop_choice() {
            self.pop_state();
            match workshops {
                Err(e) => Err(e),
                Ok(ws) => {
                    let selected = all_workshops_filtered(
                        ws,
                        self.spoken_language,
                        self.programming_language,
                    );
                    self.push_state(State::SelectWorkshop { workshops_data: selected });
                    self.push_state(State::SetProgrammingLanguageDefault { programming_language });
                    Ok(())
                },
            }
        } else {
            Ok(())
        }
    }

    /// Chooses a workshop, given its lessons as read.
    pub fn set_workshop(&mut self, name: &str, lessons: Result<Vec<LessonData>, Error>) -> (r:
        Result<(), Error>)
        requires
            old(self)@.state.len() > 0,
        ensures
            (final(self)@, done_view(r)) == set_workshop_step(
                old(self)@,
                name@,
                lessons_loaded_view(lessons),
            ),
    {
        let found = match self.current_workshops() {
            None => None,
            Some(ws) => match find_workshop(ws, name) {
                None => Some(None),
                Some(i) => Some(Some(owned(ws[i].get_name()))),
            },
        };
        match found {
            None => Err(self.invalid("set_workshop")),
            Some(None) => Err(Error::WorkshopNotFound(owned(name))),
            Some(Some(chosen)) => {
                self.workshop = Some(chosen);
                match lessons {
                    Err(e) => Err(e),
                    Ok(ls) => {
                        self.push_state(State::SelectLesson { lessons_data: ls });
                        Ok(())
                    },
                }
            },
        }
    }

    /// Chooses a lesson.
    pub fn set_lesson(&mut self, name: &str) -> (r: Result<(), Error>)
        requires
            old(self)@.state.len() > 0,
        ensures
            (final(self)@, done_view(r)) == set_lesson_step(old(self)@, name@),
    {
        let n = self.state.len();
        proof {
            lemma_states_pop(self.state@);
        }
        let choosing = match &self.state[n - 1] {
            State::SelectLesson { .. } => true,
            _ => false,
        };
        if choosing {
            self.lesson = Some(owned(name));
            Ok(())
        } else {
            Err(self.invalid("set_lesson"))
        }
    }

    /// Goes back to the previous state.
    pub fn back(&mut self) -> (r: Result<(), Error>)
        requires
            old(self)@.state.len() > 0,
        ensures
            (final(self)@, done_view(r)) == back_step(old(self)@),
    {
        if self.state.len() > 1 {
            self.pop_state();
            Ok(())
        } else {
            Err(self.invalid("back"))
        }
    }

    /// Quits.
    pub fn quit(&mut self) -> (r: Result<(), Error>)
        ensures
            (final(self)@, done_view(r)) == quit_step(old(self)@),
    {
        self.push_state(State::Quit);
        Ok(())
    }

    /// Records an error as the current state.
    pub fn fail(&mut self, e: &Error)
        ensures
            final(self)@ == fail_step(old(self)@, e@),
    {
        self.push_state(State::Error(e.message()));
    }
}

/// Values by name, with the names by value.
pub open spec fn named_view<T>(s: Seq<(String, T)>) -> Seq<(Seq<char>, T)> {
    Seq::new(s.len(), |i: int| (s[i].0@, s[i].1))
}

/// Texts by name, by value.
pub open spec fn texts_view(s: Seq<(String, String)>) -> Seq<(Seq<char>, Seq<char>)> {
    Seq::new(s.len(), |i: int| (s[i].0@, s[i].1@))
}

/// What the engine tells the user interface.
pub enum Message {
    /// Choose a workshop among these, each by its name with its metadata.
    SelectWorkshop {
        workshops: Vec<(String, Workshop)>,
        spoken_language: Option<spoken::Code>,
        programming_language: Option<programming::Code>,
    },
    /// A workshop's description.
    ShowWorkshopDescription { name: String, text: String },
    /// A workshop's setup instructions.
    ShowWorkshopSetupInstructions { name: String, text: String },
    /// A workshop's spoken languages.
    ShowWorkshopSpokenLanguages { name: String, spoken_languages: Vec<spoken::Code> },
    /// A workshop's programming languages.
    ShowWorkshopProgrammingLanguages { name: String, programming_languages: Vec<programming::Code> },
    /// Choose a lesson among these, each by its name with its metadata, and the lessons' texts
    /// by name.
    SelectLesson {
        lessons: Vec<(String, LessonMeta)>,
        lesson_texts: Vec<(String, String)>,
        spoken_language: Option<spoken::Code>,
        programming_language: Option<programming::Code>,
    },
    /// A license text.
    ShowLicense { text: String },
    /// Choose a spoken language.
    SelectSpokenLanguage {
        spoken_languages: Vec<spoken::Code>,
        spoken_language: Option<spoken::Code>,
    },
    /// Should the spoken language become the default?
    SetSpokenLanguageDefault { spoken_language: Option<spoken::Code> },
    /// Choose a programming language.
    SelectProgrammingLanguage {
        programming_languages: Vec<programming::Code>,
        programming_language: Option<programming::Code>,
    },
    /// Should the programming language become the default?
    SetProgrammingLanguageDefault { programming_language: Option<programming::Code> },
    /// An error occurred.
    Error { error: String },
    /// The engine quits.
    Quit,
}

/// A message by value.
pub enum MessageView {
    SelectWorkshop(Seq<(Seq<char>, Workshop)>, Option<spoken::Code>, Option<programming::Code>),
    ShowWorkshopDescription(Seq<char>, Seq<char>),
    ShowWorkshopSetupInstructions(Seq<char>, Seq<char>),
    ShowWorkshopSpokenLanguages(Seq<char>, Seq<spoken::Code>),
    ShowWorkshopProgrammingLanguages(Seq<char>, Seq<programming::Code>),
    SelectLesson(
        Seq<(Seq<char>, LessonMeta)>,
        Seq<(Seq<char>, Seq<char>)>,
        Option<spoken::Code>,
        Option<programming::Code>,
    ),
    ShowLicense(Seq<char>),
    SelectSpokenLanguage(Seq<spoken::Code>, Option<spoken::Code>),
    SetSpokenLanguageDefault(Option<spoken::Code>),
    SelectProgrammingLanguage(Seq<programming::Code>, Option<programming::Code>),
    SetProgrammingLanguageDefault(Option<programming::Code>),
    Error(Seq<char>),
    Quit,
}

impl View for Message {
    type V = MessageView;

    open spec fn view(&self) -> MessageView {
        match self {
            Message::SelectWorkshop {
                workshops,
                spoken_language,
                programming_language,
            } => MessageView::SelectWorkshop(
                named_view(workshops@),
                *spoken_language,
                *programming_language,
            ),
            Message::ShowWorkshopDescription { name, text } => MessageView::ShowWorkshopDescription(
                name@,
                text@,
            ),
            Message::ShowWorkshopSetupInstructions {
                name,
                text,
            } => MessageView::ShowWorkshopSetupInstructions(name@, text@),
            Message::ShowWorkshopSpokenLanguages {
                name,
                spoken_languages,
            } => MessageView::ShowWorkshopSpokenLanguages(name@, spoken_languages@),
            Message::ShowWorkshopProgrammingLanguages {
                name,
                programming_languages,
            } => MessageView::ShowWorkshopProgrammingLanguages(name@, programming_languages@),
            Message::SelectLesson {
                lessons,
                lesson_texts,
                spoken_language,
                programming_language,
            } => MessageView::SelectLesson(
                named_view(lessons@),
                texts_view(lesson_texts@),
                *spoken_language,
                *programming_language,
            ),
            Message::ShowLicense { text } => MessageView::ShowLicense(text@),
            Message::SelectSpokenLanguage {
                spoken_languages,
                spoken_language,
            } => MessageView::SelectSpokenLanguage(spoken_languages@, *spoken_language),
            Message::SetSpokenLanguageDefault {
                spoken_language,
            } => MessageView::SetSpokenLanguageDefault(*spoken_language),
            Message::SelectProgrammingLanguage {
                programming_languages,
                programming_language,
            } => MessageView::SelectProgrammingLanguage(
                programming_languages@,
                *programming_language,
            ),
            Message::SetProgrammingLanguageDefault {
                programming_language,
            } => MessageView::SetProgrammingLanguageDefault(*programming_language),
            Message::Error { error } => MessageView::Error(error@),
            Message::Quit => MessageView::Quit,
        }
    }
}


/// The names of workshops, in order.
pub open spec fn workshop_names(ws: Seq<WorkshopDataView>) -> Seq<Seq<char>> {
    Seq::new(ws.len(), |i: int| ws[i].name)
}

/// The names of lessons, in order.
pub open spec fn lesson_names(ls: Seq<LessonDataView>) -> Seq<Seq<char>> {
    Seq::new(ls.len(), |i: int| ls[i].name)
}

/// What the engine puts out next: a message for the user interface, or, for the workshop or
/// lesson choice, the names whose metadata (and lesson texts) are to be read for it.
pub enum Outgoing {
    Tell(Message),
    ReadWorkshops(Vec<String>),
    ReadLessons(Vec<String>),
}

/// What the engine puts out, by value.
pub enum OutgoingView {
    Tell(MessageView),
    ReadWorkshops(Seq<Seq<char>>),
    ReadLessons(Seq<Seq<char>>),
}

impl View for Outgoing {
    type V = OutgoingView;

    open spec fn view(&self) -> OutgoingView {
        match self {
            Outgoing::Tell(m) => OutgoingView::Tell(m@),
            Outgoing::ReadWorkshops(n) => OutgoingView::ReadWorkshops(strings_view(n@)),
            Outgoing::ReadLessons(n) => OutgoingView::ReadLessons(strings_view(n@)),
        }
    }
}

/// An optional output by value.
pub open spec fn opt_outgoing(o: Option<Outgoing>) -> Option<OutgoingView> {
    match o {
        Some(o) => Some(o@),
        None => None,
    }
}

/// A message to tell.
pub open spec fn tell(m: MessageView) -> Option<OutgoingView> {
    Some(OutgoingView::Tell(m))
}

/// What the engine puts out in its current state. A shown description, setup text or language
/// list is told once: that state is left for the one below. The workshop and lesson choices are
/// told once what they show has been read: their names are put out for that.
pub open spec fn send_step(v: EngineView) -> (EngineView, Option<OutgoingView>) {
    if v.state.len() == 0 {
        (v, None)
    } else {
        let below = with_stack(v, v.state.drop_last());
        match v.state.last() {
            StateView::Nil => (v, None),
            StateView::SelectWorkshop(ws) => (
                v,
                Some(OutgoingView::ReadWorkshops(workshop_names(ws))),
            ),
            StateView::ShowDescription(n, t) => (
                below,
                tell(MessageView::ShowWorkshopDescription(n, t)),
            ),
            StateView::ShowSetupInstructions(n, t) => (
                below,
                tell(MessageView::ShowWorkshopSetupInstructions(n, t)),
            ),
            StateView::ShowSpokenLanguages(n, l) => (
                below,
                tell(MessageView::ShowWorkshopSpokenLanguages(n, l)),
            ),
            StateView::ShowProgrammingLanguages(n, l) => (
                below,
                tell(MessageView::ShowWorkshopProgrammingLanguages(n, l)),
            ),
            StateView::ShowLicense(t) => (v, tell(MessageView::ShowLicense(t))),
            StateView::SelectSpokenLanguage(l) => (
                v,
                tell(MessageView::SelectSpokenLanguage(l, v.spoken_language)),
            ),
            StateView::SetSpokenLanguageDefault(s) => (
                v,
                tell(MessageView::SetSpokenLanguageDefault(s)),
            ),
            StateView::SelectProgrammingLanguage(l) => (
                v,
                tell(MessageView::SelectProgrammingLanguage(l, v.programming_language)),
            ),
            StateView::SetProgrammingLanguageDefault(p) => (
                v,
                tell(MessageView::SetProgrammingLanguageDefault(p)),
            ),
            StateView::SelectLesson(ls) => (v, Some(OutgoingView::ReadLessons(lesson_names(ls)))),
            StateView::CheckLesson => (v, None),
            StateView::LessonComplete => (v, None),
            StateView::LessonIncomplete => (v, None),
            StateView::Error(e) => (v, tell(MessageView::Error(e))),
            StateView::Quit => (v, tell(MessageView::Quit)),
        }
    }
}

/// The names of workshops.
fn names_of_workshops(ws: &Vec<WorkshopData>) -> (r: Vec<String>)
    ensures
        strings_view(r@) == workshop_names(workshops_view(ws@)),
{
    let mut r: Vec<String> = Vec::new();
    let mut i: usize = 0;
    while i < ws.len()
        invariant
            i <= ws.len(),
            strings_view(r@) == workshop_names(workshops_view(ws@)).take(i as int),
        decreases ws.len() - i,
    {
        let ghost before = r@;
        r.push(owned(ws[i].get_name()));
        proof {
            assert(strings_view(r@) =~= strings_view(before).push(ws@[i as int]@.name));
            assert(workshop_names(workshops_view(ws@)).take(i + 1) =~= workshop_names(
                workshops_view(ws@),
            ).take(i as int).push(ws@[i as int]@.name));
        }
        i = i + 1;
    }
    proof {
        assert(workshop_names(workshops_view(ws@)).take(ws.len() as int) =~= workshop_names(
            workshops_view(ws@),
        ));
    }
    r
}

/// The names of lessons.
fn names_of_lessons(ls: &Vec<LessonData>) -> (r: Vec<String>)
    ensures
        strings_view(r@) == lesson_names(lessons_view(ls@)),
{
    let mut r: Vec<String> = Vec::new();
    let mut i: usize = 0;
    while i < ls.len()
        invariant
            i <= ls.len(),
            strings_view(r@) == lesson_names(lessons_view(ls@)).take(i as int),
        decreases ls.len() - i,
    {
        let ghost before = r@;
        r.push(owned(ls[i].get_name()));
        proof {
            assert(strings_view(r@) =~= strings_view(before).push(ls@[i as int]@.name));
            assert(lesson_names(lessons_view(ls@)).take(i + 1) =~= lesson_names(
                lessons_view(ls@),
            ).take(i as int).push(ls@[i as int]@.name));
        }
        i = i + 1;
    }
    proof {
        assert(lesson_names(lessons_view(ls@)).take(ls.len() as int) =~= lesson_names(
            lessons_view(ls@),
        ));
    }
    r
}

impl Engine {
    /// What to put out in the current state; a shown description, setup text or language list
    /// is left for the state below.
    pub fn send_message(&mut self) -> (r: Option<Outgoing>)
        ensures
            (final(self)@, opt_outgoing(r)) == send_step(old(self)@),
    {
        let n = self.state.len();
        if n == 0 {
            return None;
        }
        proof {
            lemma_states_pop(self.state@);
        }
        let told_once = match &self.state[n - 1] {
            State::ShowDescription { .. } => true,
            State::ShowSetupInstructions { .. } => true,
            State::ShowSpokenLanguages { .. } => true,
            State::ShowProgrammingLanguages { .. } => true,
            _ => false,
        };
        if told_once {
            let ghost st0 = self.state@;
            let top = self.state.pop();
            proof {
                lemma_states_pop(st0);
                assert(self.state@ =~= st0.drop_last());
            }
            return match top {
                Some(State::ShowDescription { name, text }) => Some(
                    Outgoing::Tell(Message::ShowWorkshopDescription { name, text }),
                ),
                Some(State::ShowSetupInstructions { name, text }) => Some(
                    Outgoing::Tell(Message::ShowWorkshopSetupInstructions { name, text }),
                ),
                Some(State::ShowSpokenLanguages { name, spoken_languages }) => Some(
                    Outgoing::Tell(Message::ShowWorkshopSpokenLanguages { name, spoken_languages }),
                ),
                Some(State::ShowProgrammingLanguages { name, programming_languages }) => Some(
                    Outgoing::Tell(Message::ShowWorkshopProgrammingLanguages { name, programming_languages }),
                ),
                _ => None,
            };
        }
        match &self.state[n - 1] {
            State::SelectWorkshop { workshops_data } => Some(
                Outgoing::ReadWorkshops(names_of_workshops(workshops_data)),
            ),
            State::ShowLicense { license_text } => Some(Outgoing::Tell(
                Message::ShowLicense { text: owned(license_text.as_str()) }),
            ),
            State::SelectSpokenLanguage { spoken_languages } => Some(Outgoing::Tell(
                Message::SelectSpokenLanguage {
                    spoken_languages: copy_vec(spoken_languages),
                    spoken_language: self.spoken_language,
                }),
            ),
            State::SetSpokenLanguageDefault { spoken_language } => Some(Outgoing::Tell(
                Message::SetSpokenLanguageDefault { spoken_language: *spoken_language }),
            ),
            State::SelectProgrammingLanguage { programming_languages } => Some(Outgoing::Tell(
                Message::SelectProgrammingLanguage {
                    programming_languages: copy_vec(programming_languages),
                    programming_language: self.programming_language,
                }),
            ),
            State::SetProgrammingLanguageDefault { programming_language } => Some(Outgoing::Tell(
                Message::SetProgrammingLanguageDefault { programming_language: *programming_language }),
            ),
            State::SelectLesson { lessons_data } => Some(
                Outgoing::ReadLessons(names_of_lessons(lessons_data)),
            ),
            State::Error(e) => Some(Outgoing::Tell(Message::Error { error: owned(e.as_str()) })),
            State::Quit => Some(Outgoing::Tell(Message::Quit)),
            _ => None,
        }
    }
}

/// A request from the user interface, with what was read from disk for it.
pub enum Request {
    /// Configure the engine; the workshops as read from the data directory.
    Config {
        data_dir: String,
        pwd: String,
        spoken_language: Option<spoken::Code>,
        programming_language: Option<programming::Code>,
        workshops: Result<Vec<WorkshopData>, Error>,
    },
    /// Show a workshop's description, as read.
    GetWorkshopDescription { name: String, text: Result<String, Error> },
    /// Show a workshop's setup instructions, as read.
    GetWorkshopSetupInstructions { name: String, text: Result<String, Error> },
    /// Show a workshop's spoken languages.
    GetWorkshopSpokenLanguages { name: String },
    /// Show a workshop's programming languages.
    GetWorkshopProgrammingLanguages { name: String },
    /// Show a workshop's license, as read.
    GetLicense { name: String, text: Result<String, Error> },
    /// Offer the spoken languages.
    ChangeSpokenLanguage,
    /// Choose the spoken language; the workshops as read from the data directory.
    SetSpokenLanguage {
        spoken_language: Option<spoken::Code>,
        workshops: Result<Vec<WorkshopData>, Error>,
    },
    /// Offer the programming languages.
    ChangeProgrammingLanguage,
    /// Choose the programming language; the workshops as read from the data directory.
    SetProgrammingLanguage {
        programming_language: Option<programming::Code>,
        workshops: Result<Vec<WorkshopData>, Error>,
    },
    /// Choose a workshop; its lessons as read.
    SetWorkshop { name: String, lessons: Result<Vec<LessonData>, Error> },
    /// Go back.
    Back,
    /// Quit.
    Quit,
    /// Choose a lesson; the engine takes it without a change.
    SetLesson { name: String },
    /// A log line; the engine takes it without a change.
    Log { msg: String },
}

/// A request by value.
pub enum RequestView {
    Config(
        Seq<char>,
        Seq<char>,
        Option<spoken::Code>,
        Option<programming::Code>,
        Result<Seq<WorkshopDataView>, ErrorView>,
    ),
    GetWorkshopDescription(Seq<char>, Result<Seq<char>, ErrorView>),
    GetWorkshopSetupInstructions(Seq<char>, Result<Seq<char>, ErrorView>),
    GetWorkshopSpokenLanguages(Seq<char>),
    GetWorkshopProgrammingLanguages(Seq<char>),
    GetLicense(Seq<char>, Result<Seq<char>, ErrorView>),
    ChangeSpokenLanguage,
    SetSpokenLanguage(Option<spoken::Code>, Result<Seq<WorkshopDataView>, ErrorView>),
    ChangeProgrammingLanguage,
    SetProgrammingLanguage(Option<programming::Code>, Result<Seq<WorkshopDataView>, ErrorView>),
    SetWorkshop(Seq<char>, Result<Seq<LessonDataView>, ErrorView>),
    Back,
    Quit,
    SetLesson(Seq<char>),
    Log(Seq<char>),
}

impl View for Request {
    type V = RequestView;

    open spec fn view(&self) -> RequestView {
        match self {
            Request::Config {
                data_dir,
                pwd,
                spoken_language,
                programming_language,
                workshops,
            } => RequestView::Config(
                data_dir@,
                pwd@,
                *spoken_language,
                *programming_language,
                loaded_view(*workshops),
            ),
            Request::GetWorkshopDescription { name, text } => RequestView::GetWorkshopDescription(
                name@,
                text_view(*text),
            ),
            Request::GetWorkshopSetupInstructions {
                name,
                text,
            } => RequestView::GetWorkshopSetupInstructions(name@, text_view(*text)),
            Request::GetWorkshopSpokenLanguages { name } => RequestView::GetWorkshopSpokenLanguages(
                name@,
            ),
            Request::GetWorkshopProgrammingLanguages {
                name,
            } => RequestView::GetWorkshopProgrammingLanguages(name@),
            Request::GetLicense { name, text } => RequestView::GetLicense(name@, text_view(*text)),
            Request::ChangeSpokenLanguage => RequestView::ChangeSpokenLanguage,
            Request::SetSpokenLanguage {
                spoken_language,
                workshops,
            } => RequestView::SetSpokenLanguage(*spoken_language, loaded_view(*workshops)),
            Request::ChangeProgrammingLanguage => RequestView::ChangeProgrammingLanguage,
            Request::SetProgrammingLanguage {
                programming_language,
                workshops,
            } => RequestView::SetProgrammingLanguage(*programming_language, loaded_view(*workshops)),
            Request::SetWorkshop { name, lessons } => RequestView::SetWorkshop(
                name@,
                lessons_loaded_view(*lessons),
            ),
            Request::Back => RequestView::Back,
            Request::Quit => RequestView::Quit,
            Request::SetLesson { name } => RequestView::SetLesson(name@),
            Request::Log { msg } => RequestView::Log(msg@),
        }
    }
}

/// What a request does to the engine.
pub open spec fn handle_step(v: EngineView, q: RequestView) -> Outcome {
    match q {
        RequestView::Config(d, p, s, pl, ws) => config_step(v, d, p, s, pl, ws),
        RequestView::GetWorkshopDescription(n, t) => description_step(v, n, t),
        RequestView::GetWorkshopSetupInstructions(n, t) => setup_step(v, n, t),
        RequestView::GetWorkshopSpokenLanguages(n) => spoken_languages_step(v, n),
        RequestView::GetWorkshopProgrammingLanguages(n) => programming_languages_step(v, n),
        RequestView::GetLicense(n, t) => license_step(v, n, t),
        RequestView::ChangeSpokenLanguage => change_spoken_step(v),
        RequestView::SetSpokenLanguage(s, ws) => set_spoken_step(v, s, ws),
        RequestView::ChangeProgrammingLanguage => change_programming_step(v),
        RequestView::SetProgrammingLanguage(p, ws) => set_programming_step(v, p, ws),
        RequestView::SetWorkshop(n, ls) => set_workshop_step(v, n, ls),
        RequestView::Back => back_step(v),
        RequestView::Quit => quit_step(v),
        RequestView::SetLesson(_) => (v, Ok(())),
        RequestView::Log(_) => (v, Ok(())),
    }
}

/// The engine's answer to a request.
pub enum Reply {
    /// Tell the user interface this.
    Send(Message),
    /// Read the metadata of these workshops, to tell the workshop choice.
    ReadWorkshops(Vec<String>),
    /// Read the metadata and texts of these lessons, to tell the lesson choice.
    ReadLessons(Vec<String>),
    /// Nothing to tell.
    Silent,
    /// The engine has quit.
    Stop,
}

/// An answer by value.
pub enum ReplyView {
    Send(MessageView),
    ReadWorkshops(Seq<Seq<char>>),
    ReadLessons(Seq<Seq<char>>),
    Silent,
    Stop,
}

impl View for Reply {
    type V = ReplyView;

    open spec fn view(&self) -> ReplyView {
        match self {
            Reply::Send(m) => ReplyView::Send(m@),
            Reply::ReadWorkshops(n) => ReplyView::ReadWorkshops(strings_view(n@)),
            Reply::ReadLessons(n) => ReplyView::ReadLessons(strings_view(n@)),
            Reply::Silent => ReplyView::Silent,
            Reply::Stop => ReplyView::Stop,
        }
    }
}

/// A request and its answer: a refused request is recorded as an error, and the current state
/// is then told to the user interface; quitting ends the engine with nothing told.
pub open spec fn reply_step(v: EngineView, q: RequestView) -> (EngineView, ReplyView) {
    if q is Quit {
        (quit_step(v).0, ReplyView::Stop)
    } else {
        let sent = send_step(settle(handle_step(v, q)));
        (
            sent.0,
            match sent.1 {
                Some(OutgoingView::Tell(m)) => ReplyView::Send(m),
                Some(OutgoingView::ReadWorkshops(n)) => ReplyView::ReadWorkshops(n),
                Some(OutgoingView::ReadLessons(n)) => ReplyView::ReadLessons(n),
                None => ReplyView::Silent,
            },
        )
    }
}

impl Engine {
    /// Takes a request from the user interface and answers it.
    pub fn handle(&mut self, req: Request) -> (r: Reply)
        requires
            old(self)@.state.len() > 0,
        ensures
            (final(self)@, r@) == reply_step(old(self)@, req@),
    {
        let outcome = match req {
            Request::Config {
                data_dir,
                pwd,
                spoken_language,
                programming_language,
                workshops,
            } => self.config(
                data_dir.as_str(),
                pwd.as_str(),
                spoken_language,
                programming_language,
                workshops,
            ),
            Request::GetWorkshopDescription { name, text } => self.get_description(
                name.as_str(),
                text,
            ),
            Request::GetWorkshopSetupInstructions { name, text } => self.get_setup_instructions(
                name.as_str(),
                text,
            ),
            Request::GetWorkshopSpokenLanguages { name } => self.get_spoken_languages(
                name.as_str(),
            ),
            Request::GetWorkshopProgrammingLanguages { name } => self.get_programming_languages(
                name.as_str(),
            ),
            Request::GetLicense { name, text } => self.get_license(name.as_str(), text),
            Request::ChangeSpokenLanguage => self.change_spoken_language(),
            Request::SetSpokenLanguage { spoken_language, workshops } => self.set_spoken_language(
                spoken_language,
                workshops,
            ),
            Request::ChangeProgrammingLanguage => self.change_programming_language(),
            Request::SetProgrammingLanguage {
                programming_language,
                workshops,
            } => self.set_programming_language(programming_language, workshops),
            Request::SetWorkshop { name, lessons } => self.set_workshop(name.as_str(), lessons),
            Request::Back => self.back(),
            Request::Quit => {
                let _ = self.quit();
                return Reply::Stop;
            },
            Request::SetLesson { .. } => Ok(()),
            Request::Log { .. } => Ok(()),
        };
        if let Err(e) = &outcome {
            self.fail(e);
        }
        match self.send_message() {
            Some(Outgoing::Tell(m)) => Reply::Send(m),
            Some(Outgoing::ReadWorkshops(n)) => Reply::ReadWorkshops(n),
            Some(Outgoing::ReadLessons(n)) => Reply::ReadLessons(n),
            None => Reply::Silent,
        }
    }

    /// The depth of the stack of states.
    pub fn depth(&self) -> (r: usize)
        ensures
            r == self@.state.len(),
    {
        self.state.len()
    }

    /// The chosen spoken language.
    pub fn spoken_language(&self) -> (r: Option<spoken::Code>)
        ensures
            r == self@.spoken_language,
    {
        self.spoken_language
    }

    /// The chosen programming language.
    pub fn programming_language(&self) -> (r: Option<programming::Code>)
        ensures
            r == self@.programming_language,
    {
        self.programming_language
    }

    /// The chosen workshop.
    pub fn workshop(&self) -> (r: Option<&str>)
        ensures
            match r {
                Some(t) => self@.workshop == Some(t@),
                None => self@.workshop is None,
            },
    {
        match &self.workshop {
            Some(t) => Some(t.as_str()),
            None => None,
        }
    }

    /// The chosen lesson.
    pub fn lesson(&self) -> (r: Option<&str>)
        ensures
            match r {
                Some(t) => self@.lesson == Some(t@),
                None => self@.lesson is None,
            },
    {
        match &self.lesson {
            Some(t) => Some(t.as_str()),
            None => None,
        }
    }

    /// The directories of the engine.
    pub fn fs(&self) -> (r: &Fs)
        ensures
            r@ == self@.fs,
    {
        &self.fs
    }

    /// The lessons of the current state, when it is the lesson choice, for reading their texts.
    pub fn lessons(&self) -> (r: Option<&Vec<LessonData>>)
        requires
            self@.state.len() > 0,
        ensures
            match self@.state.last() {
                StateView::SelectLesson(ls) => r is Some && lessons_view(r->Some_0@) == ls,
                _ => r is None,
            },
    {
        let n = self.state.len();
        proof {
            lemma_states_pop(self.state@);
        }
        match &self.state[n - 1] {
            State::SelectLesson { lessons_data } => Some(lessons_data),
            _ => None,
        }
    }
}

/// States that only make sense on top of the workshop choice.
pub open spec fn over_workshops(s: StateView) -> bool {
    ||| s is ShowDescription
    ||| s is ShowSetupInstructions
    ||| s is ShowSpokenLanguages
    ||| s is ShowProgrammingLanguages
    ||| s is ShowLicense
    ||| s is SelectSpokenLanguage
    ||| s is SelectProgrammingLanguage
    ||| s is SetSpokenLanguageDefault
    ||| s is SetProgrammingLanguageDefault
    ||| s is SelectLesson
}

/// Every state that belongs on top of the workshop choice is on top of it, and `Nil` is only
/// ever at the bottom.
pub open spec fn stack_ok(st: Seq<StateView>) -> bool {
    &&& forall|k: int|
        0 <= k < st.len() && over_workshops(#[trigger] st[k]) ==> k > 0 && st[k - 1] is SelectWorkshop
    &&& forall|k: int| 0 < k < st.len() ==> !(#[trigger] st[k] is Nil)
}

/// The engine has a current state, and its stack is in order.
pub open spec fn engine_inv(v: EngineView) -> bool {
    v.state.len() > 0 && stack_ok(v.state)
}

proof fn lemma_stack_push(st: Seq<StateView>, x: StateView)
    requires
        stack_ok(st),
        st.len() > 0 ==> !(x is Nil),
        over_workshops(x) ==> st.len() > 0 && st.last() is SelectWorkshop,
    ensures
        stack_ok(st.push(x)),
{
    let t = st.push(x);
    assert forall|k: int| 0 <= k < t.len() && over_workshops(#[trigger] t[k]) implies k > 0 && t[k
        - 1] is SelectWorkshop by {
        if k < st.len() {
            assert(t[k] == st[k]);
            assert(t[k - 1] == st[k - 1]);
        }
    }
    assert forall|k: int| 0 < k < t.len() implies !(#[trigger] t[k] is Nil) by {
        if k < st.len() {
            assert(t[k] == st[k]);
        }
    }
}

proof fn lemma_stack_pop(st: Seq<StateView>)
    requires
        stack_ok(st),
        st.len() > 0,
    ensures
        stack_ok(st.drop_last()),
{
    let t = st.drop_last();
    assert forall|k: int| 0 <= k < t.len() && over_workshops(#[trigger] t[k]) implies k > 0 && t[k
        - 1] is SelectWorkshop by {
        assert(t[k] == st[k]);
    }
    assert forall|k: int| 0 < k < t.len() implies !(#[trigger] t[k] is Nil) by {
        assert(t[k] == st[k]);
    }
}

proof fn lemma_settle_keeps_inv(v: EngineView, o: Outcome)
    requires
        stack_ok(o.0.state),
        o.1 is Ok ==> o.0.state.len() > 0,
    ensures
        engine_inv(settle(o)),
{
    if o.1 is Err {
        lemma_stack_push(o.0.state, StateView::Error(error_text(o.1->Err_0)));
    }
}

/// Every request keeps the engine's stack in order, with a current state: a refused request
/// leaves its error on top, and telling a shown text leaves the state below it. So the engine
/// always has a state to answer the next request from.
pub proof fn lemma_reply_keeps_inv(v: EngineView, q: RequestView)
    requires
        engine_inv(v),
    ensures
        engine_inv(reply_step(v, q).0),
{
    let st = v.state;
    let top = st.last();
    assert(top == st[st.len() - 1]);
    let o = handle_step(v, q);
    match q {
        RequestView::Config(d, p, s, pl, ws) => {
            if top is Nil {
                assert(st.len() == 1);
                assert(st.drop_last() =~= Seq::<StateView>::empty());
                if ws is Ok {
                    lemma_stack_push(st.drop_last(), StateView::SelectWorkshop(selected_workshops(ws->Ok_0, s, pl)));
                }
            }
            lemma_settle_keeps_inv(v, o);
        },
        RequestView::GetWorkshopDescription(n, t) => {
            if top is SelectWorkshop && find_named(top->SelectWorkshop_0, n) is Some && t is Ok {
                lemma_stack_push(st, StateView::ShowDescription(n, t->Ok_0));
            }
            lemma_settle_keeps_inv(v, o);
        },
        RequestView::GetWorkshopSetupInstructions(n, t) => {
            if top is SelectWorkshop && find_named(top->SelectWorkshop_0, n) is Some && t is Ok {
                lemma_stack_push(st, StateView::ShowSetupInstructions(n, t->Ok_0));
            }
            lemma_settle_keeps_inv(v, o);
        },
        RequestView::GetWorkshopSpokenLanguages(n) => {
            if top is SelectWorkshop && find_named(top->SelectWorkshop_0, n) is Some {
                let w = find_named(top->SelectWorkshop_0, n)->Some_0;
                lemma_stack_push(st, StateView::ShowSpokenLanguages(n, keys(w.setup_instructions)));
            }
            lemma_settle_keeps_inv(v, o);
        },
        RequestView::GetWorkshopProgrammingLanguages(n) => {
            if top is SelectWorkshop && find_named(top->SelectWorkshop_0, n) is Some {
                let w = find_named(top->SelectWorkshop_0, n)->Some_0;
                lemma_stack_push(st, StateView::ShowProgrammingLanguages(n, workshop_programming(w)));
            }
            lemma_settle_keeps_inv(v, o);
        },
        RequestView::GetLicense(n, t) => {
            if top is SelectWorkshop && find_named(top->SelectWorkshop_0, n) is Some && t is Ok {
                lemma_stack_push(st, StateView::ShowLicense(t->Ok_0));
            }
            lemma_settle_keeps_inv(v, o);
        },
        RequestView::ChangeSpokenLanguage => {
            if top is SelectWorkshop {
                lemma_stack_push(st, StateView::SelectSpokenLanguage(spoken_list(top->SelectWorkshop_0)));
            }
            lemma_settle_keeps_inv(v, o);
        },
        RequestView::ChangeProgrammingLanguage => {
            if top is SelectWorkshop {
                lemma_stack_push(
                    st,
                    StateView::SelectProgrammingLanguage(programming_list(top->SelectWorkshop_0)),
                );
            }
            lemma_settle_keeps_inv(v, o);
        },
        RequestView::SetSpokenLanguage(s, ws) => {
            if top is SelectSpokenLanguage {
                assert(over_workshops(st[st.len() - 1]));
                let st1 = st.drop_last();
                lemma_stack_pop(st);
                assert(st1.last() == st[st.len() - 2]);
                let st2 = st1.drop_last();
                lemma_stack_pop(st1);
                if ws is Ok {
                    let wsel = StateView::SelectWorkshop(
                        selected_workshops(ws->Ok_0, s, v.programming_language),
                    );
                    if st2.len() > 0 {
                        assert(st2[st2.len() - 1] == st[st.len() - 3]);
                        assert(!(st[st.len() - 2] is Nil));
                        assert(!over_workshops(st[st.len() - 2]));
                    }
                    lemma_stack_push(st2, wsel);
                    lemma_stack_push(st2.push(wsel), StateView::SetSpokenLanguageDefault(s));
                }
            }
            lemma_settle_keeps_inv(v, o);
        },
        RequestView::SetProgrammingLanguage(p, ws) => {
            if top is SelectProgrammingLanguage {
                assert(over_workshops(st[st.len() - 1]));
                let st1 = st.drop_last();
                lemma_stack_pop(st);
                assert(st1.last() == st[st.len() - 2]);
                let st2 = st1.drop_last();
                lemma_stack_pop(st1);
                if ws is Ok {
                    let wsel = StateView::SelectWorkshop(
                        selected_workshops(ws->Ok_0, v.spoken_language, p),
                    );
                    lemma_stack_push(st2, wsel);
                    lemma_stack_push(st2.push(wsel), StateView::SetProgrammingLanguageDefault(p));
                }
            }
            lemma_settle_keeps_inv(v, o);
        },
        RequestView::SetWorkshop(n, ls) => {
            if top is SelectWorkshop && find_named(top->SelectWorkshop_0, n) is Some && ls is Ok {
                lemma_stack_push(st, StateView::SelectLesson(ls->Ok_0));
            }
            lemma_settle_keeps_inv(v, o);
        },
        RequestView::Back => {
            if st.len() > 1 {
                lemma_stack_pop(st);
            }
            lemma_settle_keeps_inv(v, o);
        },
        RequestView::Quit => {
            lemma_stack_push(st, StateView::Quit);
        },
        RequestView::SetLesson(_) => {
            lemma_settle_keeps_inv(v, o);
        },
        RequestView::Log(_) => {
            lemma_settle_keeps_inv(v, o);
        },
    }
    if !(q is Quit) {
        let w = settle(o);
        let wt = w.state.last();
        assert(wt == w.state[w.state.len() - 1]);
        if wt is ShowDescription || wt is ShowSetupInstructions || wt is ShowSpokenLanguages
            || wt is ShowProgrammingLanguages {
            assert(over_workshops(w.state[w.state.len() - 1]));
            lemma_stack_pop(w.state);
        }
    }
}

/// A request that pushes a state is undone by going back: offering languages, showing a
/// license, choosing a workshop; the stack of states is as it was before.
pub proof fn lemma_back_undoes_push(v: EngineView, q: RequestView)
    requires
        v.state.len() > 0,
        q is ChangeSpokenLanguage || q is ChangeProgrammingLanguage || q is GetLicense
            || q is SetWorkshop || q is GetWorkshopDescription || q is GetWorkshopSetupInstructions
            || q is GetWorkshopSpokenLanguages || q is GetWorkshopProgrammingLanguages,
        handle_step(v, q).1 is Ok,
    ensures
        back_step(handle_step(v, q).0) == (with_stack(handle_step(v, q).0, v.state), Ok::<
            (),
            ErrorView,
        >(())),
{
    let w = handle_step(v, q).0;
    assert(w.state.drop_last() =~= v.state);
}

/// A description, setup text or language list of a workshop on offer is told to the user
/// interface once, and the engine is back at the workshop choice.
pub proof fn lemma_told_once(v: EngineView, q: RequestView)
    requires
        v.state.len() > 0,
        v.state.last() is SelectWorkshop,
        q is GetWorkshopDescription || q is GetWorkshopSetupInstructions
            || q is GetWorkshopSpokenLanguages || q is GetWorkshopProgrammingLanguages,
        handle_step(v, q).1 is Ok,
    ensures
        reply_step(v, q).0 == v,
        reply_step(v, q).1 == match q {
            RequestView::GetWorkshopDescription(n, t) => ReplyView::Send(
                MessageView::ShowWorkshopDescription(n, t->Ok_0),
            ),
            RequestView::GetWorkshopSetupInstructions(n, t) => ReplyView::Send(
                MessageView::ShowWorkshopSetupInstructions(n, t->Ok_0),
            ),
            RequestView::GetWorkshopSpokenLanguages(n) => ReplyView::Send(
                MessageView::ShowWorkshopSpokenLanguages(
                    n,
                    keys(find_named(v.state.last()->SelectWorkshop_0, n)->Some_0.setup_instructions),
                ),
            ),
            RequestView::GetWorkshopProgrammingLanguages(n) => ReplyView::Send(
                MessageView::ShowWorkshopProgrammingLanguages(
                    n,
                    workshop_programming(find_named(v.state.last()->SelectWorkshop_0, n)->Some_0),
                ),
            ),
            _ => ReplyView::Silent,
        },
{
    let w = handle_step(v, q).0;
    assert(w.state.drop_last() =~= v.state);
}

/// A refused request is answered with its error, which stays the current state until the user
/// interface goes back from it.
pub proof fn lemma_refusal_answered(v: EngineView, q: RequestView)
    requires
        handle_step(v, q).1 is Err,
        !(q is Quit),
    ensures
        reply_step(v, q).1 == ReplyView::Send(
            MessageView::Error(error_text(handle_step(v, q).1->Err_0)),
        ),
        reply_step(v, q).0 == fail_step(handle_step(v, q).0, handle_step(v, q).1->Err_0),
        handle_step(v, q).0.state.len() > 0 ==> back_step(reply_step(v, q).0) == (
            handle_step(v, q).0,
            Ok::<(), ErrorView>(()),
        ),
{
    let w = handle_step(v, q).0;
    let f = fail_step(w, handle_step(v, q).1->Err_0);
    assert(f.state.drop_last() =~= w.state);
}

/// Configuring from the start keeps the configured languages and offers exactly the loaded
/// workshops that are offered in both of them, the spoken and the programming language: a
/// workshop offered in only one of the two is left out. The user interface is asked to read
/// the names of the workshops offered.
pub proof fn lemma_config_offers_selected(
    v: EngineView,
    data_dir: Seq<char>,
    pwd: Seq<char>,
    s: Option<spoken::Code>,
    p: Option<programming::Code>,
    ws: Seq<WorkshopDataView>,
)
    requires
        v.state.len() > 0,
        v.state.last() is Nil,
    ensures
        ({
            let r = handle_step(v, RequestView::Config(data_dir, pwd, s, p, Ok(ws)));
            &&& r.1 == Ok::<(), ErrorView>(())
            &&& r.0.spoken_language == s
            &&& r.0.programming_language == p
            &&& r.0.state.last() is SelectWorkshop
            &&& forall|w: WorkshopDataView|
                #[trigger] r.0.state.last()->SelectWorkshop_0.contains(w) <==> ws.contains(w)
                    && selected_by(w, s, p)
            &&& forall|w: WorkshopDataView|
                #[trigger] r.0.state.last()->SelectWorkshop_0.contains(w) ==> selected_by(
                    w,
                    r.0.spoken_language,
                    r.0.programming_language,
                )
        }),
{
    lemma_filter_subset(ws, s, p);
    let r = handle_step(v, RequestView::Config(data_dir, pwd, s, p, Ok(ws)));
    assert(r.0.state.last() == StateView::SelectWorkshop(selected_workshops(ws, s, p)));
}

/// Choosing a spoken language from its offer refreshes the workshop choice below for that
/// language, and the engine asks whether it becomes the default; going back from that question
/// tells the refreshed workshop choice.
pub proof fn lemma_spoken_choice_asks_default(
    v: EngineView,
    s: Option<spoken::Code>,
    ws: Seq<WorkshopDataView>,
)
    requires
        engine_inv(v),
        v.state.last() is SelectSpokenLanguage,
    ensures
        ({
            let r = reply_step(v, RequestView::SetSpokenLanguage(s, Ok(ws)));
            let chosen = selected_workshops(ws, s, v.programming_language);
            &&& r.1 == ReplyView::Send(MessageView::SetSpokenLanguageDefault(s))
            &&& r.0.spoken_language == s
            &&& r.0.state == v.state.drop_last().drop_last().push(
                StateView::SelectWorkshop(chosen),
            ).push(StateView::SetSpokenLanguageDefault(s))
            &&& reply_step(r.0, RequestView::Back).1 == ReplyView::ReadWorkshops(
                workshop_names(chosen),
            )
            &&& reply_step(r.0, RequestView::Back).0.spoken_language == s
        }),
{
    let st = v.state;
    assert(over_workshops(st[st.len() - 1]));
    assert(st.drop_last().last() == st[st.len() - 2]);
    let r = reply_step(v, RequestView::SetSpokenLanguage(s, Ok(ws)));
    assert(r.0.state.drop_last().last() == r.0.state[r.0.state.len() - 2]);
}

/// Choosing a programming language from its offer refreshes the workshop choice below for that
/// language, and the engine asks whether it becomes the default.
pub proof fn lemma_programming_choice_asks_default(
    v: EngineView,
    p: Option<programming::Code>,
    ws: Seq<WorkshopDataView>,
)
    requires
        engine_inv(v),
        v.state.last() is SelectProgrammingLanguage,
    ensures
        ({
            let r = reply_step(v, RequestView::SetProgrammingLanguage(p, Ok(ws)));
            let chosen = selected_workshops(ws, v.spoken_language, p);
            &&& r.1 == ReplyView::Send(MessageView::SetProgrammingLanguageDefault(p))
            &&& r.0.programming_language == p
            &&& r.0.state == v.state.drop_last().drop_last().push(
                StateView::SelectWorkshop(chosen),
            ).push(StateView::SetProgrammingLanguageDefault(p))
        }),
{
    let st = v.state;
    assert(over_workshops(st[st.len() - 1]));
    assert(st.drop_last().last() == st[st.len() - 2]);
}

/// What the engine is configured from: the application data directory, the present working
/// directory, and the preferred languages.
pub trait Config {
    /// Get the path to the application data directory
    fn data_dir(&self) -> &str;

    /// Get the present working directory
    fn pwd(&self) -> &str;

    /// Get the preferred spoken language
    fn spoken_language(&self) -> Option<spoken::Code>;

    /// Get the preferred programming language
    fn programming_language(&self) -> Option<programming::Code>;
}

impl Request {
    /// The request to configure the engine from a configuration, with the workshops read from
    /// its data directory.
    pub fn config_from<C: Config>(config: &C, workshops: Result<Vec<WorkshopData>, Error>) -> (r:
        Request)
        ensures
            r@ matches RequestView::Config(_, _, _, _, ws) && ws == loaded_view(workshops),
    {
        Request::Config {
            data_dir: owned(config.data_dir()),
            pwd: owned(config.pwd()),
            spoken_language: config.spoken_language(),
            programming_language: config.programming_language(),
            workshops,
        }
    }
}

/// Read results, with their errors by value.
pub open spec fn reads_view<T>(s: Seq<Result<T, Error>>) -> Seq<Result<T, ErrorView>> {
    Seq::new(
        s.len(),
        |i: int|
            match s[i] {
                Ok(x) => Ok(x),
                Err(e) => Err(e@),
            },
    )
}

/// What was read for each name, in order, paired with its name; reading stops at the first
/// failure, whose error it gives.
pub open spec fn named_reads<T>(names: Seq<Seq<char>>, reads: Seq<Result<T, ErrorView>>) -> Result<
    Seq<(Seq<char>, T)>,
    ErrorView,
>
    decreases reads.len(),
{
    if reads.len() == 0 {
        Ok(Seq::empty())
    } else {
        match named_reads(names, reads.drop_last()) {
            Err(e) => Err(e),
            Ok(acc) => match reads.last() {
                Err(e) => Err(e),
                Ok(x) => Ok(acc.push((names[reads.len() - 1], x))),
            },
        }
    }
}

/// A failure before the end stays the result of reading on.
proof fn lemma_named_reads_err<T>(names: Seq<Seq<char>>, reads: Seq<Result<T, ErrorView>>, k: int)
    requires
        0 <= k <= reads.len(),
        named_reads(names, reads.take(k)) is Err,
    ensures
        named_reads(names, reads) == named_reads(names, reads.take(k)),
    decreases reads.len() - k,
{
    if k < reads.len() {
        assert(reads.take(k + 1).drop_last() =~= reads.take(k));
        lemma_named_reads_err(names, reads, k + 1);
    } else {
        assert(reads.take(k) =~= reads);
    }
}

/// Pairs each name with what was read for it, in order, or gives the first failure.
fn collect_named<T>(names: Vec<String>, reads: Vec<Result<T, Error>>) -> (r: Result<
    Vec<(String, T)>,
    Error,
>)
    requires
        names.len() == reads.len(),
    ensures
        match named_reads(strings_view(names@), reads_view(reads@)) {
            Ok(v) => r is Ok && named_view(r->Ok_0@) == v,
            Err(e) => r is Err && r->Err_0@ == e,
        },
{
    let ghost nv = strings_view(names@);
    let ghost rv = reads_view(reads@);
    let ghost orig_names = names@;
    let ghost orig_reads = reads@;
    let n = reads.len();
    let mut ns = names;
    let mut rs = reads;
    let mut acc: Vec<(String, T)> = Vec::new();
    let mut i: usize = 0;
    proof {
        assert(rv.take(0) =~= Seq::<Result<T, ErrorView>>::empty());
        assert(named_view(acc@) =~= Seq::<(Seq<char>, T)>::empty());
    }
    while i < n
        invariant
            n == orig_reads.len(),
            orig_names.len() == n,
            i <= n,
            ns@ == orig_names.skip(i as int),
            rs@ == orig_reads.skip(i as int),
            nv == strings_view(orig_names),
            rv == reads_view(orig_reads),
            orig_names == names@,
            orig_reads == reads@,
            named_reads(nv, rv.take(i as int)) == Ok::<Seq<(Seq<char>, T)>, ErrorView>(
                named_view(acc@),
            ),
        decreases n - i,
    {
        let name = ns.remove(0);
        let x = rs.remove(0);
        proof {
            assert(ns@ =~= orig_names.skip(i + 1));
            assert(rs@ =~= orig_reads.skip(i + 1));
            assert(name == orig_names[i as int]);
            assert(x == orig_reads[i as int]);
            assert(rv.take(i + 1).drop_last() =~= rv.take(i as int));
            assert(rv.take(i + 1).last() == rv[i as int]);
        }
        match x {
            Err(e) => {
                proof {
                    assert(named_reads(nv, rv.take(i + 1)) == Err::<Seq<(Seq<char>, T)>, ErrorView>(
                        e@,
                    ));
                    lemma_named_reads_err(nv, rv, i + 1);
                    assert(named_reads(nv, rv) == Err::<Seq<(Seq<char>, T)>, ErrorView>(e@));
                }
                return Err(e);
            },
            Ok(v) => {
                let ghost before = acc@;
                acc.push((name, v));
                proof {
                    assert(nv[i as int] == name@);
                    assert(named_view(acc@) =~= named_view(before).push((name@, v)));
                }
            },
        }
        i = i + 1;
    }
    proof {
        assert(rv.take(n as int) =~= rv);
        assert(named_reads(nv, rv) == Ok::<Seq<(Seq<char>, T)>, ErrorView>(named_view(acc@)));
    }
    Ok(acc)
}

/// The workshop choice, once each workshop's metadata has been read: each workshop by name
/// with its metadata, in order, and the current languages; the first metadata that could not
/// be read ends it with that error.
pub fn select_workshop_message(
    names: Vec<String>,
    metadata: Vec<Result<Workshop, Error>>,
    spoken_language: Option<spoken::Code>,
    programming_language: Option<programming::Code>,
) -> (r: Result<Message, Error>)
    requires
        names.len() == metadata.len(),
    ensures
        match named_reads(strings_view(names@), reads_view(metadata@)) {
            Ok(ws) => r is Ok && r->Ok_0@ == MessageView::SelectWorkshop(
                ws,
                spoken_language,
                programming_language,
            ),
            Err(e) => r is Err && r->Err_0@ == e,
        },
{
    match collect_named(names, metadata) {
        Ok(workshops) => Ok(
            Message::SelectWorkshop { workshops, spoken_language, programming_language },
        ),
        Err(e) => Err(e),
    }
}

/// What was read for a lesson: its metadata, then its text; the first that failed gives the
/// error.
pub open spec fn lesson_read(m: Result<LessonMeta, Error>, t: Result<String, Error>) -> Result<
    (LessonMeta, String),
    ErrorView,
> {
    match m {
        Err(e) => Err(e@),
        Ok(meta) => match t {
            Err(e) => Err(e@),
            Ok(text) => Ok((meta, text)),
        },
    }
}

/// What was read for each lesson.
pub open spec fn lesson_reads_view(s: Seq<(Result<LessonMeta, Error>, Result<String, Error>)>) -> Seq<
    Result<(LessonMeta, String), ErrorView>,
> {
    Seq::new(s.len(), |i: int| lesson_read(s[i].0, s[i].1))
}

/// The lessons, by name with their metadata.
pub open spec fn lesson_metas(ls: Seq<(Seq<char>, (LessonMeta, String))>) -> Seq<
    (Seq<char>, LessonMeta),
> {
    Seq::new(ls.len(), |i: int| (ls[i].0, ls[i].1.0))
}

/// The lessons' texts, by name.
pub open spec fn lesson_texts(ls: Seq<(Seq<char>, (LessonMeta, String))>) -> Seq<
    (Seq<char>, Seq<char>),
> {
    Seq::new(ls.len(), |i: int| (ls[i].0, ls[i].1.1@))
}

/// The lesson choice, once each lesson's metadata and text have been read: each lesson by
/// name with its metadata, the texts by name, in order, and the current languages; the first
/// lesson whose metadata or text could not be read ends it with that error.
pub fn select_lesson_message(
    names: Vec<String>,
    reads: Vec<(Result<LessonMeta, Error>, Result<String, Error>)>,
    spoken_language: Option<spoken::Code>,
    programming_language: Option<programming::Code>,
) -> (r: Result<Message, Error>)
    requires
        names.len() == reads.len(),
    ensures
        match named_reads(strings_view(names@), lesson_reads_view(reads@)) {
            Ok(ls) => r is Ok && r->Ok_0@ == MessageView::SelectLesson(
                lesson_metas(ls),
                lesson_texts(ls),
                spoken_language,
                programming_language,
            ),
            Err(e) => r is Err && r->Err_0@ == e,
        },
{
    let ghost orig = reads@;
    let n = reads.len();
    let mut rs = reads;
    let mut combined: Vec<Result<(LessonMeta, String), Error>> = Vec::new();
    let mut i: usize = 0;
    while i < n
        invariant
            n == orig.len(),
            orig == reads@,
            i <= n,
            rs@ == orig.skip(i as int),
            combined@.len() == i,
            forall|k: int|
                0 <= k < i ==> #[trigger] reads_view(combined@)[k] == lesson_reads_view(orig)[k],
        decreases n - i,
    {
        let (m, t) = rs.remove(0);
        proof {
            assert(rs@ =~= orig.skip(i + 1));
            assert((m, t) == orig[i as int]);
        }
        let c = match m {
            Err(e) => Err(e),
            Ok(meta) => match t {
                Err(e) => Err(e),
                Ok(text) => Ok((meta, text)),
            },
        };
        let ghost before = combined@;
        combined.push(c);
        proof {
            assert forall|k: int| 0 <= k < i + 1 implies #[trigger] reads_view(combined@)[k]
                == lesson_reads_view(orig)[k] by {
                if k < i {
                    assert(combined@[k] == before[k]);
                    assert(reads_view(before)[k] == lesson_reads_view(orig)[k]);
                }
            }
        }
        i = i + 1;
    }
    proof {
        assert(reads_view(combined@) =~= lesson_reads_view(orig));
    }
    match collect_named(names, combined) {
        Ok(named) => {
            let ghost nv = named_view(named@);
            let total = named.len();
            let ghost orig_named = named@;
            let mut rest = named;
            let mut lessons: Vec<(String, LessonMeta)> = Vec::new();
            let mut texts: Vec<(String, String)> = Vec::new();
            let mut j: usize = 0;
            while j < total
                invariant
                    total == orig_named.len(),
                    nv == named_view(orig_named),
                    j <= total,
                    rest@ == orig_named.skip(j as int),
                    named_view(lessons@) == lesson_metas(nv).take(j as int),
                    texts_view(texts@) == lesson_texts(nv).take(j as int),
                decreases total - j,
            {
                let (name, (meta, text)) = rest.remove(0);
                proof {
                    assert(rest@ =~= orig_named.skip(j + 1));
                    assert((name, (meta, text)) == orig_named[j as int]);
                    assert(nv[j as int] == (name@, (meta, text)));
                }
                let name2 = owned(name.as_str());
                let ghost l0 = lessons@;
                let ghost t0 = texts@;
                lessons.push((name, meta));
                texts.push((name2, text));
                proof {
                    assert(named_view(lessons@) =~= named_view(l0).push((name@, meta)));
                    assert(texts_view(texts@) =~= texts_view(t0).push((name@, text@)));
                    assert(lesson_metas(nv).take(j + 1) =~= lesson_metas(nv).take(j as int).push(
                        (name@, meta),
                    ));
                    assert(lesson_texts(nv).take(j + 1) =~= lesson_texts(nv).take(j as int).push(
                        (name@, text@),
                    ));
                }
                j = j + 1;
            }
            proof {
                assert(lesson_metas(nv).take(total as int) =~= lesson_metas(nv));
                assert(lesson_texts(nv).take(total as int) =~= lesson_texts(nv));
            }
            Ok(
                Message::SelectLesson {
                    lessons,
                    lesson_texts: texts,
                    spoken_language,
                    programming_language,
                },
            )
        },
        Err(e) => Err(e),
    }
}

} // verus!
