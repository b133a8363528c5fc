//! Workshop and lesson models: what a workshop holds and which language versions to use.

use vstd::prelude::*;

pub mod lesson;
pub mod workshop;

verus! {

/// Errors from the workshop and lesson models.
#[derive(Clone, Debug, PartialEq, Eq)]
pub enum Error {
    WorkshopNotFound(String),
    WorkshopDataDirNotFound,
    WorkshopDataSpokenDirNotFound(String),
    WorkshopDataProgrammingDirNotFound(String),
    WorkshopSpokenLanguageNotFound(String),
    WorkshopProgrammingLanguageNotFound(String),
    WorkshopLicenseNotFound(String),
    WorkshopDefaultsNotFound(String),
    WorkshopNoDescriptions,
    WorkshopNoSetupInstructions,
    WorkshopNoMetadata,
    WorkshopNoLessonsData,
    WorkshopNoProgrammingLanguagesForSpokenLanguage(String),
    NoWorkshopSpecified,
    NoLessonSpecified,
    NoLessonData(String),
    LessonDataDirNotFound,
    LessonTextFileMissing,
    LessonMetadataFileMissing,
    NoSpokenLanguageSpecified,
    NoProgrammingLanguageSpecified,
}

/// An error with its text taken by value.
pub enum ErrorView {
    WorkshopNotFound(Seq<char>),
    WorkshopDataDirNotFound,
    WorkshopDataSpokenDirNotFound(Seq<char>),
    WorkshopDataProgrammingDirNotFound(Seq<char>),
    WorkshopSpokenLanguageNotFound(Seq<char>),
    WorkshopProgrammingLanguageNotFound(Seq<char>),
    WorkshopLicenseNotFound(Seq<char>),
    WorkshopDefaultsNotFound(Seq<char>),
    WorkshopNoDescriptions,
    WorkshopNoSetupInstructions,
    WorkshopNoMetadata,
    WorkshopNoLessonsData,
    WorkshopNoProgrammingLanguagesForSpokenLanguage(Seq<char>),
    NoWorkshopSpecified,
    NoLessonSpecified,
    NoLessonData(Seq<char>),
    LessonDataDirNotFound,
    LessonTextFileMissing,
    LessonMetadataFileMissing,
    NoSpokenLanguageSpecified,
    NoProgrammingLanguageSpecified,
}

impl View for Error {
    type V = ErrorView;

    open spec fn view(&self) -> ErrorView {
        match self {
            Error::WorkshopNotFound(s) => ErrorView::WorkshopNotFound(s@),
            Error::WorkshopDataDirNotFound => ErrorView::WorkshopDataDirNotFound,
            Error::WorkshopDataSpokenDirNotFound(s) => ErrorView::WorkshopDataSpokenDirNotFound(s@),
            Error::WorkshopDataProgrammingDirNotFound(s) => ErrorView::WorkshopDataProgrammingDirNotFound(
                s@,
            ),
            Error::WorkshopSpokenLanguageNotFound(s) => ErrorView::WorkshopSpokenLanguageNotFound(s@),
            Error::WorkshopProgrammingLanguageNotFound(s) => ErrorView::WorkshopProgrammingLanguageNotFound(
                s@,
            ),
            Error::WorkshopLicenseNotFound(s) => ErrorView::WorkshopLicenseNotFound(s@),
            Error::WorkshopDefaultsNotFound(s) => ErrorView::WorkshopDefaultsNotFound(s@),
            Error::WorkshopNoDescriptions => ErrorView::WorkshopNoDescriptions,
            Error::WorkshopNoSetupInstructions => ErrorView::WorkshopNoSetupInstructions,
            Error::WorkshopNoMetadata => ErrorView::WorkshopNoMetadata,
            Error::WorkshopNoLessonsData => ErrorView::WorkshopNoLessonsData,
            Error::WorkshopNoProgrammingLanguagesForSpokenLanguage(s) => {
                ErrorView::WorkshopNoProgrammingLanguagesForSpokenLanguage(s@)
            },
            Error::NoWorkshopSpecified => ErrorView::NoWorkshopSpecified,
            Error::NoLessonSpecified => ErrorView::NoLessonSpecified,
            Error::NoLessonData(s) => ErrorView::NoLessonData(s@),
            Error::LessonDataDirNotFound => ErrorView::LessonDataDirNotFound,
            Error::LessonTextFileMissing => ErrorView::LessonTextFileMissing,
            Error::LessonMetadataFileMissing => ErrorView::LessonMetadataFileMissing,
            Error::NoSpokenLanguageSpecified => ErrorView::NoSpokenLanguageSpecified,
            Error::NoProgrammingLanguageSpecified => ErrorView::NoProgrammingLanguageSpecified,
        }
    }
}

/// A result with its error taken by value.
pub open spec fn result_view<T>(r: Result<T, Error>) -> Result<T, ErrorView> {
    match r {
        Ok(t) => Ok(t),
        Err(e) => Err(e@),
    }
}

} // verus!
