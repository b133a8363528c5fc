//! Where the application keeps its data and configuration, and the languages it starts with.

use crate::languages::{programming, spoken};
use vstd::prelude::*;

verus! {

/// The directories of the application and its preferred languages.
pub struct Config {
    config_dir: String,
    data_dir: String,
    spoken_language: spoken::Code,
    programming_language: programming::Code,
}

/// The directories and languages by value.
pub struct ConfigView {
    pub config_dir: Seq<char>,
    pub data_dir: Seq<char>,
    pub spoken_language: spoken::Code,
    pub programming_language: programming::Code,
}

impl View for Config {
    type V = ConfigView;

    closed spec fn view(&self) -> ConfigView {
        ConfigView {
            config_dir: self.config_dir@,
            data_dir: self.data_dir@,
            spoken_language: self.spoken_language,
            programming_language: self.programming_language,
        }
    }
}

impl Config {
    /// The configuration of a first start: the given directories, and the default languages.
    pub fn new(config_dir: String, data_dir: String) -> (r: Self)
        ensures
            r@ == (ConfigView {
                config_dir: config_dir@,
                data_dir: data_dir@,
                spoken_language: spoken::Code::en,
                programming_language: programming::Code::rs,
            }),
    {
        Config {
            config_dir,
            data_dir,
            spoken_language: spoken::Code::default(),
            programming_language: programming::Code::default(),
        }
    }

    /// A configuration with the given values, as read from a file.
    pub fn from_parts(
        config_dir: String,
        data_dir: String,
        spoken_language: spoken::Code,
        programming_language: programming::Code,
    ) -> (r: Self)
        ensures
            r@ == (ConfigView {
                config_dir: config_dir@,
                data_dir: data_dir@,
                spoken_language,
                programming_language,
            }),
    {
        Config { config_dir, data_dir, spoken_language, programming_language }
    }

    /// Get the path to the application data directory
    pub fn data_dir(&self) -> (r: &str)
        ensures
            r@ == self@.data_dir,
    {
        self.data_dir.as_str()
    }

    /// Get the path to the application config directory
    pub fn config_dir(&self) -> (r: &str)
        ensures
            r@ == self@.config_dir,
    {
        self.config_dir.as_str()
    }

    /// Get the preferred spoken language
    pub fn spoken_language(&self) -> (r: spoken::Code)
        ensures
            r == self@.spoken_language,
    {
        self.spoken_language
    }

    /// Get the preferred programming language
    pub fn programming_language(&self) -> (r: programming::Code)
        ensures
            r == self@.programming_language,
    {
        self.programming_language
    }
}

} // verus!
