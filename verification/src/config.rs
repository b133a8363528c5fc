//! The application configuration: the tool versions it needs, the executables chosen for them,
//! and the preferred languages.

use crate::languages::{programming, spoken};
use crate::text::owned;
use vstd::prelude::*;

verus! {

/// The application configuration.
pub struct Config {
    python_minimum_version: String,
    python_executable: Option<String>,
    docker_compose_minimum_version: String,
    docker_compose_executable: Option<String>,
    spoken_language: Option<spoken::Code>,
    programming_language: Option<programming::Code>,
}

/// The configuration by value.
pub struct ConfigView {
    pub python_minimum_version: Seq<char>,
    pub python_executable: Option<Seq<char>>,
    pub docker_compose_minimum_version: Seq<char>,
    pub docker_compose_executable: Option<Seq<char>>,
    pub spoken_language: Option<spoken::Code>,
    pub programming_language: Option<programming::Code>,
}

/// Optional text by value.
pub open spec fn opt_view(o: Option<String>) -> Option<Seq<char>> {
    match o {
        Some(t) => Some(t@),
        None => None,
    }
}

impl View for Config {
    type V = ConfigView;

    closed spec fn view(&self) -> ConfigView {
        ConfigView {
            python_minimum_version: self.python_minimum_version@,
            python_executable: opt_view(self.python_executable),
            docker_compose_minimum_version: self.docker_compose_minimum_version@,
            docker_compose_executable: opt_view(self.docker_compose_executable),
            spoken_language: self.spoken_language,
            programming_language: self.programming_language,
        }
    }
}

/// A copy of optional text.
fn copy_opt(o: &Option<String>) -> (r: Option<String>)
    ensures
        opt_view(r) == opt_view(*o),
{
    match o {
        Some(t) => Some(owned(t.as_str())),
        None => None,
    }
}

impl Default for Config {
    /// Python 3.10.0 and Docker Compose 2.0.0 at least, no executables chosen, no preferred
    /// languages.
    fn default() -> (r: Self)
        ensures
            r@ == (ConfigView {
                python_minimum_version: "3.10.0"@,
                python_executable: None,
                docker_compose_minimum_version: "2.0.0"@,
                docker_compose_executable: None,
                spoken_language: None,
                programming_language: None,
            }),
    {
        Config {
            python_minimum_version: String::from_str("3.10.0"),
            python_executable: None,
            docker_compose_minimum_version: String::from_str("2.0.0"),
            docker_compose_executable: None,
            spoken_language: None,
            programming_language: None,
        }
    }
}

impl Config {
    /// A configuration with the given values, as read from a file.
    pub fn from_parts(
        python_minimum_version: String,
        python_executable: Option<String>,
        docker_compose_minimum_version: String,
        docker_compose_executable: Option<String>,
        spoken_language: Option<spoken::Code>,
        programming_language: Option<programming::Code>,
    ) -> (r: Self)
        ensures
            r@ == (ConfigView {
                python_minimum_version: python_minimum_version@,
                python_executable: opt_view(python_executable),
                docker_compose_minimum_version: docker_compose_minimum_version@,
                docker_compose_executable: opt_view(docker_compose_executable),
                spoken_language,
                programming_language,
            }),
    {
        Config {
            python_minimum_version,
            python_executable,
            docker_compose_minimum_version,
            docker_compose_executable,
            spoken_language,
            programming_language,
        }
    }

    /// Get the minimum required Python version
    pub fn python_minimum_version(&self) -> (r: &str)
        ensures
            r@ == self@.python_minimum_version,
    {
        self.python_minimum_version.as_str()
    }

    /// Get the preferred Python executable
    pub fn python_executable(&self) -> (r: Option<String>)
        ensures
            opt_view(r) == self@.python_executable,
    {
        copy_opt(&self.python_executable)
    }

    /// Get the minimum required Docker Compose version
    pub fn docker_compose_minimum_version(&self) -> (r: &str)
        ensures
            r@ == self@.docker_compose_minimum_version,
    {
        self.docker_compose_minimum_version.as_str()
    }

    /// Get the preferred Docker Compose executable
    pub fn docker_compose_executable(&self) -> (r: Option<String>)
        ensures
            opt_view(r) == self@.docker_compose_executable,
    {
        copy_opt(&self.docker_compose_executable)
    }

    /// Get the preferred spoken language
    pub fn spoken_language(&self) -> (r: Option<spoken::Code>)
        ensures
            r == self@.spoken_language,
    {
        self.spoken_language
    }

    /// Get the preferred programming language
    pub fn programming_language(&self) -> (r: Option<programming::Code>)
        ensures
            r == self@.programming_language,
    {
        self.programming_language
    }

    /// Set the preferred Python executable
    pub fn set_python_executable(&mut self, python_executable: &str)
        ensures
            final(self)@ == (ConfigView {
                python_executable: Some(python_executable@),
                ..old(self)@
            }),
    {
        self.python_executable = Some(owned(python_executable));
    }

    /// Set the preferred Docker Compose executable
    pub fn set_docker_compose_executable(&mut self, docker_compose_executable: &str)
        ensures
            final(self)@ == (ConfigView {
                docker_compose_executable: Some(docker_compose_executable@),
                ..old(self)@
            }),
    {
        self.docker_compose_executable = Some(owned(docker_compose_executable));
    }

    /// Set the spoken language
    pub fn set_spoken_language(&mut self, spoken_language: Option<spoken::Code>)
        ensures
            final(self)@ == (ConfigView { spoken_language, ..old(self)@ }),
    {
        self.spoken_language = spoken_language;
    }

    /// Set the programming language
    pub fn set_programming_language(&mut self, programming_language: Option<programming::Code>)
        ensures
            final(self)@ == (ConfigView { programming_language, ..old(self)@ }),
    {
        self.programming_language = programming_language;
    }
}

} // verus!
