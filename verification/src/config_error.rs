//! What can be wrong with a configuration or with the files beside it.

use crate::text::{joined, owned};
use vstd::prelude::*;

verus! {

#[derive(Clone, Debug)]
pub enum ConfigError {
    Io(String),
    Parse(String),
    Invalid(String),
}

/// What a [`ConfigError`] says.
pub enum ConfigErrorView {
    Io(Seq<char>),
    Parse(Seq<char>),
    Invalid(Seq<char>),
}

impl View for ConfigError {
    type V = ConfigErrorView;

    open spec fn view(&self) -> ConfigErrorView {
        match self {
            ConfigError::Io(text) => ConfigErrorView::Io(text@),
            ConfigError::Parse(text) => ConfigErrorView::Parse(text@),
            ConfigError::Invalid(text) => ConfigErrorView::Invalid(text@),
        }
    }
}

impl ConfigErrorView {
    /// The line that is shown for the error.
    pub open spec fn text(self) -> Seq<char> {
        match self {
            ConfigErrorView::Io(text) => "I/O: "@ + text,
            ConfigErrorView::Parse(text) => "configuration: "@ + text,
            ConfigErrorView::Invalid(text) => "invalid configuration: "@ + text,
        }
    }
}

impl ConfigError {
    /// The line that is shown for the error.
    pub fn text(&self) -> (text: String)
        ensures
            text@ == self@.text(),
    {
        match self {
            ConfigError::Io(text) => joined("I/O: ", text.as_str()),
            ConfigError::Parse(text) => joined("configuration: ", text.as_str()),
            ConfigError::Invalid(text) => joined("invalid configuration: ", text.as_str()),
        }
    }

    /// A copy of the error.
    pub fn copied(&self) -> (copy: ConfigError)
        ensures
            copy@ == self@,
    {
        match self {
            ConfigError::Io(text) => ConfigError::Io(owned(text.as_str())),
            ConfigError::Parse(text) => ConfigError::Parse(owned(text.as_str())),
            ConfigError::Invalid(text) => ConfigError::Invalid(owned(text.as_str())),
        }
    }
}

/// Whether something is in order, and what is wrong with it if not.
pub type Verdict = Result<(), ConfigErrorView>;

/// The verdict that something is invalid.
pub open spec fn refused(text: Seq<char>) -> Verdict {
    Err(ConfigErrorView::Invalid(text))
}

/// The first verdict that finds something wrong.
pub open spec fn both(first: Verdict, second: Verdict) -> Verdict {
    match first {
        Ok(()) => second,
        Err(e) => Err(e),
    }
}

/// What a result says.
pub open spec fn verdict(result: Result<(), ConfigError>) -> Verdict {
    match result {
        Ok(()) => Ok(()),
        Err(e) => Err(e@),
    }
}

/// The error that something is invalid.
pub fn invalid(text: &str) -> (error: ConfigError)
    ensures
        error@ == ConfigErrorView::Invalid(text@),
{
    ConfigError::Invalid(owned(text))
}

/// Refuses with a text.
pub fn refuse(text: &str) -> (result: Result<(), ConfigError>)
    ensures
        verdict(result) == refused(text@),
{
    Err(invalid(text))
}

} // verus!
