//! The errors the library reports.

use vstd::prelude::*;
use vstd::string::*;

verus! {

/// What is wrong with a configuration.
#[derive(Debug)]
pub enum ConfigErrorKind {
    /// A setting (named first) has a value that is not allowed (why, second).
    InvalidValue(String, String),
    /// A path cannot be used.
    InvalidPath(String),
    /// A rule that spans settings is broken.
    ValidationError(String),
}

/// An error of the library.
#[derive(Debug)]
pub enum LlaError {
    /// The configuration is at fault.
    Config(ConfigErrorKind),
    /// Anything else.
    Other(String),
}

/// What a configuration fault holds.
pub enum ConfigErrorView {
    InvalidValue(Seq<char>, Seq<char>),
    InvalidPath(Seq<char>),
    ValidationError(Seq<char>),
}

/// What an error holds.
pub enum LlaErrorView {
    Config(ConfigErrorView),
    Other(Seq<char>),
}

impl View for ConfigErrorKind {
    type V = ConfigErrorView;

    open spec fn view(&self) -> ConfigErrorView {
        match self {
            ConfigErrorKind::InvalidValue(k, why) => ConfigErrorView::InvalidValue(k@, why@),
            ConfigErrorKind::InvalidPath(p) => ConfigErrorView::InvalidPath(p@),
            ConfigErrorKind::ValidationError(m) => ConfigErrorView::ValidationError(m@),
        }
    }
}

impl View for LlaError {
    type V = LlaErrorView;

    open spec fn view(&self) -> LlaErrorView {
        match self {
            LlaError::Config(k) => LlaErrorView::Config(k@),
            LlaError::Other(m) => LlaErrorView::Other(m@),
        }
    }
}

/// A fault of a setting's value.
pub open spec fn invalid_value(key: Seq<char>, why: Seq<char>) -> LlaErrorView {
    LlaErrorView::Config(ConfigErrorView::InvalidValue(key, why))
}

/// A fault of a path.
pub open spec fn invalid_path(what: Seq<char>) -> LlaErrorView {
    LlaErrorView::Config(ConfigErrorView::InvalidPath(what))
}

/// A broken rule.
pub open spec fn validation_error(what: Seq<char>) -> LlaErrorView {
    LlaErrorView::Config(ConfigErrorView::ValidationError(what))
}

impl LlaError {
    /// A fault of a setting's value.
    pub fn value(key: &str, why: String) -> (e: Self)
        ensures
            e@ == invalid_value(key@, why@),
    {
        LlaError::Config(ConfigErrorKind::InvalidValue(key.to_owned(), why))
    }

    /// A fault of a path.
    pub fn path(what: String) -> (e: Self)
        ensures
            e@ == invalid_path(what@),
    {
        LlaError::Config(ConfigErrorKind::InvalidPath(what))
    }

    /// A broken rule.
    pub fn validation(what: String) -> (e: Self)
        ensures
            e@ == validation_error(what@),
    {
        LlaError::Config(ConfigErrorKind::ValidationError(what))
    }
}

} // verus!
