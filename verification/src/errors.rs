//! The error that VoLTE operations report: a stable code with optional detail.

use vstd::prelude::*;
use vstd::string::*;

use crate::text;

pub mod code;

verus! {

/// A VoLTE failure: one stable code, and detail where there is some.
#[derive(Debug, PartialEq, Eq)]
pub struct VolteError {
    code: &'static str,
    detail: Option<String>,
}

/// What a `VolteError` says.
pub struct ErrorView {
    pub code: Seq<char>,
    pub detail: Option<Seq<char>>,
}

/// The failure with this code and no detail.
pub open spec fn failure(code: Seq<char>) -> ErrorView {
    ErrorView { code, detail: None }
}

/// The failure with this code and this detail.
pub open spec fn detailed(code: Seq<char>, detail: Seq<char>) -> ErrorView {
    ErrorView { code, detail: Some(detail) }
}

impl View for VolteError {
    type V = ErrorView;

    closed spec fn view(&self) -> ErrorView {
        ErrorView { code: self.code@, detail: text::opt(self.detail) }
    }
}

/// The failure behind an optional error.
pub open spec fn opt_error(value: Option<VolteError>) -> Option<ErrorView> {
    match value {
        Some(error) => Some(error@),
        None => None,
    }
}

impl ErrorView {
    /// The text stored in `last_error`: `code`, or `code:detail`.
    pub open spec fn message(self) -> Seq<char> {
        match self.detail {
            Some(detail) => self.code + ":"@ + detail,
            None => self.code,
        }
    }

    /// The detail, or the empty text where there is none.
    pub open spec fn detail_or_empty(self) -> Seq<char> {
        match self.detail {
            Some(detail) => detail,
            None => Seq::empty(),
        }
    }
}

impl VolteError {
    pub fn new(code: &'static str) -> (error: Self)
        ensures
            error@ == failure(code@),
    {
        VolteError { code, detail: None }
    }

    pub fn with_detail(code: &'static str, detail: &str) -> (error: Self)
        ensures
            error@ == detailed(code@, detail@),
    {
        VolteError { code, detail: Some(detail.to_string()) }
    }

    pub fn code(&self) -> (code: &'static str)
        ensures
            code@ == self@.code,
    {
        self.code
    }

    pub fn detail(&self) -> (detail: Option<&str>)
        ensures
            match detail {
                Some(text) => self@.detail == Some(text@),
                None => self@.detail is None,
            },
    {
        match &self.detail {
            Some(detail) => Some(detail.as_str()),
            None => None,
        }
    }

    /// `code`, or `code:detail`.
    pub fn to_string(&self) -> (message: String)
        ensures
            message@ == self@.message(),
    {
        let mut message = self.code.to_string();
        match &self.detail {
            Some(detail) => {
                message.append(":");
                message.append(detail.as_str());
            },
            None => {},
        }
        message
    }

    /// The error carries `code`.
    pub fn is(&self, code: &str) -> (r: bool)
        ensures
            r == (self@.code == code@),
    {
        text::same(self.code, code)
    }
}

impl Clone for VolteError {
    fn clone(&self) -> (error: Self)
        ensures
            error@ == self@,
    {
        VolteError { code: self.code, detail: self.detail.clone() }
    }
}

pub type VolteResult<T> = Result<T, VolteError>;

} // verus!
