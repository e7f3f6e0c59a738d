//! The errors of every layer, with the text that each one shows.

use crate::text::{digits, digits_text, joined, joined3, owned};
use vstd::prelude::*;
use vstd::string::*;

verus! {

/// An error as a SQL client sees it.
#[derive(Clone, Debug, PartialEq, Eq)]
pub struct SqlError {
    pub code: &'static str,
    pub message: String,
    pub detail: Option<String>,
    pub hint: Option<String>,
    pub position: Option<usize>,
}

/// What a [`SqlError`] says.
pub struct SqlErrorView {
    pub code: Seq<char>,
    pub message: Seq<char>,
    pub detail: Option<Seq<char>>,
    pub hint: Option<Seq<char>>,
    pub position: Option<int>,
}

/// The characters of an optional text.
pub open spec fn optional_text(text: Option<String>) -> Option<Seq<char>> {
    match text {
        Some(t) => Some(t@),
        None => None,
    }
}

impl View for SqlError {
    type V = SqlErrorView;

    open spec fn view(&self) -> SqlErrorView {
        SqlErrorView {
            code: self.code@,
            message: self.message@,
            detail: optional_text(self.detail),
            hint: optional_text(self.hint),
            position: match self.position {
                Some(p) => Some(p as int),
                None => None,
            },
        }
    }
}

/// An error with a code and a message and nothing else.
pub open spec fn sql_error(code: Seq<char>, message: Seq<char>) -> SqlErrorView {
    SqlErrorView { code, message, detail: None, hint: None, position: None }
}

impl SqlError {
    pub fn new(code: &'static str, message: &str) -> (error: Self)
        ensures
            error@ == sql_error(code@, message@),
    {
        SqlError { code, message: owned(message), detail: None, hint: None, position: None }
    }

    pub fn detail(self, detail: &str) -> (error: Self)
        ensures
            error@ == (SqlErrorView { detail: Some(detail@), ..self@ }),
    {
        SqlError {
            code: self.code,
            message: self.message,
            detail: Some(owned(detail)),
            hint: self.hint,
            position: self.position,
        }
    }

    pub fn hint(self, hint: &str) -> (error: Self)
        ensures
            error@ == (SqlErrorView { hint: Some(hint@), ..self@ }),
    {
        SqlError {
            code: self.code,
            message: self.message,
            detail: self.detail,
            hint: Some(owned(hint)),
            position: self.position,
        }
    }

    pub fn at(self, position: usize) -> (error: Self)
        ensures
            error@ == (SqlErrorView { position: Some(position as int), ..self@ }),
    {
        SqlError {
            code: self.code,
            message: self.message,
            detail: self.detail,
            hint: self.hint,
            position: Some(position),
        }
    }

    pub fn serialization(message: &str) -> (error: Self)
        ensures
            error@ == sql_error("40001"@, message@),
    {
        Self::new("40001", message)
    }

    pub fn unsupported(message: &str) -> (error: Self)
        ensures
            error@ == sql_error("0A000"@, message@),
    {
        Self::new("0A000", message)
    }

    pub fn cluster_unavailable(message: &str) -> (error: Self)
        ensures
            error@ == sql_error("57P03"@, message@),
    {
        Self::new("57P03", message)
    }

    pub fn failed_transaction() -> (error: Self)
        ensures
            error@ == sql_error(
                "25P02"@,
                "current transaction is aborted, commands ignored until end of transaction block"@,
            ),
    {
        Self::new(
            "25P02",
            "current transaction is aborted, commands ignored until end of transaction block",
        )
    }
}

/// An error of the node itself.
#[derive(Clone, Debug)]
pub enum ChorusError {
    Sql(SqlError),
    Storage(String),
    Consensus(String),
    Protocol(String),
    Limit(String),
    Serialization(String),
    Internal(String),
}

/// What a [`ChorusError`] says.
pub enum ChorusErrorView {
    Sql(SqlErrorView),
    Storage(Seq<char>),
    Consensus(Seq<char>),
    Protocol(Seq<char>),
    Limit(Seq<char>),
    Serialization(Seq<char>),
    Internal(Seq<char>),
}

impl View for ChorusError {
    type V = ChorusErrorView;

    open spec fn view(&self) -> ChorusErrorView {
        match self {
            ChorusError::Sql(e) => ChorusErrorView::Sql(e@),
            ChorusError::Storage(m) => ChorusErrorView::Storage(m@),
            ChorusError::Consensus(m) => ChorusErrorView::Consensus(m@),
            ChorusError::Protocol(m) => ChorusErrorView::Protocol(m@),
            ChorusError::Limit(m) => ChorusErrorView::Limit(m@),
            ChorusError::Serialization(m) => ChorusErrorView::Serialization(m@),
            ChorusError::Internal(m) => ChorusErrorView::Internal(m@),
        }
    }
}

impl ChorusErrorView {
    /// The line that is shown for the error.
    pub open spec fn text(self) -> Seq<char> {
        match self {
            ChorusErrorView::Sql(e) => "sql error: "@ + e.message,
            ChorusErrorView::Storage(m) => "storage error: "@ + m,
            ChorusErrorView::Consensus(m) => "consensus unavailable: "@ + m,
            ChorusErrorView::Protocol(m) => "protocol error: "@ + m,
            ChorusErrorView::Limit(m) => "resource limit: "@ + m,
            ChorusErrorView::Serialization(m) => "serialization error: "@ + m,
            ChorusErrorView::Internal(m) => "internal invariant failure: "@ + m,
        }
    }
}

pub type Result<T> = std::result::Result<T, ChorusError>;

impl ChorusError {
    pub fn storage(message: &str) -> (error: Self)
        ensures
            error@ == ChorusErrorView::Storage(message@),
    {
        ChorusError::Storage(owned(message))
    }

    pub fn consensus(message: &str) -> (error: Self)
        ensures
            error@ == ChorusErrorView::Consensus(message@),
    {
        ChorusError::Consensus(owned(message))
    }

    pub fn protocol(message: &str) -> (error: Self)
        ensures
            error@ == ChorusErrorView::Protocol(message@),
    {
        ChorusError::Protocol(owned(message))
    }

    pub fn limit(message: &str) -> (error: Self)
        ensures
            error@ == ChorusErrorView::Limit(message@),
    {
        ChorusError::Limit(owned(message))
    }

    pub fn internal(message: &str) -> (error: Self)
        ensures
            error@ == ChorusErrorView::Internal(message@),
    {
        ChorusError::Internal(owned(message))
    }

    /// The line that is shown for the error.
    pub fn text(&self) -> (text: String)
        ensures
            text@ == self@.text(),
    {
        match self {
            ChorusError::Sql(e) => joined("sql error: ", e.message.as_str()),
            ChorusError::Storage(m) => joined("storage error: ", m.as_str()),
            ChorusError::Consensus(m) => joined("consensus unavailable: ", m.as_str()),
            ChorusError::Protocol(m) => joined("protocol error: ", m.as_str()),
            ChorusError::Limit(m) => joined("resource limit: ", m.as_str()),
            ChorusError::Serialization(m) => joined("serialization error: ", m.as_str()),
            ChorusError::Internal(m) => joined("internal invariant failure: ", m.as_str()),
        }
    }
}

/// Adds two counters, naming the counter that ran out where the sum does not
/// fit.
pub fn checked_add_u64(a: u64, b: u64, what: &str) -> (sum: Result<u64>)
    ensures
        a + b <= u64::MAX ==> sum == Ok::<u64, ChorusError>((a + b) as u64),
        a + b > u64::MAX ==> sum is Err && sum->Err_0@ == ChorusErrorView::Limit(
            what@ + " exhausted"@,
        ),
{
    match a.checked_add(b) {
        Some(sum) => Ok(sum),
        None => Err(ChorusError::Limit(joined(what, " exhausted"))),
    }
}

/// An error of the binary encodings.
#[derive(Clone, Debug, PartialEq, Eq)]
pub enum CodecError {
    Truncated,
    InvalidVersion(u64),
    InvalidTag(u8),
    InvalidUtf8,
    InvalidJson(String),
    Limit(String),
    Malformed(String),
}

/// What a [`CodecError`] says.
pub enum CodecErrorView {
    Truncated,
    InvalidVersion(nat),
    InvalidTag(nat),
    InvalidUtf8,
    InvalidJson(Seq<char>),
    Limit(Seq<char>),
    Malformed(Seq<char>),
}

impl View for CodecError {
    type V = CodecErrorView;

    open spec fn view(&self) -> CodecErrorView {
        match self {
            CodecError::Truncated => CodecErrorView::Truncated,
            CodecError::InvalidVersion(v) => CodecErrorView::InvalidVersion(*v as nat),
            CodecError::InvalidTag(t) => CodecErrorView::InvalidTag(*t as nat),
            CodecError::InvalidUtf8 => CodecErrorView::InvalidUtf8,
            CodecError::InvalidJson(m) => CodecErrorView::InvalidJson(m@),
            CodecError::Limit(m) => CodecErrorView::Limit(m@),
            CodecError::Malformed(m) => CodecErrorView::Malformed(m@),
        }
    }
}

/// A text between quotation marks with its special characters escaped, as the
/// standard library's debug notation writes it.
pub uninterp spec fn debug_notation(text: Seq<char>) -> Seq<char>;

/// `str`'s debug notation: the result depends on the text alone. Which
/// characters are escaped, and how, is left unsaid.
#[verifier::external_body]
pub(crate) fn debug_text(text: &str) -> (quoted: String)
    ensures
        quoted@ == debug_notation(text@),
{
    format!("{:?}", text)
}

impl CodecErrorView {
    /// The line that is shown for the error, `quote` writing a message between
    /// quotation marks.
    pub open spec fn text(self, quote: spec_fn(Seq<char>) -> Seq<char>) -> Seq<char> {
        match self {
            CodecErrorView::Truncated => "Truncated"@,
            CodecErrorView::InvalidVersion(v) => "InvalidVersion("@ + digits(v) + ")"@,
            CodecErrorView::InvalidTag(t) => "InvalidTag("@ + digits(t) + ")"@,
            CodecErrorView::InvalidUtf8 => "InvalidUtf8"@,
            CodecErrorView::InvalidJson(m) => "InvalidJson("@ + quote(m) + ")"@,
            CodecErrorView::Limit(m) => "Limit("@ + quote(m) + ")"@,
            CodecErrorView::Malformed(m) => "Malformed("@ + quote(m) + ")"@,
        }
    }
}

impl CodecError {
    pub fn limit(message: &str) -> (error: Self)
        ensures
            error@ == CodecErrorView::Limit(message@),
    {
        CodecError::Limit(owned(message))
    }

    pub fn malformed(message: &str) -> (error: Self)
        ensures
            error@ == CodecErrorView::Malformed(message@),
    {
        CodecError::Malformed(owned(message))
    }

    /// The line that is shown for the error.
    pub fn text(&self) -> (text: String)
        ensures
            text@ == self@.text(|m: Seq<char>| debug_notation(m)),
    {
        match self {
            CodecError::Truncated => owned("Truncated"),
            CodecError::InvalidVersion(v) => joined3(
                "InvalidVersion(",
                digits_text(*v).as_str(),
                ")",
            ),
            CodecError::InvalidTag(t) => joined3(
                "InvalidTag(",
                digits_text(*t as u64).as_str(),
                ")",
            ),
            CodecError::InvalidUtf8 => owned("InvalidUtf8"),
            CodecError::InvalidJson(m) => joined3(
                "InvalidJson(",
                debug_text(m.as_str()).as_str(),
                ")",
            ),
            CodecError::Limit(m) => joined3("Limit(", debug_text(m.as_str()).as_str(), ")"),
            CodecError::Malformed(m) => joined3("Malformed(", debug_text(m.as_str()).as_str(), ")"),
        }
    }

    /// The error as the layers above the encodings report it.
    pub fn into_chorus(self) -> (error: ChorusError)
        ensures
            error@ == ChorusErrorView::Serialization(
                self@.text(|m: Seq<char>| debug_notation(m)),
            ),
    {
        ChorusError::Serialization(self.text())
    }
}

} // verus!
