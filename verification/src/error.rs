//! The failures of the operations on a project.

use vstd::prelude::*;
use vstd::string::*;

verus! {

/// Why an operation on the project gave up. Each variant carries the text
/// that caused it; those that stand for a failure outside the project carry
/// what the failing part said as well.
#[derive(Debug, Clone, PartialEq, Eq)]
pub enum Error {
    /// The file of the project could not be read.
    ConfigNotFound { path: String, reason: String },
    /// The file of the project does not hold a project.
    ConfigParseError { project: String, reason: String },
    /// The file of the project could not be written.
    ConfigWriteError { project: String, reason: String },
    /// A key that follows neither `DATABASE___TABLE` nor `DATABASE___TABLE.COLUMN`,
    /// whichever was asked for.
    MalformedKey(String),
    /// A table key that names no table of the project.
    UnknownTable(String),
    /// A column key that names no column of the project.
    UnknownReferencedColumn(String),
    /// A column-name pattern that is no regular expression.
    InvalidPattern(String),
    /// The database at `address` could not be reached.
    AdapterConnectionError { address: String, reason: String },
    /// The database at `address` could not be queried.
    AdapterQueryError { address: String, reason: String },
}

/// The model of an [`Error`].
pub enum ErrorModel {
    ConfigNotFound { path: Seq<char>, reason: Seq<char> },
    ConfigParseError { project: Seq<char>, reason: Seq<char> },
    ConfigWriteError { project: Seq<char>, reason: Seq<char> },
    MalformedKey(Seq<char>),
    UnknownTable(Seq<char>),
    UnknownReferencedColumn(Seq<char>),
    InvalidPattern(Seq<char>),
    AdapterConnectionError { address: Seq<char>, reason: Seq<char> },
    AdapterQueryError { address: Seq<char>, reason: Seq<char> },
}

impl DeepView for Error {
    type V = ErrorModel;

    open spec fn deep_view(&self) -> ErrorModel {
        match self {
            Error::ConfigNotFound { path, reason } => ErrorModel::ConfigNotFound {
                path: path@,
                reason: reason@,
            },
            Error::ConfigParseError { project, reason } => ErrorModel::ConfigParseError {
                project: project@,
                reason: reason@,
            },
            Error::ConfigWriteError { project, reason } => ErrorModel::ConfigWriteError {
                project: project@,
                reason: reason@,
            },
            Error::MalformedKey(key) => ErrorModel::MalformedKey(key@),
            Error::UnknownTable(key) => ErrorModel::UnknownTable(key@),
            Error::UnknownReferencedColumn(key) => ErrorModel::UnknownReferencedColumn(key@),
            Error::InvalidPattern(pattern) => ErrorModel::InvalidPattern(pattern@),
            Error::AdapterConnectionError { address, reason } => ErrorModel::AdapterConnectionError {
                address: address@,
                reason: reason@,
            },
            Error::AdapterQueryError { address, reason } => ErrorModel::AdapterQueryError {
                address: address@,
                reason: reason@,
            },
        }
    }
}

/// A sentence about `subject`, followed by what the failing part said.
pub open spec fn with_reason(
    opening: Seq<char>,
    subject: Seq<char>,
    closing: Seq<char>,
    reason: Seq<char>,
) -> Seq<char> {
    opening + subject + closing + reason
}

/// The sentence that reports `error`.
pub open spec fn message_of(error: ErrorModel) -> Seq<char> {
    match error {
        ErrorModel::ConfigNotFound { path, reason } => with_reason(
            "Error reading file at '"@,
            path,
            "': "@,
            reason,
        ),
        ErrorModel::ConfigParseError { project, reason } => with_reason(
            "Could not parse the config file for the '"@,
            project,
            "' project: "@,
            reason,
        ),
        ErrorModel::ConfigWriteError { project, reason } => with_reason(
            "Could not save the updated configuration for project '"@,
            project,
            "': "@,
            reason,
        ),
        ErrorModel::MalformedKey(key) => "The key '"@ + key
            + "' must follow the pattern DATABASE_NAME___TABLE_NAME, or DATABASE_NAME___TABLE_NAME.COLUMN_NAME for a column"@,
        ErrorModel::UnknownTable(key) => "The given table '"@ + key
            + "' does not match an existing table of the project"@,
        ErrorModel::UnknownReferencedColumn(key) => "The given referenced key '"@ + key
            + "' does not match a mapped column of the project"@,
        ErrorModel::InvalidPattern(pattern) => "The pattern '"@ + pattern
            + "' is not a valid regular expression"@,
        ErrorModel::AdapterConnectionError { address, reason } => with_reason(
            "Could not connect to '"@,
            address,
            "': "@,
            reason,
        ),
        ErrorModel::AdapterQueryError { address, reason } => with_reason(
            "Could not run the scan query on '"@,
            address,
            "': "@,
            reason,
        ),
    }
}

fn sentence(opening: &str, subject: &str, closing: &str) -> (text: String)
    ensures
        text@ == opening@ + subject@ + closing@,
{
    let mut text = String::from_str(opening);
    text.append(subject);
    text.append(closing);
    text
}

fn sentence_with_reason(opening: &str, subject: &str, closing: &str, reason: &str) -> (text: String)
    ensures
        text@ == with_reason(opening@, subject@, closing@, reason@),
{
    let mut text = sentence(opening, subject, closing);
    text.append(reason);
    text
}

impl Error {
    /// The sentence that reports this error.
    pub fn message(&self) -> (text: String)
        ensures
            text@ == message_of(self.deep_view()),
    {
        match self {
            Error::ConfigNotFound { path, reason } => sentence_with_reason(
                "Error reading file at '",
                path.as_str(),
                "': ",
                reason.as_str(),
            ),
            Error::ConfigParseError { project, reason } => sentence_with_reason(
                "Could not parse the config file for the '",
                project.as_str(),
                "' project: ",
                reason.as_str(),
            ),
            Error::ConfigWriteError { project, reason } => sentence_with_reason(
                "Could not save the updated configuration for project '",
                project.as_str(),
                "': ",
                reason.as_str(),
            ),
            Error::MalformedKey(key) => sentence(
                "The key '",
                key.as_str(),
                "' must follow the pattern DATABASE_NAME___TABLE_NAME, or DATABASE_NAME___TABLE_NAME.COLUMN_NAME for a column",
            ),
            Error::UnknownTable(key) => sentence(
                "The given table '",
                key.as_str(),
                "' does not match an existing table of the project",
            ),
            Error::UnknownReferencedColumn(key) => sentence(
                "The given referenced key '",
                key.as_str(),
                "' does not match a mapped column of the project",
            ),
            Error::InvalidPattern(pattern) => sentence(
                "The pattern '",
                pattern.as_str(),
                "' is not a valid regular expression",
            ),
            Error::AdapterConnectionError { address, reason } => sentence_with_reason(
                "Could not connect to '",
                address.as_str(),
                "': ",
                reason.as_str(),
            ),
            Error::AdapterQueryError { address, reason } => sentence_with_reason(
                "Could not run the scan query on '",
                address.as_str(),
                "': ",
                reason.as_str(),
            ),
        }
    }
}

} // verus!
