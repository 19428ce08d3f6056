//! What can keep an analysis from giving a result.

use vstd::prelude::*;
use vstd::string::StringExecFns;

verus! {

/// Why the file system failed.
#[verifier::external_type_specification]
#[verifier::external_body]
pub struct ExIoError(std::io::Error);

/// Why a translation unit could not be loaded, as the parser reports it.
#[verifier::external_type_specification]
#[verifier::external_body]
pub struct ExSourceError(clang::SourceError);

/// The mathematical value of a [`CianaError`].
pub enum Failure {
    Message(Seq<char>),
    Source(clang::SourceError),
    NoTarget,
    ConfigMissing,
    IoError,
}

/// Why an analysis gave no result.
#[derive(Debug, PartialEq)]
pub enum CianaError {
    /// The parser could not be started, or the compilation database could not be opened:
    /// the text says which.
    Message(String),
    /// A file could not be parsed.
    Source(clang::SourceError),
    /// No node at the target refers to a declaration.
    NoTarget,
    /// The configuration file, which names the directory of the compilation database, is
    /// not there or cannot be read.
    ConfigMissing,
    /// The file system failed.
    IoError,
}

impl View for CianaError {
    type V = Failure;

    open spec fn view(&self) -> Failure {
        match self {
            CianaError::Message(text) => Failure::Message(text@),
            CianaError::Source(error) => Failure::Source(*error),
            CianaError::NoTarget => Failure::NoTarget,
            CianaError::ConfigMissing => Failure::ConfigMissing,
            CianaError::IoError => Failure::IoError,
        }
    }
}

impl From<String> for CianaError {
    fn from(err: String) -> (error: CianaError) {
        CianaError::Message(err)
    }
}

impl vstd::std_specs::convert::FromSpecImpl<String> for CianaError {
    open spec fn obeys_from_spec() -> bool {
        true
    }

    open spec fn from_spec(err: String) -> CianaError {
        CianaError::Message(err)
    }
}

impl From<clang::SourceError> for CianaError {
    fn from(err: clang::SourceError) -> (error: CianaError) {
        CianaError::Source(err)
    }
}

impl vstd::std_specs::convert::FromSpecImpl<clang::SourceError> for CianaError {
    open spec fn obeys_from_spec() -> bool {
        true
    }

    open spec fn from_spec(err: clang::SourceError) -> CianaError {
        CianaError::Source(err)
    }
}

impl From<std::io::Error> for CianaError {
    fn from(_err: std::io::Error) -> (error: CianaError) {
        CianaError::IoError
    }
}

impl vstd::std_specs::convert::FromSpecImpl<std::io::Error> for CianaError {
    open spec fn obeys_from_spec() -> bool {
        true
    }

    open spec fn from_spec(_err: std::io::Error) -> CianaError {
        CianaError::IoError
    }
}

impl CianaError {
    /// The text that tells the user why the analysis gave no result. For a file that did not
    /// parse it ends with what the parser's error displays.
    pub fn message(&self) -> (text: String)
        ensures
            match self {
                CianaError::Message(detail) => text@ == "Clang Error "@ + detail@,
                CianaError::Source(error) => exists|detail: String|
                    vstd::string::to_string_from_display_ensures::<clang::SourceError>(
                        error,
                        detail,
                    ) && text@ == "clang::Source Error "@ + detail@,
                CianaError::NoTarget => text@ == "Can't find target"@,
                CianaError::ConfigMissing => text@ == "Can't find configuration"@,
                CianaError::IoError => text@ == "Io Error"@,
            },
    {
        match self {
            CianaError::Message(detail) => "Clang Error ".to_owned().concat(detail.as_str()),
            CianaError::Source(error) => {
                let detail = error.to_string();
                "clang::Source Error ".to_owned().concat(detail.as_str())
            },
            CianaError::NoTarget => "Can't find target".to_owned(),
            CianaError::ConfigMissing => "Can't find configuration".to_owned(),
            CianaError::IoError => "Io Error".to_owned(),
        }
    }
}

} // verus!
