//! The error type of every input method operation.

use vstd::prelude::*;

use crate::text::push_text;

verus! {

/// Error type for input method operations.
#[derive(Debug)]
pub enum ImSwitchError {
    /// An I/O failure, with the text of the underlying error.
    Io(String),
    /// The platform has no supported input method backend.
    UnsupportedPlatform,
    /// The requested input method does not exist.
    InputMethodNotFound(String),
    /// A backend failure, with its description.
    Platform(String),
}

/// The mathematical value of an [`ImSwitchError`].
pub enum ErrorModel {
    Io(Seq<char>),
    UnsupportedPlatform,
    InputMethodNotFound(Seq<char>),
    Platform(Seq<char>),
}

impl View for ImSwitchError {
    type V = ErrorModel;

    open spec fn view(&self) -> ErrorModel {
        match self {
            ImSwitchError::Io(m) => ErrorModel::Io(m@),
            ImSwitchError::UnsupportedPlatform => ErrorModel::UnsupportedPlatform,
            ImSwitchError::InputMethodNotFound(m) => ErrorModel::InputMethodNotFound(m@),
            ImSwitchError::Platform(m) => ErrorModel::Platform(m@),
        }
    }
}

/// The text by which an error is shown to a user.
pub open spec fn error_text(e: ErrorModel) -> Seq<char> {
    match e {
        ErrorModel::Io(m) => "IO error: "@ + m,
        ErrorModel::UnsupportedPlatform => "unsupported platform"@,
        ErrorModel::InputMethodNotFound(m) => "input method not found: "@ + m,
        ErrorModel::Platform(m) => m,
    }
}

impl ImSwitchError {
    /// The text by which this error is shown to a user.
    pub fn message(&self) -> (s: String)
        ensures
            s@ == error_text(self@),
    {
        match self {
            ImSwitchError::Io(m) => {
                let mut s = "IO error: ".to_owned();
                push_text(&mut s, m.as_str());
                s
            },
            ImSwitchError::UnsupportedPlatform => "unsupported platform".to_owned(),
            ImSwitchError::InputMethodNotFound(m) => {
                let mut s = "input method not found: ".to_owned();
                push_text(&mut s, m.as_str());
                s
            },
            ImSwitchError::Platform(m) => m.clone(),
        }
    }
}

/// A backend failure whose description is `prefix` followed by `detail`.
pub fn platform_error(prefix: &str, detail: &str) -> (e: ImSwitchError)
    ensures
        e@ == ErrorModel::Platform(prefix@ + detail@),
{
    let mut s = prefix.to_owned();
    push_text(&mut s, detail);
    ImSwitchError::Platform(s)
}

} // verus!
