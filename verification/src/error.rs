//! Error values returned by the document model and the codec.

use vstd::prelude::*;
use vstd::string::StringExecFns;

verus! {

/// Everything that can go wrong in this crate.  Each variant carries a
/// human-readable detail.
#[derive(Debug, PartialEq)]
pub enum Error {
    /// A widget (or the parent named in a request) is not in the document.
    WidgetNotFound(String),
    /// Encoding a document failed.
    SerializationError(String),
    /// The text is not JSON, is not a document, or is a broken document.
    DeserializationError(String),
    /// A widget configuration was rejected.
    InvalidConfig(String),
    /// A theme could not be used.
    ThemeError(String),
    /// The document is structurally inconsistent for the requested operation.
    InvalidOperation(String),
}

/// The mathematical content of an [`Error`].
pub enum ErrorView {
    WidgetNotFound(Seq<char>),
    SerializationError(Seq<char>),
    DeserializationError(Seq<char>),
    InvalidConfig(Seq<char>),
    ThemeError(Seq<char>),
    InvalidOperation(Seq<char>),
}

impl ErrorView {
    /// The detail carried by the error.
    pub open spec fn detail(self) -> Seq<char> {
        match self {
            ErrorView::WidgetNotFound(s) => s,
            ErrorView::SerializationError(s) => s,
            ErrorView::DeserializationError(s) => s,
            ErrorView::InvalidConfig(s) => s,
            ErrorView::ThemeError(s) => s,
            ErrorView::InvalidOperation(s) => s,
        }
    }

    /// The fixed text that introduces the detail in a message.
    pub open spec fn heading(self) -> Seq<char> {
        match self {
            ErrorView::WidgetNotFound(_) => "Widget not found: "@,
            ErrorView::SerializationError(_) => "Serialization error: "@,
            ErrorView::DeserializationError(_) => "Deserialization error: "@,
            ErrorView::InvalidConfig(_) => "Invalid widget configuration: "@,
            ErrorView::ThemeError(_) => "Theme error: "@,
            ErrorView::InvalidOperation(_) => "Invalid operation: "@,
        }
    }

    /// The full message: heading, then detail.
    pub open spec fn message(self) -> Seq<char> {
        self.heading() + self.detail()
    }
}

impl View for Error {
    type V = ErrorView;

    open spec fn view(&self) -> ErrorView {
        match self {
            Error::WidgetNotFound(s) => ErrorView::WidgetNotFound(s@),
            Error::SerializationError(s) => ErrorView::SerializationError(s@),
            Error::DeserializationError(s) => ErrorView::DeserializationError(s@),
            Error::InvalidConfig(s) => ErrorView::InvalidConfig(s@),
            Error::ThemeError(s) => ErrorView::ThemeError(s@),
            Error::InvalidOperation(s) => ErrorView::InvalidOperation(s@),
        }
    }
}

impl Clone for Error {
    fn clone(&self) -> (r: Self)
        ensures
            r == *self,
    {
        match self {
            Error::WidgetNotFound(s) => Error::WidgetNotFound(s.clone()),
            Error::SerializationError(s) => Error::SerializationError(s.clone()),
            Error::DeserializationError(s) => Error::DeserializationError(s.clone()),
            Error::InvalidConfig(s) => Error::InvalidConfig(s.clone()),
            Error::ThemeError(s) => Error::ThemeError(s.clone()),
            Error::InvalidOperation(s) => Error::InvalidOperation(s.clone()),
        }
    }
}

impl Error {
    /// The detail carried by the error.
    pub fn detail(&self) -> (r: &String)
        ensures
            r@ == self@.detail(),
    {
        match self {
            Error::WidgetNotFound(s) => s,
            Error::SerializationError(s) => s,
            Error::DeserializationError(s) => s,
            Error::InvalidConfig(s) => s,
            Error::ThemeError(s) => s,
            Error::InvalidOperation(s) => s,
        }
    }

    /// The message a user is shown: a heading for the kind of error, then the
    /// detail.
    pub fn message(&self) -> (r: String)
        ensures
            r@ == self@.message(),
    {
        let heading: &str = match self {
            Error::WidgetNotFound(_) => "Widget not found: ",
            Error::SerializationError(_) => "Serialization error: ",
            Error::DeserializationError(_) => "Deserialization error: ",
            Error::InvalidConfig(_) => "Invalid widget configuration: ",
            Error::ThemeError(_) => "Theme error: ",
            Error::InvalidOperation(_) => "Invalid operation: ",
        };
        heading.to_owned().concat(self.detail().as_str())
    }
}

} // verus!
