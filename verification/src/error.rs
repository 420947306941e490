//! The closed set of failures that extraction and loading can report.

use vstd::prelude::*;
use crate::selector::Selector;
use crate::selector::SelectorV;

verus! {

/// A failure of the newsletter pipeline.
///
/// - `Http(status)`: the page fetch answered with a non-success status.
/// - `ElementNotFound(selector)`: a required element was absent from the
///   parsed document.
/// - `MissingAttribute(name)`: a required element was found but lacks the
///   named attribute.
/// - `SelectorSyntax`: a selector was malformed; the selectors of this
///   library are built structurally, so extraction never reports it.
#[derive(Debug, PartialEq, Eq)]
pub enum Error {
    Http(u16),
    ElementNotFound(Selector),
    MissingAttribute(String),
    SelectorSyntax,
}

/// The mathematical shape of an [`Error`].
pub enum ErrorV {
    Http(u16),
    ElementNotFound(SelectorV),
    MissingAttribute(Seq<char>),
    SelectorSyntax,
}

impl View for Error {
    type V = ErrorV;

    open spec fn view(&self) -> ErrorV {
        match self {
            Error::Http(status) => ErrorV::Http(*status),
            Error::ElementNotFound(s) => ErrorV::ElementNotFound(s@),
            Error::MissingAttribute(a) => ErrorV::MissingAttribute(a@),
            Error::SelectorSyntax => ErrorV::SelectorSyntax,
        }
    }
}

} // verus!
