//! Why a slide, or a whole presentation, could not be assembled.

use vstd::prelude::*;

verus! {

/// The two classes of failure.
#[derive(Clone, Copy, Debug, PartialEq, Eq, Structural)]
pub enum ErrorClass {
    /// A reference that leads nowhere.
    NotFound,
    /// A template that cannot take what it is asked to take.
    TemplateMismatch,
}

/// A failure of assembly.
#[derive(Clone, Copy, Debug, PartialEq, Eq, Structural)]
pub enum AssemblyError {
    /// The winning rule appoints a gitsawe that does not exist.
    GitsaweNotFound,
    /// The layout requires verses and the segment has none.
    VersesNotFound,
    /// The presentation names a template that does not exist.
    TemplateNotFound,
    /// The effective template has no layout for the slide's kind.
    UnknownKind,
    /// The presentation has more languages than the effective template has
    /// room for.
    TooManyLanguages,
}

impl AssemblyError {
    /// The class of the failure, as a mathematical function.
    pub open spec fn class_of(self) -> ErrorClass {
        match self {
            AssemblyError::GitsaweNotFound => ErrorClass::NotFound,
            AssemblyError::VersesNotFound => ErrorClass::NotFound,
            AssemblyError::TemplateNotFound => ErrorClass::NotFound,
            AssemblyError::UnknownKind => ErrorClass::TemplateMismatch,
            AssemblyError::TooManyLanguages => ErrorClass::TemplateMismatch,
        }
    }

    /// The class of the failure.
    pub fn class(&self) -> (class: ErrorClass)
        ensures
            class == self.class_of(),
    {
        match self {
            AssemblyError::GitsaweNotFound => ErrorClass::NotFound,
            AssemblyError::VersesNotFound => ErrorClass::NotFound,
            AssemblyError::TemplateNotFound => ErrorClass::NotFound,
            AssemblyError::UnknownKind => ErrorClass::TemplateMismatch,
            AssemblyError::TooManyLanguages => ErrorClass::TemplateMismatch,
        }
    }
}

} // verus!
