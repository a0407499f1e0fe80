//! Error kinds and the context (resource type, field, detail) attached to
//! each error the domain reports.
use vstd::prelude::*;

verus! {

/// The views of a sequence of strings.
pub open spec fn strs_view(v: Seq<String>) -> Seq<Seq<char>> {
    v.map_values(|s: String| s@)
}

/// Error kinds shared by every part of the domain.
#[derive(Debug, Clone, PartialEq, Eq)]
pub enum SharedErrorKind {
    /// A value that must not be empty (or blank) is.
    NonEmpty,
    /// A value that must not be negative is; `actual` is the value printed.
    NonNegative { actual: String },
    /// A value does not have the expected textual format.
    InvalidFormat { value: String },
    /// Values that cannot be used together were given together.
    ConflictingValues { values: Vec<String> },
    /// A value that must be unique appears twice.
    DuplicateValues { value: String },
    /// A referenced resource does not exist.
    NotFound,
    /// The request conflicts with the current state.
    Conflict,
    /// The caller is not authenticated.
    Unauthorized,
    /// The caller may not do this.
    Forbidden,
    /// Something failed inside.
    Internal,
}

/// Domain error kinds: the shared ones and a mismatch between related
/// entities.
#[derive(Debug, Clone, PartialEq, Eq)]
pub enum ErrorKind {
    /// A shared error kind.
    Shared(SharedErrorKind),
    /// A value does not match the expected value from a related entity.
    Mismatch { expected: String, actual: String },
}

/// Where an error comes from.
#[derive(Debug, Clone, PartialEq, Eq)]
pub struct ErrorContext {
    pub resource_type: Option<String>,
    pub field: Option<String>,
    pub detail: Option<String>,
}

/// An error kind with its context.
#[derive(Debug, Clone, PartialEq, Eq)]
pub struct Error {
    pub error: ErrorKind,
    pub context: ErrorContext,
}

/// The mathematical form of a shared error kind.
pub enum SharedErrorKindView {
    NonEmpty,
    NonNegative { actual: Seq<char> },
    InvalidFormat { value: Seq<char> },
    ConflictingValues { values: Seq<Seq<char>> },
    DuplicateValues { value: Seq<char> },
    NotFound,
    Conflict,
    Unauthorized,
    Forbidden,
    Internal,
}

/// The mathematical form of an error kind.
pub enum ErrorKindView {
    Shared(SharedErrorKindView),
    Mismatch { expected: Seq<char>, actual: Seq<char> },
}

/// The mathematical form of an error.
pub struct ErrorView {
    pub kind: ErrorKindView,
    pub resource_type: Option<Seq<char>>,
    pub field: Option<Seq<char>>,
    pub detail: Option<Seq<char>>,
}

pub open spec fn opt_str_view(o: Option<String>) -> Option<Seq<char>> {
    match o {
        Some(s) => Some(s@),
        None => None,
    }
}

impl View for SharedErrorKind {
    type V = SharedErrorKindView;

    open spec fn view(&self) -> SharedErrorKindView {
        match self {
            SharedErrorKind::NonEmpty => SharedErrorKindView::NonEmpty,
            SharedErrorKind::NonNegative { actual } => SharedErrorKindView::NonNegative {
                actual: actual@,
            },
            SharedErrorKind::InvalidFormat { value } => SharedErrorKindView::InvalidFormat {
                value: value@,
            },
            SharedErrorKind::ConflictingValues { values } => SharedErrorKindView::ConflictingValues {
                values: strs_view(values@),
            },
            SharedErrorKind::DuplicateValues { value } => SharedErrorKindView::DuplicateValues {
                value: value@,
            },
            SharedErrorKind::NotFound => SharedErrorKindView::NotFound,
            SharedErrorKind::Conflict => SharedErrorKindView::Conflict,
            SharedErrorKind::Unauthorized => SharedErrorKindView::Unauthorized,
            SharedErrorKind::Forbidden => SharedErrorKindView::Forbidden,
            SharedErrorKind::Internal => SharedErrorKindView::Internal,
        }
    }
}

impl View for ErrorKind {
    type V = ErrorKindView;

    open spec fn view(&self) -> ErrorKindView {
        match self {
            ErrorKind::Shared(k) => ErrorKindView::Shared(k@),
            ErrorKind::Mismatch { expected, actual } => ErrorKindView::Mismatch {
                expected: expected@,
                actual: actual@,
            },
        }
    }
}

impl View for Error {
    type V = ErrorView;

    open spec fn view(&self) -> ErrorView {
        ErrorView {
            kind: self.error@,
            resource_type: opt_str_view(self.context.resource_type),
            field: opt_str_view(self.context.field),
            detail: opt_str_view(self.context.detail),
        }
    }
}

/// An error view with the given kind and context.
pub open spec fn err_view(
    kind: ErrorKindView,
    resource_type: Option<Seq<char>>,
    field: Option<Seq<char>>,
    detail: Option<Seq<char>>,
) -> ErrorView {
    ErrorView { kind, resource_type, field, detail }
}

/// A shared error kind with a resource type and a field, and no detail.
pub open spec fn shared_err(k: SharedErrorKindView, resource: Seq<char>, field: Seq<char>) -> ErrorView {
    ErrorView {
        kind: ErrorKindView::Shared(k),
        resource_type: Some(resource),
        field: Some(field),
        detail: None,
    }
}

/// A shared error kind with a resource type, a field and a detail.
pub open spec fn shared_err_detail(
    k: SharedErrorKindView,
    resource: Seq<char>,
    field: Seq<char>,
    detail: Seq<char>,
) -> ErrorView {
    ErrorView {
        kind: ErrorKindView::Shared(k),
        resource_type: Some(resource),
        field: Some(field),
        detail: Some(detail),
    }
}

/// The HTTP status that a shared error kind maps to by default.
pub open spec fn shared_status(k: SharedErrorKindView) -> u16 {
    match k {
        SharedErrorKindView::NonEmpty => 422u16,
        SharedErrorKindView::NonNegative { .. } => 422u16,
        SharedErrorKindView::InvalidFormat { .. } => 422u16,
        SharedErrorKindView::ConflictingValues { .. } => 422u16,
        SharedErrorKindView::DuplicateValues { .. } => 409u16,
        SharedErrorKindView::NotFound => 404u16,
        SharedErrorKindView::Conflict => 409u16,
        SharedErrorKindView::Unauthorized => 401u16,
        SharedErrorKindView::Forbidden => 403u16,
        SharedErrorKindView::Internal => 500u16,
    }
}

impl SharedErrorKind {
    /// The HTTP status that this kind maps to by default.
    pub fn default_status(&self) -> (r: u16)
        ensures
            r == shared_status(self@),
    {
        match self {
            SharedErrorKind::NonEmpty => 422,
            SharedErrorKind::NonNegative { .. } => 422,
            SharedErrorKind::InvalidFormat { .. } => 422,
            SharedErrorKind::ConflictingValues { .. } => 422,
            SharedErrorKind::DuplicateValues { .. } => 409,
            SharedErrorKind::NotFound => 404,
            SharedErrorKind::Conflict => 409,
            SharedErrorKind::Unauthorized => 401,
            SharedErrorKind::Forbidden => 403,
            SharedErrorKind::Internal => 500,
        }
    }

    /// The error with this kind and no context.
    pub fn into_error(self) -> (r: Error)
        ensures
            r@ == err_view(ErrorKindView::Shared(self@), None, None, None),
    {
        Error {
            error: ErrorKind::Shared(self),
            context: ErrorContext { resource_type: None, field: None, detail: None },
        }
    }
}

impl ErrorKind {
    /// The HTTP status that this kind maps to by default.
    pub fn default_status(&self) -> (r: u16)
        ensures
            r == (match self@ {
                ErrorKindView::Shared(k) => shared_status(k),
                ErrorKindView::Mismatch { .. } => 422u16,
            }),
    {
        match self {
            ErrorKind::Shared(k) => k.default_status(),
            ErrorKind::Mismatch { .. } => 422,
        }
    }

    /// A mismatch error: `expected` came from the related entity, `actual`
    /// was given.
    pub fn mismatch(expected: String, actual: String) -> (r: Error)
        ensures
            r@ == err_view(
                ErrorKindView::Mismatch { expected: expected@, actual: actual@ },
                None,
                None,
                None,
            ),
    {
        Error {
            error: ErrorKind::Mismatch { expected, actual },
            context: ErrorContext { resource_type: None, field: None, detail: None },
        }
    }
}

impl Error {
    /// The same error with the resource type set.
    pub fn with_resource_type(self, resource_type: &str) -> (r: Error)
        ensures
            r@ == (ErrorView { resource_type: Some(resource_type@), ..self@ }),
    {
        let mut e = self;
        e.context.resource_type = Some(resource_type.to_string());
        e
    }

    /// The same error with the field set.
    pub fn with_field(self, field: &str) -> (r: Error)
        ensures
            r@ == (ErrorView { field: Some(field@), ..self@ }),
    {
        let mut e = self;
        e.context.field = Some(field.to_string());
        e
    }

    /// The same error with the detail set.
    pub fn with_detail(self, detail: String) -> (r: Error)
        ensures
            r@ == (ErrorView { detail: Some(detail@), ..self@ }),
    {
        let mut e = self;
        e.context.detail = Some(detail);
        e
    }
}

} // verus!
