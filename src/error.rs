use vstd::prelude::*;

verus! {

/// What can go wrong while reading or writing the namespace.
#[derive(Debug, Clone)]
pub enum AttributeError {
    /// A required property file does not exist; holds its path.
    MissingFile(String),
    /// A required directory does not exist or is not a directory; holds its path.
    MissingDirectory(String),
    /// Storage failed to read or write; holds the reason it gave.
    IOError(String),
    /// A numeric property holds text that is not a number in range; holds that text.
    ParseIntError(String),
    /// The `type` property names a kind outside the five known ones; holds that name.
    UnsupportedAttributeType(String),
    /// A `role` or `mechanism` property names no known member.
    VariantNotFound,
    /// The path is not a namespace root; holds the path.
    InvalidRoot(String),
}

/// The mathematical model of an [`AttributeError`].
pub enum ErrorView {
    MissingFile(Seq<char>),
    MissingDirectory(Seq<char>),
    IOError(Seq<char>),
    ParseIntError(Seq<char>),
    UnsupportedAttributeType(Seq<char>),
    VariantNotFound,
    InvalidRoot(Seq<char>),
}

impl View for AttributeError {
    type V = ErrorView;

    open spec fn view(&self) -> ErrorView {
        match self {
            AttributeError::MissingFile(p) => ErrorView::MissingFile(p@),
            AttributeError::MissingDirectory(p) => ErrorView::MissingDirectory(p@),
            AttributeError::IOError(m) => ErrorView::IOError(m@),
            AttributeError::ParseIntError(t) => ErrorView::ParseIntError(t@),
            AttributeError::UnsupportedAttributeType(t) => ErrorView::UnsupportedAttributeType(t@),
            AttributeError::VariantNotFound => ErrorView::VariantNotFound,
            AttributeError::InvalidRoot(p) => ErrorView::InvalidRoot(p@),
        }
    }
}

/// The model of a result whose success value has a view.
pub open spec fn outcome<T: View>(r: Result<T, AttributeError>) -> Result<T::V, ErrorView> {
    match r {
        Ok(v) => Ok(v@),
        Err(e) => Err(e@),
    }
}

/// The model of a result whose success value has a deep view (a list of texts, an
/// optional text).
pub open spec fn deep_outcome<T: DeepView>(r: Result<T, AttributeError>) -> Result<
    T::V,
    ErrorView,
> {
    match r {
        Ok(v) => Ok(v.deep_view()),
        Err(e) => Err(e@),
    }
}

} // verus!
