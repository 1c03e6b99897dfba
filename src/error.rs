use vstd::prelude::*;

verus! {

/// Power sequence error.
pub trait Error: core::fmt::Debug {
    /// Converts the error to a generic power sequence error kind, upon which
    /// generic code can act.
    fn kind(&self) -> ErrorKind;
}

/// Power sequence error kind.
///
/// The common set of errors. Implementations are free to define more specific
/// error types, mapping them to these kinds through [`Error::kind`].
#[derive(Debug, Clone, Copy, PartialEq, Eq, PartialOrd, Ord, Hash, Structural)]
#[non_exhaustive]
pub enum ErrorKind {
    /// A different error occurred. The original error may contain more
    /// information.
    Other,
}

/// The text that describes an error kind.
pub open spec fn kind_message(k: ErrorKind) -> Seq<char> {
    match k {
        ErrorKind::Other => "A different error occurred. The original error may contain more information"@,
    }
}

impl ErrorKind {
    /// Describes the error kind in words.
    pub fn to_string(&self) -> (r: String)
        ensures
            r@ == kind_message(*self),
    {
        match self {
            ErrorKind::Other => String::from_str(
                "A different error occurred. The original error may contain more information",
            ),
        }
    }
}

/// A kind is its own kind.
impl Error for ErrorKind {
    fn kind(&self) -> (r: ErrorKind)
        ensures
            r == *self,
    {
        *self
    }
}

/// No value of `Infallible` exists, so this method is never called.
impl Error for core::convert::Infallible {
    fn kind(&self) -> (r: ErrorKind)
        ensures
            r == ErrorKind::Other,
    {
        ErrorKind::Other
    }
}

/// Power sequence error type: names the error type used by the other traits.
pub trait ErrorType {
    /// Error type.
    type Error: Error;
}

impl<T: ErrorType + ?Sized> ErrorType for &mut T {
    type Error = T::Error;
}

} // verus!
