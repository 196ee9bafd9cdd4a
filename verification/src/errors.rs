use vstd::prelude::*;

verus! {

/// Declares `std::io::Error` so that a value of it can ride in
/// [`Error::Io`]; the codec itself never constructs that variant.
#[verifier::external_type_specification]
#[verifier::external_body]
pub struct ExIoError(std::io::Error);

/// The error taxonomy of the codec.
///
/// Every fallible entry point of the codec returns one of these; none of
/// them panics on malformed input.
#[derive(Debug)]
pub enum Error {
    /// The caller-supplied destination buffer is too small.
    Exhausted,
    /// The source bytes ended before a declared length was satisfied.
    Truncated,
    /// A declared length, tag or field value is internally inconsistent.
    Malformed,
    /// An upstream read or write failed; the error is carried verbatim.
    Io(std::io::Error),
}

impl Error {
    /// A short description of the error, in place of a `Display` rendering.
    pub fn description(&self) -> (r: &'static str)
        ensures
            self is Exhausted ==> r@ == "buffer space exhausted"@,
            self is Truncated ==> r@ == "truncated packet"@,
            self is Malformed ==> r@ == "malformed packet"@,
            self is Io ==> r@ == "failed to read or write a packet due to an IO error"@,
    {
        match self {
            Error::Exhausted => "buffer space exhausted",
            Error::Truncated => "truncated packet",
            Error::Malformed => "malformed packet",
            Error::Io(_) => "failed to read or write a packet due to an IO error",
        }
    }
}

impl From<std::io::Error> for Error {
    fn from(io_err: std::io::Error) -> (r: Error) {
        Error::Io(io_err)
    }
}

impl vstd::std_specs::convert::FromSpecImpl<std::io::Error> for Error {
    open spec fn obeys_from_spec() -> bool {
        true
    }

    open spec fn from_spec(t: std::io::Error) -> Error {
        Error::Io(t)
    }
}

} // verus!
