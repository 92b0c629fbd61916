use vstd::prelude::*;
use vstd::string::StringExecFns;

verus! {

/// The error type shared by the library's fallible operations.
#[derive(Clone, Debug, PartialEq)]
pub enum Error {
    Common(String),
}

impl Error {
    /// The message carried by the error, in place of `Display`.
    pub open spec fn msg(&self) -> Seq<char> {
        match self {
            Error::Common(s) => s@,
        }
    }

    pub fn message(&self) -> (r: String)
        ensures
            r@ == self.msg(),
    {
        match self {
            Error::Common(s) => String::from_str(s.as_str()),
        }
    }
}

} // verus!
