use vstd::prelude::*;
use vstd::string::StringExecFns;

verus! {

/// Error type used by coral
#[derive(Debug, PartialEq, Eq)]
pub enum Error {
    /// An error running cargo
    Cargo,
    /// An IO error, carrying its rendered text
    IO(String),
}

impl Error {
    /// The error's message text, as it is shown to the user.
    pub fn text(&self) -> (r: String)
        ensures
            *self is Cargo ==> r@ == ("Unable to run cargo")@,
            self matches Error::IO(m) ==> r@ == m@,
    {
        match self {
            Error::Cargo => String::from_str("Unable to run cargo"),
            Error::IO(m) => m.clone(),
        }
    }
}

} // verus!
