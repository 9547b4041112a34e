use vstd::prelude::*;

verus! {

/// The failures an operation of the ledger can return.
#[derive(Copy, Clone, Debug, PartialEq, Eq, Structural)]
pub enum Error {
    /// The name passed to `hello` is empty.
    NombreVacio,
    /// The name passed to `hello` is longer than the character limit.
    NombreMuyLargo,
    /// The caller of an admin operation is not the admin.
    NoAutorizado,
    /// An admin operation was called before `initialize`.
    NoInicializado,
    /// `initialize` was called a second time.
    YaInicializado,
}

/// The stable number that identifies each failure across calls.
pub open spec fn error_code(e: Error) -> u32 {
    match e {
        Error::NombreVacio => 1,
        Error::NombreMuyLargo => 2,
        Error::NoAutorizado => 3,
        Error::NoInicializado => 4,
        Error::YaInicializado => 5,
    }
}

impl Error {
    /// The stable number of this failure, from 1 to 5.
    pub fn code(&self) -> (r: u32)
        ensures
            r == error_code(*self),
    {
        match self {
            Error::NombreVacio => 1,
            Error::NombreMuyLargo => 2,
            Error::NoAutorizado => 3,
            Error::NoInicializado => 4,
            Error::YaInicializado => 5,
        }
    }
}

} // verus!
