use vstd::prelude::*;

verus! {

/// The errors of reading a proof text.
#[derive(Debug)]
pub enum Error {
    /// A token that does not fit where it stands.
    UnexpectedToken(String),
    /// The text ends where more was expected.
    UnexpectedEOF,
}

} // verus!
