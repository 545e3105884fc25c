use vstd::prelude::*;

verus! {

/// What went wrong, and where.
#[derive(Debug)]
pub enum Error {
    /// A local failure, described by a message.
    Simple { message: String },
    /// A failure reported by a collaborator (decoding, parsing, I/O), by its message.
    Standard { message: String },
    /// Another error, with the path of the file that was being processed.
    Pathed { path: String, err: Box<Error> },
}

impl Error {
    pub fn simple(message: &str) -> (r: Error)
        ensures
            r matches Error::Simple { message: m } && m@ == message@,
    {
        Error::Simple { message: message.to_owned() }
    }

    /// Wraps this error with the path that was being processed.
    pub fn with_path(self, path: &str) -> (r: Error)
        ensures
            r matches Error::Pathed { path: p, err } && p@ == path@ && *err == self,
    {
        Error::Pathed { path: path.to_owned(), err: Box::new(self) }
    }
}

} // verus!
