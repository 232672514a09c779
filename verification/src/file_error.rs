//! Errors of reading and writing files, with the name of the file.
use vstd::prelude::*;
use vstd::string::*;

verus! {

/// A failed file operation together with the file's name.
#[derive(Debug)]
pub enum FileError {
    In { error: std::io::Error, filename: String },
    Out { error: std::io::Error, filename: String },
}

/// Attaches the name of a file to the error of a failed file operation.
pub trait IOToFileResult<T>: Sized {
    /// The result of reading `path`, with the file's name on failure.
    fn file_in_result(self, path: &str) -> Result<T, FileError>;

    /// The result of writing `path`, with the file's name on failure.
    fn file_out_result(self, path: &str) -> Result<T, FileError>;
}

impl<T> IOToFileResult<T> for Result<T, std::io::Error> {
    fn file_in_result(self, path: &str) -> (r: Result<T, FileError>)
        ensures
            match self {
                Ok(v) => r == Ok::<T, FileError>(v),
                Err(e) => r matches Err(FileError::Out { error, filename }) && error == e
                    && filename@ == path@,
            },
    {
        match self {
            Ok(v) => Ok(v),
            Err(error) => Err(FileError::Out { error, filename: String::from_str(path) }),
        }
    }

    fn file_out_result(self, path: &str) -> (r: Result<T, FileError>)
        ensures
            match self {
                Ok(v) => r == Ok::<T, FileError>(v),
                Err(e) => r matches Err(FileError::In { error, filename }) && error == e
                    && filename@ == path@,
            },
    {
        match self {
            Ok(v) => Ok(v),
            Err(error) => Err(FileError::In { error, filename: String::from_str(path) }),
        }
    }
}

} // verus!
