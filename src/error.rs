//! The library's error type.
use vstd::prelude::*;

verus! {

/// What can go wrong while reading a snapshot, and the user's request to leave.
#[derive(Debug, Clone)]
pub enum AppError {
    /// A file or directory could not be read.
    Io(String),
    /// Structured content or a log could not be parsed.
    Parse(String),
    /// The snapshot root or a log source is missing.
    NotFound(String),
    /// The user asked to leave; not a fault.
    Terminated,
}

impl AppError {
    /// A line that describes the error.
    pub fn message(&self) -> (r: String)
        ensures
            r@ == match *self {
                AppError::Io(m) => "IO error: "@ + m@,
                AppError::Parse(m) => "Parse error: "@ + m@,
                AppError::NotFound(m) => "Not found: "@ + m@,
                AppError::Terminated => "exit"@,
            },
    {
        match self {
            AppError::Io(m) => {
                let mut s = "IO error: ".to_string();
                s.append(m.as_str());
                s
            },
            AppError::Parse(m) => {
                let mut s = "Parse error: ".to_string();
                s.append(m.as_str());
                s
            },
            AppError::NotFound(m) => {
                let mut s = "Not found: ".to_string();
                s.append(m.as_str());
                s
            },
            AppError::Terminated => "exit".to_string(),
        }
    }
}

} // verus!
