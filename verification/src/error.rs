//! The library's error type.
use vstd::prelude::*;

verus! {

/// Why a language operation was refused.
#[derive(Debug)]
pub enum LanguageError {
    /// The input or the language book's configuration is unusable; the text
    /// says how.
    Config(String),
    /// The project store could not be read or written; the text says how.
    Store(String),
}

impl LanguageError {
    /// The message carried by the error.
    pub fn message(&self) -> (m: &String)
        ensures
            m@ == match self {
                LanguageError::Config(s) => s@,
                LanguageError::Store(s) => s@,
            },
    {
        match self {
            LanguageError::Config(s) => s,
            LanguageError::Store(s) => s,
        }
    }
}

} // verus!
