//! The library's error type.
use vstd::prelude::*;
use crate::text::{copy_string, push_chars, chars_of};

verus! {

/// Errors of the meeting assistant, each with a human-readable message.
#[derive(Debug)]
pub enum AppError {
    /// Speech recognition failed.
    Asr(String),
    /// A language-model call or its output failed.
    Llm(String),
    /// Audio capture or encoding failed.
    Audio(String),
    /// The database refused an operation.
    Db(String),
    /// Reading or writing a file failed.
    Io(String),
    /// JSON could not be read or written.
    Json(String),
    /// Anything else.
    Other(String),
}

/// The prefix that names the kind of an error in its text.
pub open spec fn error_prefix(e: AppError) -> Seq<char> {
    match e {
        AppError::Asr(_) => "ASR error: "@,
        AppError::Llm(_) => "LLM error: "@,
        AppError::Audio(_) => "Audio error: "@,
        AppError::Db(_) => "Database error: "@,
        AppError::Io(_) => "IO error: "@,
        AppError::Json(_) => "JSON error: "@,
        AppError::Other(_) => Seq::empty(),
    }
}

/// The message that an error carries.
pub open spec fn error_message(e: AppError) -> Seq<char> {
    match e {
        AppError::Asr(m) => m@,
        AppError::Llm(m) => m@,
        AppError::Audio(m) => m@,
        AppError::Db(m) => m@,
        AppError::Io(m) => m@,
        AppError::Json(m) => m@,
        AppError::Other(m) => m@,
    }
}

/// The full text of an error: its kind, then its message.
pub open spec fn error_text(e: AppError) -> Seq<char> {
    error_prefix(e) + error_message(e)
}

impl AppError {
    /// The text of the error, as shown to users.
    pub fn to_string(&self) -> (r: String)
        ensures
            r@ == error_text(*self),
    {
        let (prefix, msg) = match self {
            AppError::Asr(m) => ("ASR error: ", m),
            AppError::Llm(m) => ("LLM error: ", m),
            AppError::Audio(m) => ("Audio error: ", m),
            AppError::Db(m) => ("Database error: ", m),
            AppError::Io(m) => ("IO error: ", m),
            AppError::Json(m) => ("JSON error: ", m),
            AppError::Other(m) => ("", m),
        };
        let mut s = prefix.to_owned();
        let v = chars_of(msg.as_str());
        push_chars(&mut s, &v);
        proof {
            match self {
                AppError::Other(_) => {
                    reveal_strlit("");
                },
                _ => {},
            }
        }
        s
    }

    /// A copy of the error.
    pub fn duplicate(&self) -> (r: AppError)
        ensures
            error_prefix(r) == error_prefix(*self),
            error_message(r) == error_message(*self),
    {
        match self {
            AppError::Asr(m) => AppError::Asr(copy_string(m)),
            AppError::Llm(m) => AppError::Llm(copy_string(m)),
            AppError::Audio(m) => AppError::Audio(copy_string(m)),
            AppError::Db(m) => AppError::Db(copy_string(m)),
            AppError::Io(m) => AppError::Io(copy_string(m)),
            AppError::Json(m) => AppError::Json(copy_string(m)),
            AppError::Other(m) => AppError::Other(copy_string(m)),
        }
    }
}

} // verus!
