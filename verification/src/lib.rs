//! Verified core of the memo-ai meeting assistant.
use vstd::prelude::*;

pub mod text;
pub mod error;
pub mod llm;
pub mod audio;
pub mod asr;
pub mod commands;
pub mod db;
pub mod eval;

verus! {

} // verus!
