//! Quality evaluation of the meeting pipeline against fixtures: grading
//! checks, the LLM judge prompt, verdicts and the command line.
pub mod fixture;
pub mod grader_code;
pub mod grader_llm;
pub mod cli;
