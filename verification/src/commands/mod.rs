//! The decisions behind the application's commands: settings, transcript
//! assembly, pipeline resumption, reports and service checks.
pub mod config;
pub mod transcript;
pub mod report;
pub mod retry;
pub mod checks;
