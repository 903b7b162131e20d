//! Process-wide logging bootstrap: a one-shot initializer that resolves a
//! verbosity filter and an output format from plain configuration values,
//! installs a global structured-logging pipeline, and prepares panic reports
//! as structured records.

pub mod filter;
pub mod guard;
pub mod init;
pub mod level;
pub mod output;
pub mod panic_report;
