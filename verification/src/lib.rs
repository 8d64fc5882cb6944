//! Command output filters that keep what a reader needs and drop the rest.
pub mod git;
pub mod golangci;
pub mod golangci_run;
pub mod golangci_source;
pub mod parser;
pub mod pnpm;
pub mod pnpm_run;
pub mod session;
pub mod tally;
pub mod telemetry;
pub mod text;
pub mod truncate;
pub mod utils;
