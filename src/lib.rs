//! Orchestration of end-to-end test runs: every test is run once in every
//! browser engine, faults stay inside the run that raised them, and the
//! outcomes are folded into one report and one exit status.
//!
//! The browser automation, the async runtime and the process handling live
//! outside this crate; what is decided between those calls is here, with its
//! contracts.
mod browser;
mod environments;
mod errors;
mod fetch;
mod matrix;
mod outcome;
mod payload;
mod report;
mod scheduler;
mod subject;
mod text;

pub use browser::BrowserType;
pub use environments::collect_environments;
pub use errors::{CaughtPanic, Describe, ErrorList, FailedToInitialize, FailedToOpenPage};
pub use fetch::Method;
pub use matrix::{build_matrix, Cell};
pub use outcome::{resolve_cell, BodyEnd, CaptureBuffer, CellEnd, CellResult, TestResult};
pub use payload::PayloadCookies;
pub use report::{count_successes, exit_code, render_report, summary_line, RunError, RunResult};
pub use scheduler::{Scheduler, Step};
pub use subject::{
    contains, delete_check_cookies, get_check_cookies, index, patch_check_cookies,
    post_check_cookies, put_check_cookies, CheckError, SetCookie,
};
pub use text::{indent, to_decimal};
