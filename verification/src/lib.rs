//! ffi-guard — Rust FFI safety auditing.
//!
//! Scans Rust projects for FFI boundary issues with C/C++:
//! - `extern "C"` function signature mismatches
//! - `#[repr(C)]` struct layout consistency
//! - Unsafe block sprawl and missing safety docs
//! - Ownership leaks across FFI boundaries
//! - Null pointer dereference risks

pub mod checks;
pub mod detection_laws;
pub mod facts;
pub mod laws;
pub mod mcp;
pub mod report;
pub mod scanner;
pub mod syntax;
pub mod text;
pub mod trophy;

pub use report::{Issue, Report, Severity};
pub use scanner::Scanner;
