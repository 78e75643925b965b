//! The individual FFI safety checks.

pub mod callback_panic;
pub mod cstring_unwrap;
pub mod extern_fn;
pub mod ffi_types;
pub mod from_raw_parts;
pub mod ptr_deref;
pub mod repr_c;
pub mod repr_c_layout;
pub mod repr_transparent;
pub mod unsafe_block;

pub use callback_panic::{check_callback_body_panics, check_callback_types};
pub use cstring_unwrap::check_cstring_unwrap;
pub use extern_fn::check_extern_fn_null_return;
pub use ffi_types::check_ffi_ownership;
pub use from_raw_parts::check_ffi_from_raw_parts;
pub use ptr_deref::check_ffi_ptr_deref;
pub use repr_c::check_repr_c_missing;
pub use repr_c_layout::{check_repr_c_layout, parse_c_headers, CField, CHeaders, CStruct};
pub use repr_transparent::check_repr_transparent;
pub use unsafe_block::{check_unsafe_sprawl, check_unsafe_without_safety_doc};

use crate::report::Severity;
use vstd::prelude::*;

verus! {

/// One documented check: its id, the severity it reports at, and what it looks for.
#[derive(Debug, Clone, Copy)]
pub struct CheckRow {
    pub id: &'static str,
    pub severity: Severity,
    pub description: &'static str,
}

/// The ids of the documented checks and their severities, in the order the
/// documentation lists them (`ffi-from-raw-parts` at its severity on FFI data).
pub open spec fn documented_checks() -> Seq<(Seq<char>, Severity)> {
    seq![
        ("extern-fn-not-unsafe"@, Severity::Error),
        ("extern-fn-null-return"@, Severity::Warning),
        ("ffi-ownership-ambiguous"@, Severity::Warning),
        ("ffi-callback-panic"@, Severity::Warning),
        ("ffi-cstring-unwrap"@, Severity::Warning),
        ("repr-c-no-drop"@, Severity::Warning),
        ("repr-c-should-be-transparent"@, Severity::Warning),
        ("repr-c-field-count"@, Severity::Error),
        ("repr-c-field-order"@, Severity::Error),
        ("repr-c-field-names"@, Severity::Warning),
        ("repr-c-unknown-ctype"@, Severity::Warning),
        ("repr-c-no-c-match"@, Severity::Warning),
        ("repr-c-unused-cstruct"@, Severity::Info),
        ("unsafe-sprawl"@, Severity::Warning),
        ("unsafe-no-safety-doc"@, Severity::Warning),
        ("ffi-from-raw-parts"@, Severity::Error),
        ("ffi-ptr-deref-no-nullcheck"@, Severity::Error)
    ]
}

/// The documented checks, in order.
pub fn check_table() -> (t: Vec<CheckRow>)
    ensures
        t@.len() == documented_checks().len(),
        forall|k: int|
            0 <= k < t@.len() ==> (#[trigger] t@[k]).id@ == documented_checks()[k].0 && t@[k].severity
                == documented_checks()[k].1,
{
    let mut t: Vec<CheckRow> = Vec::new();
    t.push(CheckRow { id: "extern-fn-not-unsafe", severity: Severity::Error, description: "extern fn missing `unsafe` keyword" });
    t.push(CheckRow { id: "extern-fn-null-return", severity: Severity::Warning, description: "extern fn returns raw pointer — callers skip null check" });
    t.push(CheckRow { id: "ffi-ownership-ambiguous", severity: Severity::Warning, description: "extern fn both accepts and returns raw pointers" });
    t.push(CheckRow { id: "ffi-callback-panic", severity: Severity::Warning, description: "extern C fn callbacks that may panic across FFI boundary" });
    t.push(CheckRow { id: "ffi-cstring-unwrap", severity: Severity::Warning, description: "CString::new().unwrap() in FFI — interior null byte panics" });
    t.push(CheckRow { id: "repr-c-no-drop", severity: Severity::Warning, description: "Struct with raw pointers, no Drop impl" });
    t.push(CheckRow { id: "repr-c-should-be-transparent", severity: Severity::Warning, description: "Single-field struct — use #[repr(transparent)]" });
    t.push(CheckRow { id: "repr-c-field-count", severity: Severity::Error, description: "Field count mismatch Rust vs C header" });
    t.push(CheckRow { id: "repr-c-field-order", severity: Severity::Error, description: "Same field names, wrong order — silent UB" });
    t.push(CheckRow { id: "repr-c-field-names", severity: Severity::Warning, description: "Field names partially mismatch C header" });
    t.push(CheckRow { id: "repr-c-unknown-ctype", severity: Severity::Warning, description: "C field type unrecognized — verify FFI mapping" });
    t.push(CheckRow { id: "repr-c-no-c-match", severity: Severity::Warning, description: "Rust struct has no matching C header definition" });
    t.push(CheckRow { id: "repr-c-unused-cstruct", severity: Severity::Info, description: "C header struct with no Rust counterpart" });
    t.push(CheckRow { id: "unsafe-sprawl", severity: Severity::Warning, description: "unsafe block > 10 lines — split into smaller blocks" });
    t.push(CheckRow { id: "unsafe-no-safety-doc", severity: Severity::Warning, description: "unsafe block missing `// SAFETY:` comment" });
    t.push(CheckRow { id: "ffi-from-raw-parts", severity: Severity::Error, description: "slice::from_raw_parts / CStr::from_ptr on FFI data" });
    t.push(CheckRow { id: "ffi-ptr-deref-no-nullcheck", severity: Severity::Error, description: "FFI raw pointer deref without null check" });
    t
}

} // verus!
