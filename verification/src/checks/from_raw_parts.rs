//! `check_ffi_from_raw_parts` — detect `slice::from_raw_parts` and similar
//! unsafe pointer-to-slice conversions where the pointer and/or length come
//! from FFI (C/C++) sources.
//!
//! These are the most dangerous FFI operations:
//! - Invalid pointer → UB
//! - Wrong length → buffer overread
//! - C side controls both pointer AND length — zero compile-time guarantees

use crate::report::{issue_views, new_issue, Issue, IssueView, Severity};
use crate::scanner::UnsafeBlock;
use crate::text::{contains_seq, contains_str, to_chars};
use vstd::prelude::*;

verus! {

/// The first of the known slice-from-pointer functions that `text` mentions,
/// tried longest-first: `slice::from_raw_parts_mut`, `slice::from_raw_parts`,
/// `str::from_utf8_unchecked`, `CStr::from_ptr`.
pub open spec fn first_raw_function(text: Seq<char>) -> Option<Seq<char>> {
    if contains_seq(text, "slice::from_raw_parts_mut"@) {
        Some("slice::from_raw_parts_mut"@)
    } else if contains_seq(text, "slice::from_raw_parts"@) {
        Some("slice::from_raw_parts"@)
    } else if contains_seq(text, "str::from_utf8_unchecked"@) {
        Some("str::from_utf8_unchecked"@)
    } else if contains_seq(text, "CStr::from_ptr"@) {
        Some("CStr::from_ptr"@)
    } else {
        None
    }
}

/// What [`check_ffi_from_raw_parts`] reports: at most one finding per block,
/// an error when the enclosing code takes FFI pointers and a warning otherwise.
pub open spec fn from_raw_parts_issues(
    block: UnsafeBlock,
    text: Seq<char>,
    file: Seq<char>,
    has_ffi_ptr_params: bool,
) -> Seq<IssueView> {
    match first_raw_function(text) {
        Some(func) => seq![
            IssueView {
                severity: if has_ffi_ptr_params { Severity::Error } else { Severity::Warning },
                check: "ffi-from-raw-parts"@,
                file: file,
                line: block.line,
                column: 1,
                message: "`"@ + func + "()` called inside unsafe block — \
                     pointer and/or length likely originate from C FFI. \
                     A wrong value from the C side causes immediate undefined behavior."@,
                suggestion: Some(
                    "Add explicit bounds checks before constructing the slice/str. \
                     Verify: pointer non-null, length within expected bounds, \
                     data valid for the target type."@,
                ),
            },
        ],
        None => seq![],
    }
}

/// The first known slice-from-pointer function that `text` mentions.
fn find_raw_function(text: &Vec<char>) -> (r: Option<&'static str>)
    ensures
        match r {
            Some(f) => first_raw_function(text@) == Some(f@),
            None => first_raw_function(text@) is None,
        },
{
    if contains_str(text, "slice::from_raw_parts_mut") {
        Some("slice::from_raw_parts_mut")
    } else if contains_str(text, "slice::from_raw_parts") {
        Some("slice::from_raw_parts")
    } else if contains_str(text, "str::from_utf8_unchecked") {
        Some("str::from_utf8_unchecked")
    } else if contains_str(text, "CStr::from_ptr") {
        Some("CStr::from_ptr")
    } else {
        None
    }
}

/// Check unsafe blocks for `from_raw_parts` / `from_ptr` calls that operate on FFI data.
pub fn check_ffi_from_raw_parts(
    block: &UnsafeBlock,
    block_text: &str,
    file: &str,
    has_ffi_ptr_params: bool,
) -> (r: Vec<Issue>)
    ensures
        issue_views(r@) == from_raw_parts_issues(*block, block_text@, file@, has_ffi_ptr_params),
{
    let text = to_chars(block_text);
    match find_raw_function(&text) {
        Some(func) => {
            let severity = if has_ffi_ptr_params {
                Severity::Error
            } else {
                Severity::Warning
            };
            let mut message = String::new();
            message.append("`");
            message.append(func);
            message.append("()` called inside unsafe block — \
                     pointer and/or length likely originate from C FFI. \
                     A wrong value from the C side causes immediate undefined behavior.");
            let issue = new_issue(
                severity,
                "ffi-from-raw-parts",
                file,
                block.line,
                1,
                message,
                Some(
                    String::from_str(
                        "Add explicit bounds checks before constructing the slice/str. \
                     Verify: pointer non-null, length within expected bounds, \
                     data valid for the target type.",
                    ),
                ),
            );
            let v = vec![issue];
            assert(issue_views(v@) =~= from_raw_parts_issues(
                *block,
                block_text@,
                file@,
                has_ffi_ptr_params,
            ));
            v
        },
        None => {
            let v: Vec<Issue> = Vec::new();
            assert(issue_views(v@) =~= from_raw_parts_issues(
                *block,
                block_text@,
                file@,
                has_ffi_ptr_params,
            ));
            v
        },
    }
}

} // verus!
