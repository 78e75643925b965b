//! `check_repr_transparent` — detect `#[repr(C)]` structs with a single
//! field that should use `#[repr(transparent)]` instead.
//!
//! `#[repr(transparent)]` guarantees that the struct has the same ABI as its
//! single field — critical for FFI wrappers.

use crate::report::{issue_views, new_issue, Issue, IssueView, Severity};
use crate::scanner::ReprCStruct;
use vstd::prelude::*;

verus! {

/// The message of a `repr-c-should-be-transparent` finding for struct `name`.
pub open spec fn transparent_message(name: Seq<char>) -> Seq<char> {
    "#[repr(C)] struct `"@ + name + "` has only one field — \
             consider using #[repr(transparent)] instead for \
             guaranteed ABI compatibility with the inner type"@
}

/// What [`check_repr_transparent`] reports: one warning for a struct of exactly one field.
pub open spec fn transparent_issues(rs: ReprCStruct, file: Seq<char>) -> Seq<IssueView> {
    if rs.field_count != 1 {
        seq![]
    } else {
        seq![
            IssueView {
                severity: Severity::Warning,
                check: "repr-c-should-be-transparent"@,
                file: file,
                line: rs.line,
                column: 1,
                message: transparent_message(rs.name@),
                suggestion: Some(
                    "Replace #[repr(C)] with #[repr(transparent)]. \
             This guarantees the wrapper has identical ABI to its inner field, \
             which is what you typically want for FFI newtype wrappers."@,
                ),
            },
        ]
    }
}

/// Check if a `#[repr(C)]` struct with exactly one field should
/// use `#[repr(transparent)]` instead.
pub fn check_repr_transparent(rs: &ReprCStruct, file: &str) -> (r: Vec<Issue>)
    ensures
        issue_views(r@) == transparent_issues(*rs, file@),
{
    if rs.field_count != 1 {
        return Vec::new();
    }
    let mut message = String::new();
    message.append("#[repr(C)] struct `");
    message.append(rs.name.as_str());
    message.append("` has only one field — \
             consider using #[repr(transparent)] instead for \
             guaranteed ABI compatibility with the inner type");
    let issue = new_issue(
        Severity::Warning,
        "repr-c-should-be-transparent",
        file,
        rs.line,
        1,
        message,
        Some(String::from_str(
            "Replace #[repr(C)] with #[repr(transparent)]. \
             This guarantees the wrapper has identical ABI to its inner field, \
             which is what you typically want for FFI newtype wrappers.",
        )),
    );
    let v = vec![issue];
    assert(issue_views(v@) =~= transparent_issues(*rs, file@));
    v
}

} // verus!
