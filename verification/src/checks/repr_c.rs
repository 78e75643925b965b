//! `#[repr(C)]` structs with raw pointer fields and no `Drop`, and empty ones.

use crate::report::{issue_views, new_issue, opt_seq, Issue, IssueView, Severity};
use crate::scanner::ReprCStruct;
use vstd::prelude::*;

verus! {

/// The `repr-c-no-drop` finding for a struct that holds raw pointers and has no `Drop`.
pub open spec fn no_drop_issue(s: ReprCStruct, file: Seq<char>) -> Option<IssueView> {
    if !s.has_drop_impl {
        Some(
            IssueView {
                severity: Severity::Warning,
                check: "repr-c-no-drop"@,
                file: file,
                line: s.line,
                column: 1,
                message: "#[repr(C)] struct `"@ + s.name@ + "` contains raw pointer fields but has no Drop impl — \
                 ensure ownership of the pointed-to memory is documented"@,
                suggestion: Some(
                    "Consider implementing Drop for `"@ + s.name@ + "`, or document: \
                 who allocates and who frees the pointed-to memory."@,
                ),
            },
        )
    } else {
        None
    }
}

/// The `repr-c-empty` finding for a struct without fields.
pub open spec fn empty_struct_issue(s: ReprCStruct, file: Seq<char>) -> Option<IssueView> {
    if s.field_count == 0 {
        Some(
            IssueView {
                severity: Severity::Info,
                check: "repr-c-empty"@,
                file: file,
                line: s.line,
                column: 1,
                message: "#[repr(C)] struct `"@ + s.name@ + "` has zero fields — typically used as an opaque handle. \
                 This is fine if intentional."@,
                suggestion: None,
            },
        )
    } else {
        None
    }
}

/// What [`check_repr_c_missing`] reports, in this order.
pub open spec fn repr_c_missing_issues(s: ReprCStruct, file: Seq<char>) -> Seq<IssueView> {
    opt_seq(no_drop_issue(s, file)) + opt_seq(empty_struct_issue(s, file))
}

/// #[repr(C)] structs with raw pointer fields should probably have a Drop impl
/// or explicit documentation about ownership.
pub fn check_repr_c_missing(s: &ReprCStruct, file: &str) -> (r: Vec<Issue>)
    ensures
        issue_views(r@) == repr_c_missing_issues(*s, file@),
{
    let mut issues: Vec<Issue> = Vec::new();

    if !s.has_drop_impl {
        let mut message = String::new();
        message.append("#[repr(C)] struct `");
        message.append(s.name.as_str());
        message.append("` contains raw pointer fields but has no Drop impl — \
                 ensure ownership of the pointed-to memory is documented");
        let mut suggestion = String::new();
        suggestion.append("Consider implementing Drop for `");
        suggestion.append(s.name.as_str());
        suggestion.append("`, or document: \
                 who allocates and who frees the pointed-to memory.");
        issues.push(
            new_issue(
                Severity::Warning,
                "repr-c-no-drop",
                file,
                s.line,
                1,
                message,
                Some(suggestion),
            ),
        );
    }
    assert(issue_views(issues@) =~= opt_seq(no_drop_issue(*s, file@)));

    if s.field_count == 0 {
        let mut message = String::new();
        message.append("#[repr(C)] struct `");
        message.append(s.name.as_str());
        message.append("` has zero fields — typically used as an opaque handle. \
                 This is fine if intentional.");
        let ghost before = issues@;
        issues.push(new_issue(Severity::Info, "repr-c-empty", file, s.line, 1, message, None));
        assert(issue_views(issues@) =~= issue_views(before) + opt_seq(
            empty_struct_issue(*s, file@),
        ));
    } else {
        assert(issue_views(issues@) =~= issue_views(issues@) + opt_seq(
            empty_struct_issue(*s, file@),
        ));
    }
    issues
}

} // verus!
