//! Audit of `unsafe` blocks: their size and their safety comments.

use crate::report::{issue_views, new_issue, Issue, IssueView, Severity};
use crate::scanner::UnsafeBlock;
use crate::text::{decimal, push_decimal};
use vstd::prelude::*;

verus! {

/// The message of an `unsafe-sprawl` finding for a block of `n` lines.
pub open spec fn sprawl_message(n: usize) -> Seq<char> {
    "unsafe block spans "@ + decimal(n as nat) + " lines — \
     consider splitting into smaller unsafe blocks \
     around only the operations that truly require unsafe"@
}

/// What [`check_unsafe_sprawl`] reports: one warning for a block of more than ten lines.
pub open spec fn sprawl_issues(ub: UnsafeBlock, file: Seq<char>) -> Seq<IssueView> {
    if ub.line_count <= 10 {
        seq![]
    } else {
        seq![
            IssueView {
                severity: Severity::Warning,
                check: "unsafe-sprawl"@,
                file: file,
                line: ub.line,
                column: 1,
                message: sprawl_message(ub.line_count),
                suggestion: Some(
                    "Extract safe wrappers for each unsafe operation. \
             Each unsafe block should ideally be 1-3 lines, \
             with a // SAFETY: comment explaining the invariant."@,
                ),
            },
        ]
    }
}

/// Large unsafe blocks should be split into smaller, auditable pieces.
pub fn check_unsafe_sprawl(ub: &UnsafeBlock, file: &str) -> (r: Vec<Issue>)
    ensures
        issue_views(r@) == sprawl_issues(*ub, file@),
{
    if ub.line_count <= 10 {
        return Vec::new();
    }
    let mut message = String::new();
    message.append("unsafe block spans ");
    push_decimal(&mut message, ub.line_count);
    message.append(" lines — \
     consider splitting into smaller unsafe blocks \
     around only the operations that truly require unsafe");
    let issue = new_issue(
        Severity::Warning,
        "unsafe-sprawl",
        file,
        ub.line,
        1,
        message,
        Some(String::from_str(
            "Extract safe wrappers for each unsafe operation. \
             Each unsafe block should ideally be 1-3 lines, \
             with a // SAFETY: comment explaining the invariant.",
        )),
    );
    let v = vec![issue];
    assert(issue_views(v@) =~= sprawl_issues(*ub, file@));
    v
}

/// What [`check_unsafe_without_safety_doc`] reports: one warning for a block
/// without a safety comment.
pub open spec fn safety_doc_issues(ub: UnsafeBlock, file: Seq<char>) -> Seq<IssueView> {
    if ub.has_safety_comment {
        seq![]
    } else {
        seq![
            IssueView {
                severity: Severity::Warning,
                check: "unsafe-no-safety-doc"@,
                file: file,
                line: ub.line,
                column: 1,
                message: "unsafe block missing // SAFETY: comment explaining the invariant upheld"@,
                suggestion: Some(
                    "Add a // SAFETY: comment above this block explaining \
             which unsafe invariant is being upheld and why it's sound."@,
                ),
            },
        ]
    }
}

/// unsafe blocks without a // SAFETY: comment.
pub fn check_unsafe_without_safety_doc(ub: &UnsafeBlock, file: &str) -> (r: Vec<Issue>)
    ensures
        issue_views(r@) == safety_doc_issues(*ub, file@),
{
    if ub.has_safety_comment {
        return Vec::new();
    }
    let issue = new_issue(
        Severity::Warning,
        "unsafe-no-safety-doc",
        file,
        ub.line,
        1,
        String::from_str("unsafe block missing // SAFETY: comment explaining the invariant upheld"),
        Some(String::from_str(
            "Add a // SAFETY: comment above this block explaining \
             which unsafe invariant is being upheld and why it's sound.",
        )),
    );
    let v = vec![issue];
    assert(issue_views(v@) =~= safety_doc_issues(*ub, file@));
    v
}

} // verus!
