//! `extern` functions that hand raw pointers back to their callers.

use crate::report::{issue_views, new_issue, Issue, IssueView, Severity};
use crate::scanner::ExternFn;
use crate::text::{chars_to_string, contains_seq, contains_str, to_chars, trim, trim_chars};
use vstd::prelude::*;

verus! {

/// A type written `ty` is a raw pointer type (it mentions `*mut ` or `*const `).
pub open spec fn mentions_raw_ptr(ty: Seq<char>) -> bool {
    contains_seq(ty, "*mut "@) || contains_seq(ty, "*const "@)
}

/// Whether the type text `ty` mentions a raw pointer.
pub fn type_mentions_raw_ptr(ty: &str) -> (r: bool)
    ensures
        r == mentions_raw_ptr(ty@),
{
    let t = to_chars(ty);
    contains_str(&t, "*mut ") || contains_str(&t, "*const ")
}

/// The `extern-fn-null-return` finding.
pub open spec fn null_return_issue(ef: ExternFn, file: Seq<char>) -> IssueView {
    IssueView {
        severity: Severity::Warning,
        check: "extern-fn-null-return"@,
        file: file,
        line: ef.line,
        column: ef.column,
        message: "extern \""@ + ef.abi@ + "\" fn `"@ + ef.name@ + "` returns a raw pointer `"@ + trim(
            ef.ret_type@,
        ) + "` — callers may not null-check it"@,
        suggestion: Some(
            "Wrap in a safe function that returns `Option<&T>` or `Result<&T, ...>`: \
             check for null immediately after the FFI call and convert to a safe Rust type."@,
        ),
    }
}

/// The `extern-fn-not-unsafe` finding.
pub open spec fn not_unsafe_issue(ef: ExternFn, file: Seq<char>) -> IssueView {
    IssueView {
        severity: Severity::Error,
        check: "extern-fn-not-unsafe"@,
        file: file,
        line: ef.line,
        column: ef.column,
        message: "extern \""@ + ef.abi@ + "\" fn `"@ + ef.name@
            + "` is not marked `unsafe` — calling it is always unsafe"@,
        suggestion: Some("Add `unsafe` keyword before `fn`."@),
    }
}

/// The null-return warning, for a function returning a raw pointer.
pub open spec fn null_return_part(ef: ExternFn, file: Seq<char>) -> Seq<IssueView> {
    if !mentions_raw_ptr(ef.ret_type@) || ef.ret_type@.len() == 0 {
        seq![]
    } else {
        seq![null_return_issue(ef, file)]
    }
}

/// What [`check_extern_fn_null_return`] reports: for a function returning a
/// raw pointer, the null-return warning; then, for every function not marked
/// `unsafe`, the not-unsafe error.
pub open spec fn null_return_issues(ef: ExternFn, file: Seq<char>) -> Seq<IssueView> {
    null_return_part(ef, file) + if !ef.is_unsafe {
        seq![not_unsafe_issue(ef, file)]
    } else {
        seq![]
    }
}

/// extern "C" functions returning `*mut T` or `*const T` need null-check guidance.
pub fn check_extern_fn_null_return(ef: &ExternFn, file: &str) -> (r: Vec<Issue>)
    ensures
        issue_views(r@) == null_return_issues(*ef, file@),
{
    let mut issues: Vec<Issue> = Vec::new();

    let returns_ptr = type_mentions_raw_ptr(ef.ret_type.as_str());
    if returns_ptr && !ef.ret_type.as_str().is_empty() {
    let ret_chars = to_chars(ef.ret_type.as_str());
    let ret_trimmed = chars_to_string(&trim_chars(&ret_chars));
    let mut message = String::new();
    message.append("extern \"");
    message.append(ef.abi.as_str());
    message.append("\" fn `");
    message.append(ef.name.as_str());
    message.append("` returns a raw pointer `");
    message.append(ret_trimmed.as_str());
    message.append("` — callers may not null-check it");
    issues.push(
        new_issue(
            Severity::Warning,
            "extern-fn-null-return",
            file,
            ef.line,
            ef.column,
            message,
            Some(
                String::from_str(
                    "Wrap in a safe function that returns `Option<&T>` or `Result<&T, ...>`: \
             check for null immediately after the FFI call and convert to a safe Rust type.",
                ),
            ),
        ),
    );
    }
    assert(issue_views(issues@) =~= null_return_part(*ef, file@));
    let ghost first = issues@;

    if !ef.is_unsafe {
        let mut message = String::new();
        message.append("extern \"");
        message.append(ef.abi.as_str());
        message.append("\" fn `");
        message.append(ef.name.as_str());
        message.append("` is not marked `unsafe` — calling it is always unsafe");
        issues.push(
            new_issue(
                Severity::Error,
                "extern-fn-not-unsafe",
                file,
                ef.line,
                ef.column,
                message,
                Some(String::from_str("Add `unsafe` keyword before `fn`.")),
            ),
        );
    }
    assert(issue_views(issues@) =~= null_return_issues(*ef, file@));
    issues
}

} // verus!
