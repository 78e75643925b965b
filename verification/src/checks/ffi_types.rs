//! Ownership anti-patterns at the FFI boundary.

use crate::checks::extern_fn::{mentions_raw_ptr, type_mentions_raw_ptr};
use crate::report::{issue_views, new_issue, opt_seq, Issue, IssueView, Severity};
use crate::scanner::{ExternFn, FileInfo};
use vstd::prelude::*;

verus! {

/// Some parameter of `ef` is a raw pointer.
pub open spec fn has_ptr_param(ef: ExternFn) -> bool {
    exists|j: int|
        0 <= j < ef.params@.len() && (#[trigger] ef.params@[j]).is_mut_ptr
            || 0 <= j < ef.params@.len() && ef.params@[j].is_const_ptr
}

/// Whether some parameter of `ef` is a raw pointer.
pub fn takes_ptr_param(ef: &ExternFn) -> (r: bool)
    ensures
        r == has_ptr_param(*ef),
{
    let mut j: usize = 0;
    while j < ef.params.len()
        invariant
            0 <= j <= ef.params.len(),
            forall|k: int|
                0 <= k < j ==> !(#[trigger] ef.params@[k]).is_mut_ptr
                    && !ef.params@[k].is_const_ptr,
        decreases ef.params.len() - j,
    {
        if ef.params[j].is_mut_ptr || ef.params[j].is_const_ptr {
            assert(ef.params@[j as int].is_mut_ptr || ef.params@[j as int].is_const_ptr);
            return true;
        }
        j += 1;
    }
    false
}

/// The `ffi-ownership-ambiguous` finding for `ef`, if it both takes and returns raw pointers.
pub open spec fn ownership_issue(ef: ExternFn, file: Seq<char>) -> Option<IssueView> {
    if has_ptr_param(ef) && mentions_raw_ptr(ef.ret_type@) {
        Some(
            IssueView {
                severity: Severity::Warning,
                check: "ffi-ownership-ambiguous"@,
                file: file,
                line: ef.line,
                column: ef.column,
                message: "extern fn `"@ + ef.name@ + "` both accepts and returns raw pointers — \
                     ownership semantics are ambiguous. \
                     Who allocates? Who frees?"@,
                suggestion: Some(
                    "Document the ownership contract in a doc comment: \
                     /// # Safety \
                     /// The caller must ensure `input` is valid and will be freed by the callee. \
                     /// The returned pointer is owned by the caller and must be freed with `...`."@,
                ),
            },
        )
    } else {
        None
    }
}

/// The findings for the first `k` functions of `fns`.
pub open spec fn ownership_issues_upto(fns: Seq<ExternFn>, k: nat, file: Seq<char>) -> Seq<
    IssueView,
>
    decreases k,
{
    if k == 0 {
        seq![]
    } else {
        ownership_issues_upto(fns, (k - 1) as nat, file) + opt_seq(
            ownership_issue(fns[k - 1], file),
        )
    }
}

/// Check for extern fns that both take and return pointers (ownership confusion):
/// one warning per such function, in the order the functions were found.
pub fn check_ffi_ownership(info: &FileInfo) -> (r: Vec<Issue>)
    ensures
        issue_views(r@) == ownership_issues_upto(
            info.extern_fns@,
            info.extern_fns@.len(),
            info.path@,
        ),
{
    let mut issues: Vec<Issue> = Vec::new();
    let mut i: usize = 0;
    while i < info.extern_fns.len()
        invariant
            0 <= i <= info.extern_fns.len(),
            issue_views(issues@) == ownership_issues_upto(info.extern_fns@, i as nat, info.path@),
        decreases info.extern_fns.len() - i,
    {
        let ef = &info.extern_fns[i];
        let has_ptr = takes_ptr_param(ef);
        let returns_ptr = type_mentions_raw_ptr(ef.ret_type.as_str());
        let ghost before = issues@;
        if has_ptr && returns_ptr {
            let mut message = String::new();
            message.append("extern fn `");
            message.append(ef.name.as_str());
            message.append("` both accepts and returns raw pointers — \
                     ownership semantics are ambiguous. \
                     Who allocates? Who frees?");
            issues.push(
                new_issue(
                    Severity::Warning,
                    "ffi-ownership-ambiguous",
                    info.path.as_str(),
                    ef.line,
                    ef.column,
                    message,
                    Some(
                        String::from_str(
                            "Document the ownership contract in a doc comment: \
                     /// # Safety \
                     /// The caller must ensure `input` is valid and will be freed by the callee. \
                     /// The returned pointer is owned by the caller and must be freed with `...`.",
                        ),
                    ),
                ),
            );
        }
        assert(issue_views(issues@) =~= issue_views(before) + opt_seq(
            ownership_issue(info.extern_fns@[i as int], info.path@),
        ));
        i += 1;
    }
    issues
}

} // verus!
