//! `check_ffi_ptr_deref` — detect raw pointer dereferences in FFI contexts
//! without preceding null checks.
//!
//! Pattern: `*ptr` or `&*ptr` inside unsafe blocks where `ptr` comes from C FFI.
//! If the C side passes NULL, this is immediate UB.

use crate::report::{issue_views, new_issue, Issue, IssueView, Severity};
use crate::scanner::UnsafeBlock;
use crate::text::{
    chars_to_string, contains_seq, contains_str, lines, split_lines, starts_with_seq,
    starts_with_str, to_chars, trim, trim_chars, views,
};
use vstd::prelude::*;

verus! {

/// A trimmed line `t` dereferences a pointer: `&*`, `&mut *`, or a `*` outside a comment.
pub open spec fn has_ptr_deref(t: Seq<char>) -> bool {
    ||| contains_seq(t, "&*"@)
    ||| contains_seq(t, "&mut *"@)
    ||| contains_seq(t, "*"@) && !contains_seq(t, "//"@) && !contains_seq(t, "*/"@)
}

/// A trimmed line `t` reads through or offsets a pointer.
pub open spec fn has_destructive(t: Seq<char>) -> bool {
    ||| contains_seq(t, ".read()"@)
    ||| contains_seq(t, ".add("@)
    ||| contains_seq(t, ".offset("@)
    ||| contains_seq(t, ".sub("@)
}

/// A trimmed line `t` looks like a null check.
pub open spec fn is_null_check(t: Seq<char>) -> bool {
    ||| contains_seq(t, "is_null()"@)
    ||| contains_seq(t, "is_null"@)
    ||| contains_seq(t, ".is_none()"@)
    ||| contains_seq(t, "== 0"@)
    ||| contains_seq(t, "== null"@)
    ||| contains_seq(t, "!= 0"@)
}

/// Some line before line `i` of `ls` looks like a null check.
pub open spec fn null_check_before(ls: Seq<Seq<char>>, i: int) -> bool {
    exists|j: int| 0 <= j < i && is_null_check(trim(#[trigger] ls[j]))
}

/// The trimmed line `t` is a pointer operation to report (not a comment, not empty).
pub open spec fn deref_line_flagged(t: Seq<char>) -> bool {
    &&& !starts_with_seq(t, "//"@)
    &&& t.len() != 0
    &&& has_ptr_deref(t) || has_destructive(t)
}

/// The `ffi-ptr-deref-no-nullcheck` finding for trimmed line `t` at line `line`.
pub open spec fn deref_issue(t: Seq<char>, line: usize, file: Seq<char>) -> IssueView {
    let op = if has_destructive(t) {
        t
    } else {
        "raw pointer dereference"@
    };
    IssueView {
        severity: Severity::Error,
        check: "ffi-ptr-deref-no-nullcheck"@,
        file: file,
        line: line,
        column: 1,
        message: "FFI raw pointer operation without preceding null check: `"@ + op + "`. \
                     If the C side passes NULL, this causes immediate undefined behavior."@,
        suggestion: Some(
            "Add `if !ptr.is_null() { ... }` or `ptr.as_ref()` with a check before \
                     dereferencing. For optional FFI pointers, use `NonNull<T>` to enforce \
                     non-null at the type level."@,
        ),
    }
}

/// The findings for the first `k` lines of `ls`, the first of which is line `base`.
pub open spec fn deref_issues_upto(ls: Seq<Seq<char>>, k: nat, base: usize, file: Seq<char>) -> Seq<
    IssueView,
>
    decreases k,
{
    if k == 0 {
        seq![]
    } else {
        let t = trim(ls[k - 1]);
        deref_issues_upto(ls, (k - 1) as nat, base, file) + if deref_line_flagged(t)
            && !null_check_before(ls, k - 1) {
            seq![deref_issue(t, (base + k - 1) as usize, file)]
        } else {
            seq![]
        }
    }
}

/// What [`check_ffi_ptr_deref`] reports: nothing unless FFI pointers are about;
/// otherwise an error for each pointer operation that no earlier line of the
/// block guards with a null check.
pub open spec fn deref_issues(block: UnsafeBlock, text: Seq<char>, file: Seq<char>, has_ffi_ptrs: bool) -> Seq<
    IssueView,
> {
    if !has_ffi_ptrs {
        seq![]
    } else {
        deref_issues_upto(lines(text), lines(text).len(), block.line, file)
    }
}

fn null_check_line(t: &Vec<char>) -> (r: bool)
    ensures
        r == is_null_check(t@),
{
    contains_str(t, "is_null()") || contains_str(t, "is_null") || contains_str(t, ".is_none()")
        || contains_str(t, "== 0") || contains_str(t, "== null") || contains_str(t, "!= 0")
}

/// Check an unsafe block for raw pointer dereferences without null guards.
pub fn check_ffi_ptr_deref(block: &UnsafeBlock, block_text: &str, file: &str, has_ffi_ptrs: bool) -> (r: Vec<
    Issue,
>)
    requires
        has_ffi_ptrs ==> block.line + lines(block_text@).len() <= usize::MAX + 1,
    ensures
        issue_views(r@) == deref_issues(*block, block_text@, file@, has_ffi_ptrs),
{
    let mut issues: Vec<Issue> = Vec::new();
    if !has_ffi_ptrs {
        return issues;
    }
    let text = to_chars(block_text);
    let ls = split_lines(&text);
    let ghost lv = lines(block_text@);
    let mut seen_null_check = false;
    let mut i: usize = 0;
    while i < ls.len()
        invariant
            0 <= i <= ls.len(),
            views(ls@) == lv,
            block.line + lv.len() <= usize::MAX + 1,
            seen_null_check == null_check_before(lv, i as int),
            issue_views(issues@) == deref_issues_upto(lv, i as nat, block.line, file@),
        decreases ls.len() - i,
    {
        let line_num = block.line + i;
        let trimmed = trim_chars(&ls[i]);
        assert(ls@[i as int]@ == lv[i as int]);
        let ghost before = issues@;
        let skip = starts_with_str(&trimmed, "//") || trimmed.len() == 0;
        let has_deref = contains_str(&trimmed, "&*") || contains_str(&trimmed, "&mut *") || (
        contains_str(&trimmed, "*") && !contains_str(&trimmed, "//") && !contains_str(
            &trimmed,
            "*/",
        ));
        let destructive = contains_str(&trimmed, ".read()") || contains_str(&trimmed, ".add(")
            || contains_str(&trimmed, ".offset(") || contains_str(&trimmed, ".sub(");
        if !skip && (has_deref || destructive) && !seen_null_check {
            let op = if destructive {
                chars_to_string(&trimmed)
            } else {
                String::from_str("raw pointer dereference")
            };
            let mut message = String::new();
            message.append("FFI raw pointer operation without preceding null check: `");
            message.append(op.as_str());
            message.append("`. \
                     If the C side passes NULL, this causes immediate undefined behavior.");
            issues.push(
                new_issue(
                    Severity::Error,
                    "ffi-ptr-deref-no-nullcheck",
                    file,
                    line_num,
                    1,
                    message,
                    Some(
                        String::from_str(
                            "Add `if !ptr.is_null() { ... }` or `ptr.as_ref()` with a check before \
                     dereferencing. For optional FFI pointers, use `NonNull<T>` to enforce \
                     non-null at the type level.",
                        ),
                    ),
                ),
            );
            assert(issue_views(issues@) =~= issue_views(before) + seq![
                deref_issue(trim(lv[i as int]), line_num, file@),
            ]);
        } else {
            assert(issue_views(issues@) =~= issue_views(before) + Seq::<IssueView>::empty());
        }
        let here = null_check_line(&trimmed);
        proof {
            if here {
                assert(is_null_check(trim(lv[i as int])));
                assert(null_check_before(lv, i + 1));
            }
            if null_check_before(lv, i + 1) && !here {
                let j = choose|j: int| 0 <= j < i + 1 && is_null_check(trim(#[trigger] lv[j]));
                assert(j < i);
            }
        }
        seen_null_check = seen_null_check || here;
        i += 1;
    }
    issues
}

} // verus!
