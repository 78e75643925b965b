//! `check_cstring_unwrap` — detect `CString::new(...).unwrap()` calls
//! in FFI contexts where the string comes from user/external input.
//!
//! If the string contains an interior null byte (\0), CString::new returns Err,
//! and .unwrap() panics — crossing the FFI boundary with a panic is UB.

use crate::report::{issue_views, new_issue, Issue, IssueView, Severity};
use crate::scanner::UnsafeBlock;
use crate::text::{
    contains_seq, contains_str, lines, split_lines, starts_with_seq, starts_with_str, to_chars,
    trim, trim_chars, views,
};
use vstd::prelude::*;

verus! {

/// A trimmed line `t` builds a C string and unwraps the result.
pub open spec fn cstring_line_flagged(t: Seq<char>) -> bool {
    &&& !starts_with_seq(t, "//"@)
    &&& t.len() != 0
    &&& contains_seq(t, "CString::new("@) || contains_seq(t, "CStr::from_bytes_with_nul("@)
    &&& contains_seq(t, ".unwrap()"@) || contains_seq(t, ".expect("@)
}

/// The `ffi-cstring-unwrap` finding at line `line`.
pub open spec fn cstring_issue(line: usize, file: Seq<char>) -> IssueView {
    IssueView {
        severity: Severity::Warning,
        check: "ffi-cstring-unwrap"@,
        file: file,
        line: line,
        column: 1,
        message: "`CString::new(...).unwrap()` in unsafe FFI context — \
                     if the string contains an interior null byte (\\0), \
                     this panics. Panic across FFI = UB."@,
        suggestion: Some(
            "Use `CString::new(s).expect(\"reason\")` to document why \
                     this can't fail, or handle the error: \
                     `let cstr = CString::new(s).map_err(|e| ...)?;`"@,
        ),
    }
}

/// The findings for the first `k` lines of `ls`, the first of which is line `base`.
pub open spec fn cstring_issues_upto(ls: Seq<Seq<char>>, k: nat, base: usize, file: Seq<char>) -> Seq<
    IssueView,
>
    decreases k,
{
    if k == 0 {
        seq![]
    } else {
        cstring_issues_upto(ls, (k - 1) as nat, base, file) + if cstring_line_flagged(
            trim(ls[k - 1]),
        ) {
            seq![cstring_issue((base + k - 1) as usize, file)]
        } else {
            seq![]
        }
    }
}

/// What [`check_cstring_unwrap`] reports: one warning per line of a block that
/// mentions `CString::new` whose trimmed text, not a comment, builds a C string
/// (`CString::new(` or `CStr::from_bytes_with_nul(`) and unwraps it.
pub open spec fn cstring_issues(block: UnsafeBlock, text: Seq<char>, file: Seq<char>) -> Seq<
    IssueView,
> {
    if !contains_seq(text, "CString::new"@) {
        seq![]
    } else {
        cstring_issues_upto(lines(text), lines(text).len(), block.line, file)
    }
}

/// Check unsafe blocks for CString::new(...).unwrap() / .expect() patterns
/// that could panic on strings with interior null bytes.
pub fn check_cstring_unwrap(block: &UnsafeBlock, block_text: &str, file: &str) -> (r: Vec<Issue>)
    requires
        contains_seq(block_text@, "CString::new"@) ==> block.line + lines(block_text@).len()
            <= usize::MAX + 1,
    ensures
        issue_views(r@) == cstring_issues(*block, block_text@, file@),
{
    let mut issues: Vec<Issue> = Vec::new();
    let text = to_chars(block_text);
    if !contains_str(&text, "CString::new") {
        return issues;
    }
    let ls = split_lines(&text);
    let ghost lv = lines(block_text@);
    let mut i: usize = 0;
    while i < ls.len()
        invariant
            0 <= i <= ls.len(),
            views(ls@) == lv,
            block.line + lv.len() <= usize::MAX + 1,
            issue_views(issues@) == cstring_issues_upto(lv, i as nat, block.line, file@),
        decreases ls.len() - i,
    {
        let line_num = block.line + i;
        let trimmed = trim_chars(&ls[i]);
        assert(ls@[i as int]@ == lv[i as int]);
        let ghost before = issues@;
        if !starts_with_str(&trimmed, "//") && trimmed.len() != 0 && (contains_str(
            &trimmed,
            "CString::new(",
        ) || contains_str(&trimmed, "CStr::from_bytes_with_nul(")) && (contains_str(
            &trimmed,
            ".unwrap()",
        ) || contains_str(&trimmed, ".expect(")) {
            issues.push(
                new_issue(
                    Severity::Warning,
                    "ffi-cstring-unwrap",
                    file,
                    line_num,
                    1,
                    String::from_str(
                        "`CString::new(...).unwrap()` in unsafe FFI context — \
                     if the string contains an interior null byte (\\0), \
                     this panics. Panic across FFI = UB.",
                    ),
                    Some(
                        String::from_str(
                            "Use `CString::new(s).expect(\"reason\")` to document why \
                     this can't fail, or handle the error: \
                     `let cstr = CString::new(s).map_err(|e| ...)?;`",
                        ),
                    ),
                ),
            );
            assert(issue_views(issues@) =~= issue_views(before) + seq![
                cstring_issue(line_num, file@),
            ]);
        } else {
            assert(issue_views(issues@) =~= issue_views(before) + Seq::<IssueView>::empty());
        }
        i += 1;
    }
    issues
}

} // verus!
