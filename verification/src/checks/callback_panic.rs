//! `check_ffi_callback_panic` — detect `extern "C" fn(...)` types used as callbacks
//! that can panic across the FFI boundary.
//!
//! When Rust code panics inside an `extern "C" fn` callback invoked from C,
//! the panic unwind crosses the FFI boundary — this is **immediate undefined behavior**
//! per Rust's ABI rules. The compiler does not catch this.

use crate::report::{issue_views, new_issue, Issue, IssueView, Severity};
use crate::scanner::ExternFn;
use crate::text::{
    chars_to_string, contains_seq, contains_str, count_char, count_char_in, find_char, index_of,
    lemma_count_char_le, lemma_total_len_append, lemma_lines_total_len, lines, slice_chars, split_lines,
    split_words, starts_with_seq, starts_with_str, str_eq, to_chars, total_len, trim, trim_chars,
    views, words,
};
use vstd::prelude::*;

verus! {

/// A trimmed line `t` declares or uses an `extern "C" fn` type that is likely a callback.
pub open spec fn callback_type_line(t: Seq<char>) -> bool {
    ||| contains_seq(t, "type "@) && contains_seq(t, "extern \"C\" fn"@)
    ||| contains_seq(t, "Option<extern \"C\" fn"@)
    ||| contains_seq(t, "*const extern \"C\" fn"@)
    ||| contains_seq(t, "*mut extern \"C\" fn"@)
}

/// The name reported for the callback type on trimmed line `t`: the alias
/// name for `type Alias = ...` (the second word, or `unknown`), else `callback`.
pub open spec fn callback_type_name(t: Seq<char>) -> Seq<char> {
    if starts_with_seq(t, "type "@) {
        if words(t).len() > 1 {
            words(t)[1]
        } else {
            "unknown"@
        }
    } else {
        "callback"@
    }
}

/// The `ffi-callback-panic` finding for a callback type named `name` at line `line`.
pub open spec fn callback_type_issue(name: Seq<char>, line: usize, file: Seq<char>) -> IssueView {
    IssueView {
        severity: Severity::Warning,
        check: "ffi-callback-panic"@,
        file: file,
        line: line,
        column: 1,
        message: "`extern \"C\" fn(...)` type `"@ + name + "` is likely used as a C callback — \
                     if this callback panics, the unwind crosses FFI boundary (undefined behavior)"@,
        suggestion: Some(
            "Wrap the callback body in `std::panic::catch_unwind()` or use \
                     `std::panic::set_hook()` to abort on panic. \
                     Alternatively, mark the function with `#[panic_handler]` or \
                     use `extern \"C-unwind\"` (unstable) to allow unwinding across FFI."@,
        ),
    }
}

/// The findings for the first `k` lines of `ls`.
pub open spec fn callback_types_upto(ls: Seq<Seq<char>>, k: nat, file: Seq<char>) -> Seq<IssueView>
    decreases k,
{
    if k == 0 {
        seq![]
    } else {
        let t = trim(ls[k - 1]);
        callback_types_upto(ls, (k - 1) as nat, file) + if callback_type_line(t) {
            seq![callback_type_issue(callback_type_name(t), k as usize, file)]
        } else {
            seq![]
        }
    }
}

/// What [`check_callback_types`] reports: nothing unless the file has
/// `extern "C"` function types; otherwise one warning per line (numbered from 1)
/// whose trimmed text declares or uses one as a callback.
pub open spec fn callback_types_issues(file_path: Seq<char>, source: Seq<char>, has_extern_c_types: bool) -> Seq<
    IssueView,
> {
    if !has_extern_c_types {
        seq![]
    } else {
        callback_types_upto(lines(source), lines(source).len(), file_path)
    }
}

/// Check for function types declared as `extern "C" fn(...)` that are likely callbacks.
/// Also checks `type Foo = extern "C" fn(...)` type aliases.
pub fn check_callback_types(file_path: &str, file_source: &str, has_extern_c_types: bool) -> (r: Vec<
    Issue,
>)
    ensures
        issue_views(r@) == callback_types_issues(file_path@, file_source@, has_extern_c_types),
{
    let mut issues: Vec<Issue> = Vec::new();
    if !has_extern_c_types {
        return issues;
    }
    let text = to_chars(file_source);
    let ls = split_lines(&text);
    let ghost lv = lines(file_source@);
    let mut i: usize = 0;
    while i < ls.len()
        invariant
            0 <= i <= ls.len(),
            views(ls@) == lv,
            issue_views(issues@) == callback_types_upto(lv, i as nat, file_path@),
        decreases ls.len() - i,
    {
        let line_num = i + 1;
        let trimmed = trim_chars(&ls[i]);
        assert(ls@[i as int]@ == lv[i as int]);
        let ghost before = issues@;
        if (contains_str(&trimmed, "type ") && contains_str(&trimmed, "extern \"C\" fn"))
            || contains_str(&trimmed, "Option<extern \"C\" fn") || contains_str(
            &trimmed,
            "*const extern \"C\" fn",
        ) || contains_str(&trimmed, "*mut extern \"C\" fn") {
            let alias_name = if starts_with_str(&trimmed, "type ") {
                let ws = split_words(&trimmed);
                if ws.len() > 1 {
                    assert(ws@[1]@ == words(trimmed@)[1]);
                    chars_to_string(&ws[1])
                } else {
                    String::from_str("unknown")
                }
            } else {
                String::from_str("callback")
            };
            let mut message = String::new();
            message.append("`extern \"C\" fn(...)` type `");
            message.append(alias_name.as_str());
            message.append("` is likely used as a C callback — \
                     if this callback panics, the unwind crosses FFI boundary (undefined behavior)");
            issues.push(
                new_issue(
                    Severity::Warning,
                    "ffi-callback-panic",
                    file_path,
                    line_num,
                    1,
                    message,
                    Some(
                        String::from_str(
                            "Wrap the callback body in `std::panic::catch_unwind()` or use \
                     `std::panic::set_hook()` to abort on panic. \
                     Alternatively, mark the function with `#[panic_handler]` or \
                     use `extern \"C-unwind\"` (unstable) to allow unwinding across FFI.",
                        ),
                    ),
                ),
            );
            assert(issue_views(issues@) =~= issue_views(before) + seq![
                callback_type_issue(callback_type_name(trim(lv[i as int])), line_num, file_path@),
            ]);
        } else {
            assert(issue_views(issues@) =~= issue_views(before) + Seq::<IssueView>::empty());
        }
        i += 1;
    }
    issues
}

/// A trimmed line `t` calls something that may panic.
pub open spec fn panics_line(t: Seq<char>) -> bool {
    ||| contains_seq(t, "panic!"@)
    ||| contains_seq(t, "unreachable!"@)
    ||| contains_seq(t, ".unwrap()"@)
    ||| contains_seq(t, ".expect("@)
}

/// The panicking call named in the finding for trimmed line `t`.
pub open spec fn panic_kind(t: Seq<char>) -> Seq<char> {
    if contains_seq(t, "panic!"@) {
        "panic!()"@
    } else if contains_seq(t, "unreachable!"@) {
        "unreachable!()"@
    } else if contains_seq(t, ".unwrap()"@) {
        ".unwrap()"@
    } else {
        ".expect()"@
    }
}

/// The `ffi-callback-panic` finding for a panicking call in function `name` at line `line`.
pub open spec fn body_panic_issue(name: Seq<char>, t: Seq<char>, line: usize, file: Seq<char>) -> IssueView {
    IssueView {
        severity: Severity::Warning,
        check: "ffi-callback-panic"@,
        file: file,
        line: line,
        column: 1,
        message: "extern \"C\" fn `"@ + name + "` contains `"@ + panic_kind(t) + "` — \
                     if called from C, this panic crosses FFI boundary (UB)"@,
        suggestion: Some(
            "Replace panicking calls with error handling that returns an error code \
                     to C. For truly unrecoverable errors inside FFI callbacks, use \
                     `std::process::abort()` instead of `panic!()`."@,
        ),
    }
}

/// The state of the scan of a function body after some lines: the findings so
/// far, the brace depth, whether the opening brace was seen, whether the body ended.
pub struct BodyScan {
    pub issues: Seq<IssueView>,
    pub depth: int,
    pub started: bool,
    pub done: bool,
}

/// The effect on the brace depth of line `l`.
pub open spec fn brace_delta(l: Seq<char>) -> int {
    count_char(l, '{') - count_char(l, '}')
}

/// The scan of the first `k` lines of `ls` for the body of the function
/// declared at line `fn_start`: lines before it are skipped; the first line
/// holding `{` opens the body and is checked from that brace on; every later
/// line is checked for panicking calls; the body ends on the line after which
/// the brace depth is zero or below, the opening line included.
pub open spec fn body_scan(ls: Seq<Seq<char>>, k: nat, fn_start: usize, name: Seq<char>, file: Seq<char>) -> BodyScan
    decreases k,
{
    if k == 0 {
        BodyScan { issues: seq![], depth: 0, started: false, done: false }
    } else {
        let prev = body_scan(ls, (k - 1) as nat, fn_start, name, file);
        let l = ls[k - 1];
        if prev.done || k < fn_start {
            prev
        } else if !prev.started {
            if contains_seq(l, seq!['{']) {
                let rest = l.skip(index_of(l, '{') as int);
                let depth = prev.depth + brace_delta(l);
                BodyScan {
                    issues: prev.issues + if panics_line(rest) {
                        seq![body_panic_issue(name, rest, k as usize, file)]
                    } else {
                        seq![]
                    },
                    depth: depth,
                    started: true,
                    done: depth <= 0,
                }
            } else {
                prev
            }
        } else {
            let t = trim(l);
            let depth = prev.depth + brace_delta(l);
            BodyScan {
                issues: prev.issues + if panics_line(t) {
                    seq![body_panic_issue(name, t, k as usize, file)]
                } else {
                    seq![]
                },
                depth: depth,
                started: true,
                done: depth <= 0,
            }
        }
    }
}

/// What [`check_callback_body_panics`] reports: nothing for a non-"C" ABI;
/// otherwise one warning per line of the function's body that calls
/// `panic!`, `unreachable!`, `.unwrap()` or `.expect(`.
pub open spec fn body_panics_issues(ef: ExternFn, source: Seq<char>, file_path: Seq<char>) -> Seq<
    IssueView,
> {
    if ef.abi@ != "C"@ {
        seq![]
    } else {
        body_scan(lines(source), lines(source).len(), ef.line, ef.name@, file_path).issues
    }
}

/// The finding for text `t` of a body line at `line`, when it calls something that may panic.
fn panic_finding(name: &str, t: &Vec<char>, line: usize, file_path: &str) -> (r: Option<Issue>)
    ensures
        match r {
            Some(x) => panics_line(t@) && x@ == body_panic_issue(name@, t@, line, file_path@),
            None => !panics_line(t@),
        },
{
    let has_panic = contains_str(t, "panic!");
    let has_unreachable = contains_str(t, "unreachable!");
    let has_unwrap = contains_str(t, ".unwrap()");
    let has_expect = contains_str(t, ".expect(");
    if has_panic || has_unreachable || has_unwrap || has_expect {
        let kind = if has_panic {
            "panic!()"
        } else if has_unreachable {
            "unreachable!()"
        } else if has_unwrap {
            ".unwrap()"
        } else {
            ".expect()"
        };
        let mut message = String::new();
        message.append("extern \"C\" fn `");
        message.append(name);
        message.append("` contains `");
        message.append(kind);
        message.append("` — \
                     if called from C, this panic crosses FFI boundary (UB)");
        Some(
            new_issue(
                Severity::Warning,
                "ffi-callback-panic",
                file_path,
                line,
                1,
                message,
                Some(
                    String::from_str(
                        "Replace panicking calls with error handling that returns an error code \
                     to C. For truly unrecoverable errors inside FFI callbacks, use \
                     `std::process::abort()` instead of `panic!()`.",
                    ),
                ),
            ),
        )
    } else {
        None
    }
}

/// Check extern "C" functions for `panic!()` / `unwrap()` / `expect()` calls
/// inside their body — these can unwind across FFI if the function is invoked as a callback.
pub fn check_callback_body_panics(ef: &ExternFn, file_source: &str, file_path: &str) -> (r: Vec<
    Issue,
>)
    ensures
        issue_views(r@) == body_panics_issues(*ef, file_source@, file_path@),
{
    let mut issues: Vec<Issue> = Vec::new();
    if !str_eq(ef.abi.as_str(), "C") {
        return issues;
    }
    let text = to_chars(file_source);
    let ls = split_lines(&text);
    let ghost lv = lines(file_source@);
    proof {
        lemma_lines_total_len(file_source@);
    }
    let text_len: usize = text.len();
    assert(total_len(lv) <= text_len);
    let fn_start = ef.line;
    let mut depth: i128 = 0;
    let mut started = false;
    let mut done = false;
    let mut i: usize = 0;
    while i < ls.len()
        invariant
            0 <= i <= ls.len(),
            views(ls@) == lv,
            total_len(lv) <= usize::MAX,
            fn_start == ef.line,
            ({
                let st = body_scan(lv, i as nat, fn_start, ef.name@, file_path@);
                &&& issue_views(issues@) == st.issues
                &&& depth == st.depth
                &&& started == st.started
                &&& done == st.done
            }),
            -(total_len(lv.take(i as int)) as int) <= depth <= total_len(lv.take(i as int)),
        decreases ls.len() - i,
    {
        let ghost prefix = lv.take(i as int);
        proof {
            assert(lv.take(i + 1).drop_last() =~= prefix);
            assert(lv =~= lv.take(i + 1) + lv.skip(i + 1));
            lemma_total_len_append(lv.take(i + 1), lv.skip(i + 1));
            lemma_count_char_le(lv[i as int], '{');
            lemma_count_char_le(lv[i as int], '}');
        }
        assert(ls@[i as int]@ == lv[i as int]);
        let line_num = i + 1;
        let ghost before = issues@;
        if !done && line_num >= fn_start {
            let opens = count_char_in(&ls[i], '{');
            let closes = count_char_in(&ls[i], '}');
            if !started {
                if let Some(pos) = find_char(&ls[i], '{') {
                    proof {
                        crate::text::lemma_index_of_bounds(lv[i as int], '{');
                        let k = index_of(lv[i as int], '{');
                        assert(crate::text::occurs_at(lv[i as int], seq!['{'], k as int)) by {
                            assert(lv[i as int].subrange(k as int, k as int + 1) =~= seq!['{']);
                        }
                    }
                    let rest = slice_chars(&ls[i], pos, ls[i].len());
                    assert(rest@ =~= lv[i as int].skip(index_of(lv[i as int], '{') as int));
                    match panic_finding(ef.name.as_str(), &rest, line_num, file_path) {
                        Some(x) => {
                            issues.push(x);
                            assert(issue_views(issues@) =~= issue_views(before) + seq![x@]);
                        },
                        None => {
                            assert(issue_views(issues@) =~= issue_views(before) + Seq::<
                                IssueView,
                            >::empty());
                        },
                    }
                    started = true;
                    depth = depth + opens as i128;
                    depth = depth - closes as i128;
                    if depth <= 0 {
                        done = true;
                    }
                } else {
                    proof {
                        if contains_seq(lv[i as int], seq!['{']) {
                            let k = choose|k: int|
                                crate::text::occurs_at(lv[i as int], seq!['{'], k);
                            assert(lv[i as int].subrange(k, k + 1)[0] == '{');
                            crate::text::lemma_index_of_bounds(lv[i as int], '{');
                        }
                    }
                }
            } else {
                let trimmed = trim_chars(&ls[i]);
                match panic_finding(ef.name.as_str(), &trimmed, line_num, file_path) {
                    Some(x) => {
                        issues.push(x);
                        assert(issue_views(issues@) =~= issue_views(before) + seq![x@]);
                    },
                    None => {
                        assert(issue_views(issues@) =~= issue_views(before) + Seq::<
                            IssueView,
                        >::empty());
                    },
                }
                depth = depth + opens as i128;
                depth = depth - closes as i128;
                if depth <= 0 {
                    done = true;
                }
            }
        }
        i += 1;
    }
    issues
}

} // verus!
