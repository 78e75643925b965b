//! Properties of the checks that hold for every input: which severity each
//! check reports at, where findings are placed, and what the layout
//! validation reports in the cases the documentation describes.

use crate::checks::callback_panic::{
    body_panic_issue, body_panics_issues, body_scan, callback_type_issue, callback_type_line,
    callback_type_name, callback_types_issues, callback_types_upto, panics_line,
};
use crate::checks::documented_checks;
use crate::checks::cstring_unwrap::{cstring_issue, cstring_issues, cstring_issues_upto, cstring_line_flagged};
use crate::checks::extern_fn::null_return_issues;
use crate::checks::ffi_types::{ownership_issue, ownership_issues_upto};
use crate::checks::from_raw_parts::from_raw_parts_issues;
use crate::checks::ptr_deref::{
    deref_issue, deref_issues, deref_issues_upto, deref_line_flagged, is_null_check, null_check_before,
};
use crate::checks::repr_c::{empty_struct_issue, no_drop_issue, repr_c_missing_issues};
use crate::checks::repr_c_layout::{
    field_count_issue, field_names_issue, field_order_issue, last_named, layout_issues, layout_upto,
    no_header_upto, struct_layout_issues, unknown_type_issue, unknown_types_upto, unused_issue,
    c_field_names, c_type_info, names_compared, no_header_issue, normalize_c_type, same_names, unused_upto, CField,
    CHeaders, CStruct,
};
use crate::checks::repr_transparent::transparent_issues;
use crate::checks::unsafe_block::{safety_doc_issues, sprawl_issues};
use crate::report::{issue_views, opt_seq, IssueView, Severity};
use crate::scanner::{
    block_issues, block_issues_upto, file_issues, file_report_issues, fn_issues_upto, has_ffi_ptrs,
    report_issues_upto, report_of, scanned_from, struct_issues_upto, ExternFn, FileFindings, FileInfo,
    string_views, ReprCStruct, SourceFile, UnsafeBlock,
};
use crate::text::{contains_seq, is_ws, leading_ws, lines, occurs_at, replace_all, starts_with_seq, trailing_ws, trim};
use crate::Report;
use vstd::prelude::*;

verus! {

/// The checks and the severity each one reports at: the rows of the check
/// table, together with `repr-c-empty` and `repr-c-no-header` (info), which
/// the table leaves out. `ffi-from-raw-parts` is an error when the file's
/// `extern` functions take raw pointers (`ptrs`), and a warning otherwise.
pub open spec fn table_row(check: Seq<char>, sev: Severity, ptrs: bool) -> bool {
    ||| check == "extern-fn-not-unsafe"@ && sev == Severity::Error
    ||| check == "extern-fn-null-return"@ && sev == Severity::Warning
    ||| check == "ffi-ownership-ambiguous"@ && sev == Severity::Warning
    ||| check == "ffi-callback-panic"@ && sev == Severity::Warning
    ||| check == "ffi-cstring-unwrap"@ && sev == Severity::Warning
    ||| check == "repr-c-no-drop"@ && sev == Severity::Warning
    ||| check == "repr-c-empty"@ && sev == Severity::Info
    ||| check == "repr-c-should-be-transparent"@ && sev == Severity::Warning
    ||| check == "repr-c-no-header"@ && sev == Severity::Info
    ||| check == "repr-c-field-count"@ && sev == Severity::Error
    ||| check == "repr-c-field-order"@ && sev == Severity::Error
    ||| check == "repr-c-field-names"@ && sev == Severity::Warning
    ||| check == "repr-c-unknown-ctype"@ && sev == Severity::Warning
    ||| check == "repr-c-no-c-match"@ && sev == Severity::Warning
    ||| check == "repr-c-unused-cstruct"@ && sev == Severity::Info
    ||| check == "unsafe-sprawl"@ && sev == Severity::Warning
    ||| check == "unsafe-no-safety-doc"@ && sev == Severity::Warning
    ||| check == "ffi-from-raw-parts"@ && sev == (if ptrs {
        Severity::Error
    } else {
        Severity::Warning
    })
    ||| check == "ffi-ptr-deref-no-nullcheck"@ && sev == Severity::Error
}

/// A finding of the file at `path` names that file and reports at the
/// severity of its check's row.
pub open spec fn fits(i: IssueView, path: Seq<char>, ptrs: bool) -> bool {
    i.file == path && table_row(i.check, i.severity, ptrs)
}

/// Every finding of `s` fits the file at `path`.
pub open spec fn all_fit(s: Seq<IssueView>, path: Seq<char>, ptrs: bool) -> bool {
    forall|k: int| 0 <= k < s.len() ==> fits(#[trigger] s[k], path, ptrs)
}

proof fn lemma_fit_concat(a: Seq<IssueView>, b: Seq<IssueView>, path: Seq<char>, ptrs: bool)
    requires
        all_fit(a, path, ptrs),
        all_fit(b, path, ptrs),
    ensures
        all_fit(a + b, path, ptrs),
{
    assert forall|k: int| 0 <= k < (a + b).len() implies fits(#[trigger] (a + b)[k], path, ptrs) by {
        if k < a.len() {
            assert((a + b)[k] == a[k]);
        } else {
            assert((a + b)[k] == b[k - a.len()]);
        }
    }
}

proof fn lemma_callback_types_fit(ls: Seq<Seq<char>>, k: nat, path: Seq<char>, ptrs: bool)
    ensures
        all_fit(callback_types_upto(ls, k, path), path, ptrs),
    decreases k,
{
    if k > 0 {
        lemma_callback_types_fit(ls, (k - 1) as nat, path, ptrs);
        let t = trim(ls[k - 1]);
        let last = if callback_type_line(t) {
            seq![callback_type_issue(callback_type_name(t), k as usize, path)]
        } else {
            seq![]
        };
        lemma_fit_concat(callback_types_upto(ls, (k - 1) as nat, path), last, path, ptrs);
    }
}

proof fn lemma_body_scan_fits(
    ls: Seq<Seq<char>>,
    k: nat,
    fn_start: usize,
    name: Seq<char>,
    path: Seq<char>,
    ptrs: bool,
)
    ensures
        all_fit(body_scan(ls, k, fn_start, name, path).issues, path, ptrs),
    decreases k,
{
    if k > 0 {
        lemma_body_scan_fits(ls, (k - 1) as nat, fn_start, name, path, ptrs);
        let prev = body_scan(ls, (k - 1) as nat, fn_start, name, path);
        let t = trim(ls[k - 1]);
        let last = if panics_line(t) {
            seq![body_panic_issue(name, t, k as usize, path)]
        } else {
            seq![]
        };
        lemma_fit_concat(prev.issues, last, path, ptrs);
    }
}

proof fn lemma_fn_issues_fit(fns: Seq<ExternFn>, k: nat, source: Seq<char>, path: Seq<char>, ptrs: bool)
    ensures
        all_fit(fn_issues_upto(fns, k, source, path), path, ptrs),
    decreases k,
{
    if k > 0 {
        lemma_fn_issues_fit(fns, (k - 1) as nat, source, path, ptrs);
        let ef = fns[k - 1];
        let ls = lines(source);
        lemma_body_scan_fits(ls, ls.len(), ef.line, ef.name@, path, ptrs);
        let nr = null_return_issues(ef, path);
        let bp = body_panics_issues(ef, source, path);
        lemma_fit_concat(fn_issues_upto(fns, (k - 1) as nat, source, path), nr, path, ptrs);
        lemma_fit_concat(fn_issues_upto(fns, (k - 1) as nat, source, path) + nr, bp, path, ptrs);
    }
}

proof fn lemma_struct_issues_fit(ss: Seq<ReprCStruct>, k: nat, path: Seq<char>, ptrs: bool)
    ensures
        all_fit(struct_issues_upto(ss, k, path), path, ptrs),
    decreases k,
{
    if k > 0 {
        lemma_struct_issues_fit(ss, (k - 1) as nat, path, ptrs);
        let s = ss[k - 1];
        let a = opt_seq(no_drop_issue(s, path));
        let b = opt_seq(empty_struct_issue(s, path));
        lemma_fit_concat(a, b, path, ptrs);
        let t = transparent_issues(s, path);
        let prev = struct_issues_upto(ss, (k - 1) as nat, path);
        lemma_fit_concat(prev, a + b, path, ptrs);
        lemma_fit_concat(prev + (a + b), t, path, ptrs);
        assert(prev + repr_c_missing_issues(s, path) + t == prev + (a + b) + t);
    }
}

proof fn lemma_cstring_fit(ls: Seq<Seq<char>>, k: nat, base: usize, path: Seq<char>, ptrs: bool)
    ensures
        all_fit(cstring_issues_upto(ls, k, base, path), path, ptrs),
    decreases k,
{
    if k > 0 {
        lemma_cstring_fit(ls, (k - 1) as nat, base, path, ptrs);
        let last = if cstring_line_flagged(trim(ls[k - 1])) {
            seq![cstring_issue((base + k - 1) as usize, path)]
        } else {
            seq![]
        };
        lemma_fit_concat(cstring_issues_upto(ls, (k - 1) as nat, base, path), last, path, ptrs);
    }
}

proof fn lemma_deref_fit(ls: Seq<Seq<char>>, k: nat, base: usize, path: Seq<char>, ptrs: bool)
    ensures
        all_fit(deref_issues_upto(ls, k, base, path), path, ptrs),
    decreases k,
{
    if k > 0 {
        lemma_deref_fit(ls, (k - 1) as nat, base, path, ptrs);
        let t = trim(ls[k - 1]);
        let last = if deref_line_flagged(t)
            && !null_check_before(ls, k - 1) {
            seq![deref_issue(t, (base + k - 1) as usize, path)]
        } else {
            seq![]
        };
        lemma_fit_concat(deref_issues_upto(ls, (k - 1) as nat, base, path), last, path, ptrs);
    }
}

proof fn lemma_block_fits(ub: UnsafeBlock, path: Seq<char>, ptrs: bool)
    ensures
        all_fit(block_issues(ub, path, ptrs), path, ptrs),
{
    let text = ub.block_text@;
    let ls = lines(text);
    lemma_cstring_fit(ls, ls.len(), ub.line, path, ptrs);
    lemma_deref_fit(ls, ls.len(), ub.line, path, ptrs);
    let a = sprawl_issues(ub, path);
    let b = safety_doc_issues(ub, path);
    let c = cstring_issues(ub, text, path);
    let d = from_raw_parts_issues(ub, text, path, ptrs);
    let e = deref_issues(ub, text, path, ptrs);
    lemma_fit_concat(a, b, path, ptrs);
    lemma_fit_concat(a + b, c, path, ptrs);
    lemma_fit_concat(a + b + c, d, path, ptrs);
    lemma_fit_concat(a + b + c + d, e, path, ptrs);
}

proof fn lemma_block_issues_fit(ubs: Seq<UnsafeBlock>, k: nat, path: Seq<char>, ptrs: bool)
    ensures
        all_fit(block_issues_upto(ubs, k, path, ptrs), path, ptrs),
    decreases k,
{
    if k > 0 {
        lemma_block_issues_fit(ubs, (k - 1) as nat, path, ptrs);
        lemma_block_fits(ubs[k - 1], path, ptrs);
        lemma_fit_concat(
            block_issues_upto(ubs, (k - 1) as nat, path, ptrs),
            block_issues(ubs[k - 1], path, ptrs),
            path,
            ptrs,
        );
    }
}

proof fn lemma_ownership_fit(fns: Seq<ExternFn>, k: nat, path: Seq<char>, ptrs: bool)
    ensures
        all_fit(ownership_issues_upto(fns, k, path), path, ptrs),
    decreases k,
{
    if k > 0 {
        lemma_ownership_fit(fns, (k - 1) as nat, path, ptrs);
        lemma_fit_concat(
            ownership_issues_upto(fns, (k - 1) as nat, path),
            opt_seq(ownership_issue(fns[k - 1], path)),
            path,
            ptrs,
        );
    }
}

/// Every finding of checking a file names that file and reports at the
/// severity its check is documented with; `ffi-from-raw-parts` findings are
/// errors exactly when the file's `extern` functions take raw pointers.
pub proof fn law_file_findings_documented(info: FileInfo, source: Seq<char>)
    ensures
        forall|k: int|
            0 <= k < file_issues(info, source).len() ==> (#[trigger] file_issues(info, source)[k]).file
                == info.path@,
        forall|k: int|
            0 <= k < file_issues(info, source).len() ==> table_row(
                (#[trigger] file_issues(info, source)[k]).check,
                file_issues(info, source)[k].severity,
                has_ffi_ptrs(info),
            ),
{
    lemma_file_issues_fit(info, source);
    let s = file_issues(info, source);
    assert forall|k: int| 0 <= k < s.len() implies (#[trigger] s[k]).file == info.path@ by {
        assert(fits(s[k], info.path@, has_ffi_ptrs(info)));
    }
}

proof fn lemma_file_issues_fit(info: FileInfo, source: Seq<char>)
    ensures
        all_fit(file_issues(info, source), info.path@, has_ffi_ptrs(info)),
{
    let path = info.path@;
    let ptrs = has_ffi_ptrs(info);
    let ls = lines(source);
    lemma_callback_types_fit(ls, ls.len(), path, ptrs);
    let a = callback_types_issues(path, source, contains_seq(source, "extern \"C\" fn"@));
    let b = fn_issues_upto(info.extern_fns@, info.extern_fns@.len(), source, path);
    let c = struct_issues_upto(info.repr_c_structs@, info.repr_c_structs@.len(), path);
    let d = block_issues_upto(info.unsafe_blocks@, info.unsafe_blocks@.len(), path, ptrs);
    let e = ownership_issues_upto(info.extern_fns@, info.extern_fns@.len(), path);
    lemma_fn_issues_fit(info.extern_fns@, info.extern_fns@.len(), source, path, ptrs);
    lemma_struct_issues_fit(info.repr_c_structs@, info.repr_c_structs@.len(), path, ptrs);
    lemma_block_issues_fit(info.unsafe_blocks@, info.unsafe_blocks@.len(), path, ptrs);
    lemma_ownership_fit(info.extern_fns@, info.extern_fns@.len(), path, ptrs);
    lemma_fit_concat(a, b, path, ptrs);
    lemma_fit_concat(a + b, c, path, ptrs);
    lemma_fit_concat(a + b + c, d, path, ptrs);
    lemma_fit_concat(a + b + c + d, e, path, ptrs);
}

/// The check of a finding is a row of the check table, at whichever
/// severity the row gives `ffi-from-raw-parts`.
pub open spec fn documented(i: IssueView) -> bool {
    table_row(i.check, i.severity, true) || table_row(i.check, i.severity, false)
}

/// Every finding of `s` is documented.
pub open spec fn all_documented(s: Seq<IssueView>) -> bool {
    forall|k: int| 0 <= k < s.len() ==> documented(#[trigger] s[k])
}

proof fn lemma_documented_concat(a: Seq<IssueView>, b: Seq<IssueView>)
    requires
        all_documented(a),
        all_documented(b),
    ensures
        all_documented(a + b),
{
    assert forall|k: int| 0 <= k < (a + b).len() implies documented(#[trigger] (a + b)[k]) by {
        if k < a.len() {
            assert((a + b)[k] == a[k]);
        } else {
            assert((a + b)[k] == b[k - a.len()]);
        }
    }
}

proof fn lemma_fit_documented(s: Seq<IssueView>, path: Seq<char>, ptrs: bool)
    requires
        all_fit(s, path, ptrs),
    ensures
        all_documented(s),
{
    assert forall|k: int| 0 <= k < s.len() implies documented(#[trigger] s[k]) by {
        assert(fits(s[k], path, ptrs));
    }
}

proof fn lemma_no_header_fit(rss: Seq<ReprCStruct>, k: nat, file: Seq<char>, ptrs: bool)
    ensures
        all_fit(no_header_upto(rss, k, file), file, ptrs),
    decreases k,
{
    if k > 0 {
        lemma_no_header_fit(rss, (k - 1) as nat, file, ptrs);
        lemma_fit_concat(
            no_header_upto(rss, (k - 1) as nat, file),
            seq![no_header_issue(rss[k - 1], file)],
            file,
            ptrs,
        );
    }
}

proof fn lemma_unknown_types_fit(rs: ReprCStruct, fields: Seq<CField>, k: nat, file: Seq<char>, ptrs: bool)
    ensures
        all_fit(unknown_types_upto(rs, fields, k, file), file, ptrs),
    decreases k,
{
    if k > 0 {
        lemma_unknown_types_fit(rs, fields, (k - 1) as nat, file, ptrs);
        lemma_fit_concat(
            unknown_types_upto(rs, fields, (k - 1) as nat, file),
            opt_seq(unknown_type_issue(rs, fields[k - 1], file)),
            file,
            ptrs,
        );
    }
}

proof fn lemma_struct_layout_fit(rs: ReprCStruct, h: CHeaders, file: Seq<char>, ptrs: bool)
    ensures
        all_fit(struct_layout_issues(rs, h, file), file, ptrs),
{
    match last_named(h.structs@, rs.name@, h.structs@.len()) {
        Some(j) => {
            let cs = h.structs@[j];
            let a = opt_seq(field_count_issue(rs, cs, file));
            let b = opt_seq(field_order_issue(rs, cs, file));
            let c = opt_seq(field_names_issue(rs, cs, file));
            let d = unknown_types_upto(rs, cs.fields@, cs.fields@.len(), file);
            lemma_unknown_types_fit(rs, cs.fields@, cs.fields@.len(), file, ptrs);
            lemma_fit_concat(a, b, file, ptrs);
            lemma_fit_concat(a + b, c, file, ptrs);
            lemma_fit_concat(a + b + c, d, file, ptrs);
        },
        None => {},
    }
}

proof fn lemma_layout_upto_fit(rss: Seq<ReprCStruct>, k: nat, h: CHeaders, file: Seq<char>, ptrs: bool)
    ensures
        all_fit(layout_upto(rss, k, h, file), file, ptrs),
    decreases k,
{
    if k > 0 {
        lemma_layout_upto_fit(rss, (k - 1) as nat, h, file, ptrs);
        lemma_struct_layout_fit(rss[k - 1], h, file, ptrs);
        lemma_fit_concat(
            layout_upto(rss, (k - 1) as nat, h, file),
            struct_layout_issues(rss[k - 1], h, file),
            file,
            ptrs,
        );
    }
}

proof fn lemma_unused_documented(css: Seq<CStruct>, k: nat, rss: Seq<ReprCStruct>)
    ensures
        all_documented(unused_upto(css, k, rss)),
        forall|m: int|
            0 <= m < unused_upto(css, k, rss).len() ==> (#[trigger] unused_upto(css, k, rss)[m]).check
                == "repr-c-unused-cstruct"@,
    decreases k,
{
    if k > 0 {
        lemma_unused_documented(css, (k - 1) as nat, rss);
        let prev = unused_upto(css, (k - 1) as nat, rss);
        let last = opt_seq(unused_issue(css[k - 1], rss));
        lemma_documented_concat(prev, last);
        let s = unused_upto(css, k, rss);
        assert forall|m: int| 0 <= m < s.len() implies (#[trigger] s[m]).check
            == "repr-c-unused-cstruct"@ by {
            if m < prev.len() {
                assert(s[m] == prev[m]);
            } else {
                assert(s[m] == last[m - prev.len()]);
            }
        }
    }
}

/// Every finding of the layout validation is documented in the check table,
/// and names the Rust file, except the notes on C structs that no Rust struct
/// names, which name their header.
pub proof fn law_layout_findings_documented(rss: Seq<ReprCStruct>, headers: Option<CHeaders>, file: Seq<char>)
    ensures
        all_documented(layout_issues(rss, headers, file)),
        forall|k: int|
            0 <= k < layout_issues(rss, headers, file).len() ==> (#[trigger] layout_issues(
                rss,
                headers,
                file,
            )[k]).file == file || layout_issues(rss, headers, file)[k].check
                == "repr-c-unused-cstruct"@,
{
    let s = layout_issues(rss, headers, file);
    match headers {
        None => {
            lemma_no_header_fit(rss, rss.len(), file, false);
            lemma_fit_documented(s, file, false);
            assert forall|k: int| 0 <= k < s.len() implies (#[trigger] s[k]).file == file by {
                assert(fits(s[k], file, false));
            }
        },
        Some(h) => {
            let a = layout_upto(rss, rss.len(), h, file);
            let b = unused_upto(h.structs@, h.structs@.len(), rss);
            lemma_layout_upto_fit(rss, rss.len(), h, file, false);
            lemma_fit_documented(a, file, false);
            lemma_unused_documented(h.structs@, h.structs@.len(), rss);
            lemma_documented_concat(a, b);
            assert forall|k: int| 0 <= k < s.len() implies (#[trigger] s[k]).file == file
                || s[k].check == "repr-c-unused-cstruct"@ by {
                if k < a.len() {
                    assert(s[k] == a[k]);
                    assert(fits(a[k], file, false));
                } else {
                    assert(s[k] == b[k - a.len()]);
                }
            }
        },
    }
}

proof fn lemma_report_documented(fs: Seq<FileFindings>, k: nat, sources: Seq<SourceFile>, h: Option<CHeaders>)
    requires
        k <= fs.len(),
        fs.len() == sources.len(),
        forall|j: int| 0 <= j < fs.len() ==> scanned_from(#[trigger] fs[j], sources[j]),
    ensures
        all_documented(report_issues_upto(fs, k, h)),
    decreases k,
{
    if k > 0 {
        lemma_report_documented(fs, (k - 1) as nat, sources, h);
        let f = fs[k - 1];
        assert(scanned_from(f, sources[k - 1]));
        lemma_file_issues_fit(f.info, sources[k - 1].text@);
        lemma_fit_documented(issue_views(f.issues@), f.info.path@, has_ffi_ptrs(f.info));
        law_layout_findings_documented(f.info.repr_c_structs@, h, f.info.path@);
        let layout = if f.info.repr_c_structs@.len() > 0 {
            layout_issues(f.info.repr_c_structs@, h, f.info.path@)
        } else {
            seq![]
        };
        lemma_documented_concat(issue_views(f.issues@), layout);
        lemma_documented_concat(report_issues_upto(fs, (k - 1) as nat, h), file_report_issues(f, h));
    }
}

/// Every finding of a scan report is documented in the check table: its
/// check and severity are a row of it.
pub proof fn law_report_findings_documented(
    rep: Report,
    project: Seq<char>,
    fs: Seq<FileFindings>,
    sources: Seq<SourceFile>,
    headers: Option<CHeaders>,
)
    requires
        report_of(rep, project, fs, sources, headers),
    ensures
        all_documented(issue_views(rep.issues@)),
{
    lemma_report_documented(fs, fs.len(), sources, headers);
}

proof fn lemma_no_header_each(rss: Seq<ReprCStruct>, k: nat, file: Seq<char>)
    requires
        k <= rss.len(),
    ensures
        no_header_upto(rss, k, file).len() == k,
        forall|m: int| 0 <= m < k ==> #[trigger] no_header_upto(rss, k, file)[m] == no_header_issue(rss[m], file),
    decreases k,
{
    if k > 0 {
        lemma_no_header_each(rss, (k - 1) as nat, file);
        let prev = no_header_upto(rss, (k - 1) as nat, file);
        assert forall|m: int| 0 <= m < k implies #[trigger] no_header_upto(rss, k, file)[m] == no_header_issue(
            rss[m],
            file,
        ) by {
            if m < k - 1 {
                assert(no_header_upto(rss, k, file)[m] == prev[m]);
            }
        }
    }
}

/// Without C headers, the layout validation reports exactly one
/// `repr-c-no-header` note for each `#[repr(C)]` struct, at its line, in order.
pub proof fn law_no_headers_one_note_per_struct(rss: Seq<ReprCStruct>, file: Seq<char>)
    ensures
        layout_issues(rss, None, file).len() == rss.len(),
        forall|k: int|
            0 <= k < rss.len() ==> (#[trigger] layout_issues(rss, None, file)[k]) == no_header_issue(rss[k], file),
        forall|k: int|
            0 <= k < rss.len() ==> (#[trigger] layout_issues(rss, None, file)[k]).check == "repr-c-no-header"@
                && layout_issues(rss, None, file)[k].severity == Severity::Info
                && layout_issues(rss, None, file)[k].line == rss[k].line,
{
    lemma_no_header_each(rss, rss.len(), file);
}

/// The findings for the struct at position `i` stand in the findings for the
/// first `n` structs right after those of the structs before it.
proof fn lemma_layout_upto_holds(rss: Seq<ReprCStruct>, i: int, n: nat, h: CHeaders, file: Seq<char>)
    requires
        0 <= i < n,
    ensures
        layout_upto(rss, (i + 1) as nat, h, file).len() <= layout_upto(rss, n, h, file).len(),
        forall|m: int|
            0 <= m < struct_layout_issues(rss[i], h, file).len() ==> layout_upto(rss, n, h, file)[layout_upto(
                rss,
                i as nat,
                h,
                file,
            ).len() + m] == #[trigger] struct_layout_issues(rss[i], h, file)[m],
    decreases n,
{
    let before = layout_upto(rss, i as nat, h, file);
    let mine = struct_layout_issues(rss[i], h, file);
    if n == i + 1 {
        assert forall|m: int| 0 <= m < mine.len() implies layout_upto(rss, n, h, file)[before.len() + m]
            == #[trigger] mine[m] by {
            assert((before + mine)[before.len() + m] == mine[m]);
        }
    } else {
        lemma_layout_upto_holds(rss, i, (n - 1) as nat, h, file);
        let prev = layout_upto(rss, (n - 1) as nat, h, file);
        assert forall|m: int| 0 <= m < mine.len() implies layout_upto(rss, n, h, file)[before.len() + m]
            == #[trigger] mine[m] by {
            assert(layout_upto(rss, n, h, file)[before.len() + m] == prev[before.len() + m]);
        }
    }
}

/// When a Rust struct and the C struct of its name (the last one the headers
/// define) have the same number of fields, every Rust field is named, and the
/// names are the same but in another order, the layout validation reports a
/// `repr-c-field-order` error at the Rust struct's line.
pub proof fn law_reordered_fields_reported(
    rss: Seq<ReprCStruct>,
    h: CHeaders,
    file: Seq<char>,
    i: int,
    j: int,
)
    requires
        0 <= i < rss.len(),
        last_named(h.structs@, rss[i].name@, h.structs@.len()) == Some(j),
        names_compared(rss[i], h.structs@[j]),
        string_views(rss[i].field_names@) != c_field_names(h.structs@[j]),
        same_names(string_views(rss[i].field_names@), c_field_names(h.structs@[j])),
    ensures
        exists|k: int|
            0 <= k < layout_issues(rss, Some(h), file).len() && (#[trigger] layout_issues(
                rss,
                Some(h),
                file,
            )[k]).check == "repr-c-field-order"@ && layout_issues(rss, Some(h), file)[k].severity
                == Severity::Error && layout_issues(rss, Some(h), file)[k].line == rss[i].line,
{
    let rs = rss[i];
    let cs = h.structs@[j];
    let mine = struct_layout_issues(rs, h, file);
    assert(field_count_issue(rs, cs, file) is None);
    assert(opt_seq(field_count_issue(rs, cs, file)) =~= Seq::<IssueView>::empty());
    assert(mine[0] == field_order_issue(rs, cs, file)->Some_0);
    lemma_layout_upto_holds(rss, i, rss.len(), h, file);
    let all = layout_issues(rss, Some(h), file);
    let k = layout_upto(rss, i as nat, h, file).len() as int;
    assert(all[k] == mine[0]);
}

/// When a Rust struct has the same fields as the C struct of its name (the
/// last one the headers define), in the same order, its only layout findings
/// are the C field types that have no known Rust counterpart.
pub proof fn law_matching_struct_only_type_findings(rs: ReprCStruct, h: CHeaders, file: Seq<char>, j: int)
    requires
        last_named(h.structs@, rs.name@, h.structs@.len()) == Some(j),
        rs.field_count == h.structs@[j].fields@.len(),
        string_views(rs.field_names@) == c_field_names(h.structs@[j]),
    ensures
        struct_layout_issues(rs, h, file) == unknown_types_upto(
            rs,
            h.structs@[j].fields@,
            h.structs@[j].fields@.len(),
            file,
        ),
{
    let cs = h.structs@[j];
    assert(opt_seq(field_count_issue(rs, cs, file)) =~= Seq::<IssueView>::empty());
    assert(opt_seq(field_order_issue(rs, cs, file)) =~= Seq::<IssueView>::empty());
    assert(opt_seq(field_names_issue(rs, cs, file)) =~= Seq::<IssueView>::empty());
    assert(struct_layout_issues(rs, h, file) =~= unknown_types_upto(rs, cs.fields@, cs.fields@.len(), file));
}

/// How many of the first `k` fields have a C type with no known Rust counterpart.
pub open spec fn unknown_type_count(fields: Seq<CField>, k: nat) -> nat
    decreases k,
{
    if k == 0 {
        0
    } else {
        unknown_type_count(fields, (k - 1) as nat) + if c_type_info(fields[k - 1].ty@).0 == "?"@ {
            1nat
        } else {
            0nat
        }
    }
}

/// A struct gets one `repr-c-unknown-ctype` warning for each C field whose
/// type has no known Rust counterpart, each at the struct's line, in the
/// order of the fields.
pub proof fn law_one_warning_per_unknown_c_type(rs: ReprCStruct, fields: Seq<CField>, file: Seq<char>)
    ensures
        unknown_types_upto(rs, fields, fields.len(), file).len() == unknown_type_count(fields, fields.len()),
        forall|k: int|
            0 <= k < unknown_types_upto(rs, fields, fields.len(), file).len() ==> (#[trigger] unknown_types_upto(
                rs,
                fields,
                fields.len(),
                file,
            )[k]).check == "repr-c-unknown-ctype"@ && unknown_types_upto(rs, fields, fields.len(), file)[k].line
                == rs.line,
{
    lemma_unknown_types_count(rs, fields, fields.len(), file);
}

proof fn lemma_unknown_types_count(rs: ReprCStruct, fields: Seq<CField>, k: nat, file: Seq<char>)
    ensures
        unknown_types_upto(rs, fields, k, file).len() == unknown_type_count(fields, k),
        forall|m: int|
            0 <= m < unknown_types_upto(rs, fields, k, file).len() ==> (#[trigger] unknown_types_upto(
                rs,
                fields,
                k,
                file,
            )[m]).check == "repr-c-unknown-ctype"@ && unknown_types_upto(rs, fields, k, file)[m].line
                == rs.line,
    decreases k,
{
    if k > 0 {
        lemma_unknown_types_count(rs, fields, (k - 1) as nat, file);
        let prev = unknown_types_upto(rs, fields, (k - 1) as nat, file);
        let last = opt_seq(unknown_type_issue(rs, fields[k - 1], file));
        let s = unknown_types_upto(rs, fields, k, file);
        assert forall|m: int| 0 <= m < s.len() implies (#[trigger] s[m]).check == "repr-c-unknown-ctype"@
            && s[m].line == rs.line by {
            if m < prev.len() {
                assert(s[m] == prev[m]);
            } else {
                assert(s[m] == last[m - prev.len()]);
            }
        }
    }
}

/// The Rust size that a C type maps to is 0, 1, 2, 4 or 8 bytes.
pub proof fn law_c_type_sizes(ty: Seq<char>)
    ensures
        c_type_info(ty).1 == 0 || c_type_info(ty).1 == 1 || c_type_info(ty).1 == 2 || c_type_info(ty).1 == 4
            || c_type_info(ty).1 == 8,
{
}

proof fn lemma_deref_after_first_line(ls: Seq<Seq<char>>, k: nat, base: usize, file: Seq<char>)
    requires
        ls.len() > 0,
        is_null_check(trim(ls[0])),
    ensures
        forall|m: int|
            0 <= m < deref_issues_upto(ls, k, base, file).len() ==> (#[trigger] deref_issues_upto(
                ls,
                k,
                base,
                file,
            )[m]).line == base,
    decreases k,
{
    if k > 0 {
        lemma_deref_after_first_line(ls, (k - 1) as nat, base, file);
        let prev = deref_issues_upto(ls, (k - 1) as nat, base, file);
        let t = trim(ls[k - 1]);
        let last = if deref_line_flagged(t) && !null_check_before(ls, k - 1) {
            seq![deref_issue(t, (base + k - 1) as usize, file)]
        } else {
            seq![]
        };
        if k > 1 {
            assert(null_check_before(ls, k - 1)) by {
                assert(is_null_check(trim(ls[0])));
            }
        }
        let s = deref_issues_upto(ls, k, base, file);
        assert forall|m: int| 0 <= m < s.len() implies (#[trigger] s[m]).line == base by {
            if m < prev.len() {
                assert(s[m] == prev[m]);
            } else {
                assert(s[m] == last[m - prev.len()]);
            }
        }
    }
}

/// When the first line of an unsafe block is a null check, no later line of
/// the block draws an unguarded-dereference error: every such finding is at
/// the block's first line.
pub proof fn law_null_check_on_first_line_guards_the_block(ls: Seq<Seq<char>>, base: usize, file: Seq<char>)
    requires
        ls.len() > 0,
        is_null_check(trim(ls[0])),
    ensures
        forall|m: int|
            0 <= m < deref_issues_upto(ls, ls.len(), base, file).len() ==> (#[trigger] deref_issues_upto(
                ls,
                ls.len(),
                base,
                file,
            )[m]).line == base,
{
    lemma_deref_after_first_line(ls, ls.len(), base, file);
}


/// A text with no `*` does not contain one.
proof fn lemma_no_star(l: Seq<char>)
    requires
        forall|i: int| 0 <= i < l.len() ==> l[i] != '*',
    ensures
        !contains_seq(l, "*"@),
{
    reveal_strlit("*");
    if contains_seq(l, "*"@) {
        let i = choose|i: int| occurs_at(l, "*"@, i);
        assert(l.subrange(i, i + 1)[0] == l[i]);
    }
}

/// Every C type with a `*` in it, once `const ` is removed, maps to a
/// pointer-sized pointer entry.
pub proof fn law_pointer_types_map_to_pointers(ty: Seq<char>)
    requires
        contains_seq(normalize_c_type(ty), "*"@),
    ensures
        c_type_info(ty) == ("*const/mut T"@, 8usize),
{
    let n = normalize_c_type(ty);
    reveal_strlit("char");
    lemma_no_star("char"@);
    reveal_strlit("signed char");
    lemma_no_star("signed char"@);
    reveal_strlit("u8");
    lemma_no_star("u8"@);
    reveal_strlit("uint8_t");
    lemma_no_star("uint8_t"@);
    reveal_strlit("unsigned char");
    lemma_no_star("unsigned char"@);
    reveal_strlit("short");
    lemma_no_star("short"@);
    reveal_strlit("i16");
    lemma_no_star("i16"@);
    reveal_strlit("int16_t");
    lemma_no_star("int16_t"@);
    reveal_strlit("short int");
    lemma_no_star("short int"@);
    reveal_strlit("u16");
    lemma_no_star("u16"@);
    reveal_strlit("uint16_t");
    lemma_no_star("uint16_t"@);
    reveal_strlit("unsigned short");
    lemma_no_star("unsigned short"@);
    reveal_strlit("unsigned short int");
    lemma_no_star("unsigned short int"@);
    reveal_strlit("int");
    lemma_no_star("int"@);
    reveal_strlit("i32");
    lemma_no_star("i32"@);
    reveal_strlit("int32_t");
    lemma_no_star("int32_t"@);
    reveal_strlit("long");
    lemma_no_star("long"@);
    reveal_strlit("u32");
    lemma_no_star("u32"@);
    reveal_strlit("uint32_t");
    lemma_no_star("uint32_t"@);
    reveal_strlit("unsigned int");
    lemma_no_star("unsigned int"@);
    reveal_strlit("unsigned long");
    lemma_no_star("unsigned long"@);
    reveal_strlit("long long");
    lemma_no_star("long long"@);
    reveal_strlit("i64");
    lemma_no_star("i64"@);
    reveal_strlit("int64_t");
    lemma_no_star("int64_t"@);
    reveal_strlit("long long int");
    lemma_no_star("long long int"@);
    reveal_strlit("u64");
    lemma_no_star("u64"@);
    reveal_strlit("uint64_t");
    lemma_no_star("uint64_t"@);
    reveal_strlit("unsigned long long");
    lemma_no_star("unsigned long long"@);
    reveal_strlit("unsigned long long int");
    lemma_no_star("unsigned long long int"@);
    reveal_strlit("float");
    lemma_no_star("float"@);
    reveal_strlit("double");
    lemma_no_star("double"@);
    reveal_strlit("size_t");
    lemma_no_star("size_t"@);
    reveal_strlit("uintptr_t");
    lemma_no_star("uintptr_t"@);
    reveal_strlit("ssize_t");
    lemma_no_star("ssize_t"@);
    reveal_strlit("intptr_t");
    lemma_no_star("intptr_t"@);
    reveal_strlit("ptrdiff_t");
    lemma_no_star("ptrdiff_t"@);
    reveal_strlit("bool");
    lemma_no_star("bool"@);
    reveal_strlit("_Bool");
    lemma_no_star("_Bool"@);
    reveal_strlit("void");
    lemma_no_star("void"@);
    assert(n != "char"@ && n != "signed char"@ && n != "u8"@ && n != "uint8_t"@ && n != "unsigned char"@ && n != "short"@ && n != "i16"@ && n != "int16_t"@ && n != "short int"@ && n != "u16"@ && n != "uint16_t"@ && n != "unsigned short"@ && n != "unsigned short int"@ && n != "int"@ && n != "i32"@ && n != "int32_t"@ && n != "long"@ && n != "u32"@ && n != "uint32_t"@ && n != "unsigned int"@ && n != "unsigned long"@ && n != "long long"@ && n != "i64"@ && n != "int64_t"@ && n != "long long int"@ && n != "u64"@ && n != "uint64_t"@ && n != "unsigned long long"@ && n != "unsigned long long int"@ && n != "float"@ && n != "double"@ && n != "size_t"@ && n != "uintptr_t"@ && n != "ssize_t"@ && n != "intptr_t"@ && n != "ptrdiff_t"@ && n != "bool"@ && n != "_Bool"@ && n != "void"@);
}

/// Every check the table lists reports at the severity the findings carry:
/// each row is a row of [`table_row`] (on FFI data, for `ffi-from-raw-parts`).
pub proof fn law_listed_checks_match_findings()
    ensures
        forall|k: int|
            0 <= k < documented_checks().len() ==> table_row(
                (#[trigger] documented_checks()[k]).0,
                documented_checks()[k].1,
                true,
            ),
{
    assert forall|k: int| 0 <= k < documented_checks().len() implies table_row(
        (#[trigger] documented_checks()[k]).0,
        documented_checks()[k].1,
        true,
    ) by {
        assert(0 <= k < 17);
    }
}


/// When the first line of an unsafe block is a null check that is not itself
/// a pointer operation, the block draws no unguarded-dereference error at all.
pub proof fn law_null_check_on_first_line_clears_the_block(
    block: UnsafeBlock,
    text: Seq<char>,
    file: Seq<char>,
    ptrs: bool,
)
    requires
        lines(text).len() > 0,
        is_null_check(trim(lines(text)[0])),
        !deref_line_flagged(trim(lines(text)[0])),
    ensures
        deref_issues(block, text, file, ptrs).len() == 0,
{
    let ls = lines(text);
    lemma_deref_after_first_line(ls, ls.len(), block.line, file);
    lemma_deref_none_on_first_line(ls, ls.len(), block.line, file);
}

proof fn lemma_deref_none_on_first_line(ls: Seq<Seq<char>>, k: nat, base: usize, file: Seq<char>)
    requires
        ls.len() > 0,
        k <= ls.len(),
        is_null_check(trim(ls[0])),
        !deref_line_flagged(trim(ls[0])),
    ensures
        deref_issues_upto(ls, k, base, file).len() == 0,
    decreases k,
{
    if k > 0 {
        lemma_deref_none_on_first_line(ls, (k - 1) as nat, base, file);
        if k > 1 {
            assert(null_check_before(ls, k - 1)) by {
                assert(is_null_check(trim(ls[0])));
            }
        }
    }
}


/// `s` holds a `*`.
pub open spec fn has_star(s: Seq<char>) -> bool {
    exists|i: int| 0 <= i < s.len() && s[i] == '*'
}

proof fn lemma_star_contains(s: Seq<char>)
    ensures
        contains_seq(s, "*"@) <==> has_star(s),
{
    reveal_strlit("*");
    if contains_seq(s, "*"@) {
        let i = choose|i: int| occurs_at(s, "*"@, i);
        assert(s.subrange(i, i + 1)[0] == s[i]);
    }
    if has_star(s) {
        let i = choose|i: int| 0 <= i < s.len() && s[i] == '*';
        assert(s.subrange(i, i + 1) =~= "*"@);
        assert(occurs_at(s, "*"@, i));
    }
}

proof fn lemma_star_survives_removal(s: Seq<char>, from: Seq<char>)
    requires
        has_star(s),
        !has_star(from),
    ensures
        has_star(replace_all(s, from, seq![])),
    decreases s.len(),
{
    let i = choose|i: int| 0 <= i < s.len() && s[i] == '*';
    if from.len() == 0 {
    } else if starts_with_seq(s, from) {
        if i < from.len() {
            assert(s.subrange(0, from.len() as int)[i] == s[i]);
            assert(from[i] == '*');
        }
        let rest = s.skip(from.len() as int);
        assert(rest[i - from.len()] == '*');
        lemma_star_survives_removal(rest, from);
        assert(replace_all(s, from, seq![]) =~= replace_all(rest, from, seq![]));
    } else if i == 0 {
        assert(replace_all(s, from, seq![])[0] == '*');
    } else {
        let rest = s.drop_first();
        assert(rest[i - 1] == '*');
        lemma_star_survives_removal(rest, from);
        let r = replace_all(rest, from, seq![]);
        let j = choose|j: int| 0 <= j < r.len() && r[j] == '*';
        assert((seq![s[0]] + r)[j + 1] == '*');
    }
}

proof fn lemma_leading_ws_all(s: Seq<char>)
    ensures
        leading_ws(s) <= s.len(),
        forall|j: int| 0 <= j < leading_ws(s) ==> is_ws(#[trigger] s[j]),
    decreases s.len(),
{
    if s.len() > 0 && is_ws(s[0]) {
        lemma_leading_ws_all(s.drop_first());
        assert forall|j: int| 0 <= j < leading_ws(s) implies is_ws(#[trigger] s[j]) by {
            if j > 0 {
                assert(s[j] == s.drop_first()[j - 1]);
            }
        }
    }
}

proof fn lemma_trailing_ws_all(s: Seq<char>)
    ensures
        trailing_ws(s) <= s.len(),
        forall|j: int| s.len() - trailing_ws(s) <= j < s.len() ==> is_ws(#[trigger] s[j]),
    decreases s.len(),
{
    if s.len() > 0 && is_ws(s.last()) {
        lemma_trailing_ws_all(s.drop_last());
        assert forall|j: int| s.len() - trailing_ws(s) <= j < s.len() implies is_ws(#[trigger] s[j]) by {
            if j < s.len() - 1 {
                assert(s[j] == s.drop_last()[j]);
            }
        }
    }
}

proof fn lemma_star_survives_trim(s: Seq<char>)
    requires
        has_star(s),
    ensures
        has_star(trim(s)),
{
    let i = choose|i: int| 0 <= i < s.len() && s[i] == '*';
    assert(!is_ws('*'));
    lemma_leading_ws_all(s);
    let lead = leading_ws(s) as int;
    assert(i >= lead);
    let t = s.skip(lead);
    lemma_trailing_ws_all(t);
    assert(t[i - lead] == '*');
    assert(i - lead < t.len() - trailing_ws(t));
    assert(trim(s)[i - lead] == '*');
}

/// Every C type with a `*` in it, as given, maps to a pointer-sized pointer entry.
pub proof fn law_star_types_map_to_pointers(ty: Seq<char>)
    requires
        contains_seq(ty, "*"@),
    ensures
        c_type_info(ty) == ("*const/mut T"@, 8usize),
{
    reveal_strlit("const ");
    lemma_star_contains(ty);
    assert(!has_star("const "@)) by {
        if has_star("const "@) {
            let i = choose|i: int| 0 <= i < "const "@.len() && "const "@[i] == '*';
        }
    }
    assert(""@ =~= Seq::<char>::empty()) by {
        reveal_strlit("");
    }
    lemma_star_survives_removal(ty, "const "@);
    let removed = replace_all(ty, "const "@, ""@);
    lemma_star_survives_trim(removed);
    lemma_star_contains(normalize_c_type(ty));
    law_pointer_types_map_to_pointers(ty);
}

/// A C type maps to size 0 exactly when it is unrecognised (`?`) or `void` (`c_void`).
pub proof fn law_zero_size_types(ty: Seq<char>)
    ensures
        c_type_info(ty).1 == 0 <==> (c_type_info(ty).0 == "?"@ || c_type_info(ty).0 == "c_void"@),
{
    reveal_strlit("?");
    reveal_strlit("c_void");
    reveal_strlit("i8");
    reveal_strlit("u8");
    reveal_strlit("i16");
    reveal_strlit("u16");
    reveal_strlit("i32");
    reveal_strlit("u32");
    reveal_strlit("i64");
    reveal_strlit("u64");
    reveal_strlit("f32");
    reveal_strlit("f64");
    reveal_strlit("usize");
    reveal_strlit("isize");
    reveal_strlit("bool");
    reveal_strlit("*const/mut T");
    assert("?"@.len() == 1);
    assert("c_void"@.len() == 6);
    assert("i8"@.len() == 2);
    assert("u8"@.len() == 2);
    assert("i16"@.len() == 3);
    assert("u16"@.len() == 3);
    assert("i32"@.len() == 3);
    assert("u32"@.len() == 3);
    assert("i64"@.len() == 3);
    assert("u64"@.len() == 3);
    assert("f32"@.len() == 3);
    assert("f64"@.len() == 3);
    assert("usize"@.len() == 5);
    assert("isize"@.len() == 5);
    assert("bool"@.len() == 4);
    assert("*const/mut T"@.len() == 12);
    let r = c_type_info(ty);
    if r.1 != 0 {
        assert(r.0.len() != 1 && r.0.len() != 6);
    }
}


/// How many findings of `s` have check `check` at line `line`.
pub open spec fn count_at(s: Seq<IssueView>, check: Seq<char>, line: usize) -> nat
    decreases s.len(),
{
    if s.len() == 0 {
        0
    } else {
        count_at(s.drop_last(), check, line) + if s.last().check == check && s.last().line == line {
            1nat
        } else {
            0nat
        }
    }
}

proof fn lemma_count_concat(a: Seq<IssueView>, b: Seq<IssueView>, check: Seq<char>, line: usize)
    ensures
        count_at(a + b, check, line) == count_at(a, check, line) + count_at(b, check, line),
    decreases b.len(),
{
    if b.len() > 0 {
        lemma_count_concat(a, b.drop_last(), check, line);
        assert((a + b).drop_last() =~= a + b.drop_last());
        assert((a + b).last() == b.last());
    }
}

proof fn lemma_count_none(s: Seq<IssueView>, check: Seq<char>, line: usize)
    requires
        forall|m: int| 0 <= m < s.len() ==> !((#[trigger] s[m]).check == check && s[m].line == line),
    ensures
        count_at(s, check, line) == 0,
    decreases s.len(),
{
    if s.len() > 0 {
        assert(s.last() == s[s.len() - 1]);
        lemma_count_none(s.drop_last(), check, line);
    }
}

proof fn lemma_count_all(s: Seq<IssueView>, check: Seq<char>, line: usize)
    requires
        forall|m: int| 0 <= m < s.len() ==> (#[trigger] s[m]).check == check && s[m].line == line,
    ensures
        count_at(s, check, line) == s.len(),
    decreases s.len(),
{
    if s.len() > 0 {
        assert(s.last() == s[s.len() - 1]);
        lemma_count_all(s.drop_last(), check, line);
    }
}

/// Every finding for a Rust struct is at the struct's line.
proof fn lemma_struct_layout_lines(rs: ReprCStruct, h: CHeaders, file: Seq<char>)
    ensures
        forall|m: int|
            0 <= m < struct_layout_issues(rs, h, file).len() ==> (#[trigger] struct_layout_issues(
                rs,
                h,
                file,
            )[m]).line == rs.line,
{
    match last_named(h.structs@, rs.name@, h.structs@.len()) {
        Some(j) => {
            let cs = h.structs@[j];
            let a = opt_seq(field_count_issue(rs, cs, file));
            let b = opt_seq(field_order_issue(rs, cs, file));
            let c = opt_seq(field_names_issue(rs, cs, file));
            let d = unknown_types_upto(rs, cs.fields@, cs.fields@.len(), file);
            lemma_unknown_types_count(rs, cs.fields@, cs.fields@.len(), file);
            let all = struct_layout_issues(rs, h, file);
            assert(all == a + b + c + d);
            assert forall|m: int| 0 <= m < all.len() implies (#[trigger] all[m]).line == rs.line by {
                if m < a.len() {
                    assert(all[m] == a[m]);
                } else if m < a.len() + b.len() {
                    assert(all[m] == b[m - a.len()]);
                } else if m < a.len() + b.len() + c.len() {
                    assert(all[m] == c[m - a.len() - b.len()]);
                } else {
                    assert(all[m] == d[m - a.len() - b.len() - c.len()]);
                }
            }
        },
        None => {},
    }
}

proof fn lemma_layout_count(
    rss: Seq<ReprCStruct>,
    h: CHeaders,
    file: Seq<char>,
    chk: Seq<char>,
    i: int,
    k: nat,
    u: nat,
)
    requires
        0 <= i < rss.len(),
        k <= rss.len(),
        forall|q: int| 0 <= q < rss.len() && q != i ==> (#[trigger] rss[q]).line != rss[i].line,
        count_at(struct_layout_issues(rss[i], h, file), chk, rss[i].line) == u,
    ensures
        count_at(layout_upto(rss, k, h, file), chk, rss[i].line) == if k > i {
            u
        } else {
            0
        },
    decreases k,
{
    if k > 0 {
        lemma_layout_count(rss, h, file, chk, i, (k - 1) as nat, u);
        let q = k - 1;
        let mine = struct_layout_issues(rss[q], h, file);
        lemma_count_concat(layout_upto(rss, (k - 1) as nat, h, file), mine, chk, rss[i].line);
        if q != i {
            lemma_struct_layout_lines(rss[q], h, file);
            assert(rss[q].line != rss[i].line);
            lemma_count_none(mine, chk, rss[i].line);
        }
    }
}

/// For a Rust struct whose line no other Rust struct shares, the layout
/// validation reports one `repr-c-field-count` finding at that line when the
/// last C struct of its name has a different number of fields, more or fewer,
/// and none when the counts agree or no C struct has its name.
pub proof fn law_field_count_finding_exactly_on_mismatch(
    rss: Seq<ReprCStruct>,
    h: CHeaders,
    file: Seq<char>,
    i: int,
)
    requires
        0 <= i < rss.len(),
        forall|q: int| 0 <= q < rss.len() && q != i ==> (#[trigger] rss[q]).line != rss[i].line,
    ensures
        count_at(layout_issues(rss, Some(h), file), "repr-c-field-count"@, rss[i].line) == match last_named(
            h.structs@,
            rss[i].name@,
            h.structs@.len(),
        ) {
            Some(j) => if rss[i].field_count != h.structs@[j].fields@.len() {
                1nat
            } else {
                0nat
            },
            None => 0nat,
        },
{
    reveal_strlit("repr-c-unknown-ctype");
    reveal_strlit("repr-c-field-count");
    reveal_strlit("repr-c-field-order");
    reveal_strlit("repr-c-field-names");
    reveal_strlit("repr-c-unused-cstruct");
    reveal_strlit("repr-c-no-c-match");
    let chk = "repr-c-field-count"@;
    assert(chk.len() == 18);
    assert("repr-c-field-order"@[13] != chk[13]);
    assert("repr-c-field-names"@[13] != chk[13]);
    assert("repr-c-unknown-ctype"@.len() == 20);
    assert("repr-c-unused-cstruct"@.len() == 21);
    assert("repr-c-no-c-match"@.len() == 17);
    let rs = rss[i];
    let line = rs.line;
    let mine = struct_layout_issues(rs, h, file);
    let u: nat = match last_named(h.structs@, rs.name@, h.structs@.len()) {
        Some(j) => if rs.field_count != h.structs@[j].fields@.len() {
            1nat
        } else {
            0nat
        },
        None => 0nat,
    };
    match last_named(h.structs@, rs.name@, h.structs@.len()) {
        Some(j) => {
            let cs = h.structs@[j];
            let a = opt_seq(field_count_issue(rs, cs, file));
            let b = opt_seq(field_order_issue(rs, cs, file));
            let c = opt_seq(field_names_issue(rs, cs, file));
            let d = unknown_types_upto(rs, cs.fields@, cs.fields@.len(), file);
            lemma_unknown_types_count(rs, cs.fields@, cs.fields@.len(), file);
            if rs.field_count != cs.fields@.len() {
                lemma_count_all(a, chk, line);
            } else {
                lemma_count_none(a, chk, line);
            }
            lemma_count_none(b, chk, line);
            lemma_count_none(c, chk, line);
            lemma_count_none(d, chk, line);
            lemma_count_concat(a, b, chk, line);
            lemma_count_concat(a + b, c, chk, line);
            lemma_count_concat(a + b + c, d, chk, line);
            assert(mine == a + b + c + d);
        },
        None => {
            lemma_count_none(mine, chk, line);
        },
    }
    lemma_layout_count(rss, h, file, chk, i, rss.len(), u);
    let un = unused_upto(h.structs@, h.structs@.len(), rss);
    lemma_unused_documented(h.structs@, h.structs@.len(), rss);
    lemma_count_none(un, chk, line);
    lemma_count_concat(layout_upto(rss, rss.len(), h, file), un, chk, line);
}

/// For a Rust struct whose line no other Rust struct shares, and the C struct
/// of its name that the layout validation compares it with, the whole
/// validation reports as many `repr-c-unknown-ctype` findings at that line as
/// the C struct has fields whose type has no known Rust counterpart.
pub proof fn law_unknown_types_counted_over_the_whole_result(
    rss: Seq<ReprCStruct>,
    h: CHeaders,
    file: Seq<char>,
    i: int,
    j: int,
)
    requires
        0 <= i < rss.len(),
        last_named(h.structs@, rss[i].name@, h.structs@.len()) == Some(j),
        forall|q: int| 0 <= q < rss.len() && q != i ==> (#[trigger] rss[q]).line != rss[i].line,
    ensures
        count_at(layout_issues(rss, Some(h), file), "repr-c-unknown-ctype"@, rss[i].line) == unknown_type_count(
            h.structs@[j].fields@,
            h.structs@[j].fields@.len(),
        ),
{
    reveal_strlit("repr-c-unknown-ctype");
    reveal_strlit("repr-c-field-count");
    reveal_strlit("repr-c-field-order");
    reveal_strlit("repr-c-field-names");
    reveal_strlit("repr-c-unused-cstruct");
    assert("repr-c-unknown-ctype"@.len() == 20);
    assert("repr-c-field-count"@.len() == 18);
    assert("repr-c-field-order"@.len() == 18);
    assert("repr-c-field-names"@.len() == 18);
    assert("repr-c-unused-cstruct"@.len() == 21);
    let rs = rss[i];
    let cs = h.structs@[j];
    let line = rs.line;
    let chk = "repr-c-unknown-ctype"@;
    let a = opt_seq(field_count_issue(rs, cs, file));
    let b = opt_seq(field_order_issue(rs, cs, file));
    let c = opt_seq(field_names_issue(rs, cs, file));
    let d = unknown_types_upto(rs, cs.fields@, cs.fields@.len(), file);
    lemma_unknown_types_count(rs, cs.fields@, cs.fields@.len(), file);
    lemma_count_none(a, chk, line);
    lemma_count_none(b, chk, line);
    lemma_count_none(c, chk, line);
    lemma_count_all(d, chk, line);
    lemma_count_concat(a, b, chk, line);
    lemma_count_concat(a + b, c, chk, line);
    lemma_count_concat(a + b + c, d, chk, line);
    assert(struct_layout_issues(rs, h, file) == a + b + c + d);
    let u = unknown_type_count(cs.fields@, cs.fields@.len());
    lemma_layout_count(rss, h, file, chk, i, rss.len(), u);
    let un = unused_upto(h.structs@, h.structs@.len(), rss);
    lemma_unused_documented(h.structs@, h.structs@.len(), rss);
    lemma_count_none(un, chk, line);
    lemma_count_concat(layout_upto(rss, rss.len(), h, file), un, chk, line);
}

} // verus!
