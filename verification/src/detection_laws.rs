//! What each check detects, stated over its input text: which markers on a
//! line, in a block or in a header raise which finding, at which line.

use crate::checks::callback_panic::{body_panic_issue, body_panics_issues, body_scan, panics_line};
use crate::checks::from_raw_parts::from_raw_parts_issues;
use crate::checks::repr_c_layout::{
    field_count_issue, last_named, layout_issues, layout_upto, struct_layout_issues, CHeaders,
};
use crate::checks::ptr_deref::{deref_issues, deref_issues_upto, is_null_check};
use crate::report::Severity;
use crate::scanner::{
    ascii_bytes, ascii_lower, is_comment_line, line_begin, marks_safety, safety_comment_above,
    unsafe_block_at, ExternFn, ReprCStruct, UnsafeBlock,
};
use crate::syntax::SyntaxNode;
use crate::text::{contains_seq, count_char, decimal, lines, starts_with_seq, trim};
use vstd::prelude::*;

verus! {

/// The message of the `ffi-from-raw-parts` finding for function `f`.
pub open spec fn raw_parts_message(f: Seq<char>) -> Seq<char> {
    "`"@ + f + "()` called inside unsafe block — \
                     pointer and/or length likely originate from C FFI. \
                     A wrong value from the C side causes immediate undefined behavior."@
}

/// An unsafe block draws exactly one `ffi-from-raw-parts` finding, at the
/// block's line, when its text mentions `slice::from_raw_parts_mut`,
/// `slice::from_raw_parts`, `str::from_utf8_unchecked` or `CStr::from_ptr`,
/// and none otherwise; the finding names the first of these, in that order,
/// that the text mentions, and is an error exactly when the code takes FFI
/// pointers.
pub proof fn law_raw_parts_functions_found(block: UnsafeBlock, text: Seq<char>, file: Seq<char>, ptrs: bool)
    ensures
        ({
            let r = from_raw_parts_issues(block, text, file, ptrs);
            let a = contains_seq(text, "slice::from_raw_parts_mut"@);
            let b = contains_seq(text, "slice::from_raw_parts"@);
            let c = contains_seq(text, "str::from_utf8_unchecked"@);
            let d = contains_seq(text, "CStr::from_ptr"@);
            &&& (a || b || c || d) <==> r.len() == 1
            &&& !(a || b || c || d) <==> r.len() == 0
            &&& r.len() == 1 ==> r[0].check == "ffi-from-raw-parts"@ && r[0].line == block.line
                && r[0].file == file && (r[0].severity == if ptrs {
                Severity::Error
            } else {
                Severity::Warning
            })
            &&& a ==> r[0].message == raw_parts_message("slice::from_raw_parts_mut"@)
            &&& !a && b ==> r[0].message == raw_parts_message("slice::from_raw_parts"@)
            &&& !a && !b && c ==> r[0].message == raw_parts_message("str::from_utf8_unchecked"@)
            &&& !a && !b && !c && d ==> r[0].message == raw_parts_message("CStr::from_ptr"@)
        }),
{
}

/// The message of the `ffi-ptr-deref-no-nullcheck` finding that quotes the operation `op`.
pub open spec fn deref_message(op: Seq<char>) -> Seq<char> {
    "FFI raw pointer operation without preceding null check: `"@ + op + "`. \
                     If the C side passes NULL, this causes immediate undefined behavior."@
}

proof fn lemma_deref_prefix(ls: Seq<Seq<char>>, k: nat, n: nat, base: usize, file: Seq<char>)
    requires
        k <= n,
    ensures
        deref_issues_upto(ls, k, base, file).len() <= deref_issues_upto(ls, n, base, file).len(),
        forall|m: int|
            0 <= m < deref_issues_upto(ls, k, base, file).len() ==> #[trigger] deref_issues_upto(
                ls,
                n,
                base,
                file,
            )[m] == deref_issues_upto(ls, k, base, file)[m],
    decreases n,
{
    if k < n {
        lemma_deref_prefix(ls, k, (n - 1) as nat, base, file);
    }
}

proof fn lemma_contains_nonempty(t: Seq<char>, p: Seq<char>)
    requires
        contains_seq(t, p),
        p.len() > 0,
    ensures
        t.len() > 0,
{
    let q = choose|q: int| crate::text::occurs_at(t, p, q);
}

/// With FFI pointers about, every line of an unsafe block that is not a `//`
/// comment, reads through or offsets a pointer (`.read()`, `.add(`,
/// `.offset(`, `.sub(`), and has no null check on any line before it, draws
/// an `ffi-ptr-deref-no-nullcheck` error at its line that quotes the trimmed line.
pub proof fn law_unguarded_read_or_offset_reported(block: UnsafeBlock, text: Seq<char>, file: Seq<char>, i: int)
    requires
        0 <= i < lines(text).len(),
        block.line + i <= usize::MAX,
        contains_seq(trim(lines(text)[i]), ".read()"@) || contains_seq(trim(lines(text)[i]), ".add("@)
            || contains_seq(trim(lines(text)[i]), ".offset("@) || contains_seq(trim(lines(text)[i]), ".sub("@),
        !starts_with_seq(trim(lines(text)[i]), "//"@),
        forall|j: int| 0 <= j < i ==> !is_null_check(trim(#[trigger] lines(text)[j])),
    ensures
        exists|m: int|
            0 <= m < deref_issues(block, text, file, true).len() && {
                let x = #[trigger] deref_issues(block, text, file, true)[m];
                &&& x.severity == Severity::Error
                &&& x.check == "ffi-ptr-deref-no-nullcheck"@
                &&& x.file == file
                &&& x.line == block.line + i
                &&& x.message == deref_message(trim(lines(text)[i]))
            },
{
    let ls = lines(text);
    let t = trim(ls[i]);
    reveal_strlit(".read()");
    reveal_strlit(".add(");
    reveal_strlit(".offset(");
    reveal_strlit(".sub(");
    if contains_seq(t, ".read()"@) {
        lemma_contains_nonempty(t, ".read()"@);
    } else if contains_seq(t, ".add("@) {
        lemma_contains_nonempty(t, ".add("@);
    } else if contains_seq(t, ".offset("@) {
        lemma_contains_nonempty(t, ".offset("@);
    } else {
        lemma_contains_nonempty(t, ".sub("@);
    }
    let before = deref_issues_upto(ls, i as nat, block.line, file);
    let after = deref_issues_upto(ls, (i + 1) as nat, block.line, file);
    assert(after == before + seq![crate::checks::ptr_deref::deref_issue(t, (block.line + i) as usize, file)]);
    lemma_deref_prefix(ls, (i + 1) as nat, ls.len(), block.line, file);
    let all = deref_issues(block, text, file, true);
    assert(all[before.len() as int] == after[before.len() as int]);
}

/// With FFI pointers about, a line of an unsafe block that is not a `//`
/// comment, dereferences a pointer (`&*`, `&mut *`, or a `*` on a line with
/// no `//` or `*/`) without reading through or offsetting one, and has no null check on any line before
/// it, draws an `ffi-ptr-deref-no-nullcheck` error at its line about a raw
/// pointer dereference.
pub proof fn law_unguarded_deref_reported(block: UnsafeBlock, text: Seq<char>, file: Seq<char>, i: int)
    requires
        0 <= i < lines(text).len(),
        block.line + i <= usize::MAX,
        contains_seq(trim(lines(text)[i]), "&*"@) || contains_seq(trim(lines(text)[i]), "&mut *"@) || (
        contains_seq(trim(lines(text)[i]), "*"@) && !contains_seq(trim(lines(text)[i]), "//"@)
            && !contains_seq(trim(lines(text)[i]), "*/"@)),
        !(contains_seq(trim(lines(text)[i]), ".read()"@) || contains_seq(trim(lines(text)[i]), ".add("@)
            || contains_seq(trim(lines(text)[i]), ".offset("@) || contains_seq(trim(lines(text)[i]), ".sub("@)),
        !starts_with_seq(trim(lines(text)[i]), "//"@),
        forall|j: int| 0 <= j < i ==> !is_null_check(trim(#[trigger] lines(text)[j])),
    ensures
        exists|m: int|
            0 <= m < deref_issues(block, text, file, true).len() && {
                let x = #[trigger] deref_issues(block, text, file, true)[m];
                &&& x.severity == Severity::Error
                &&& x.check == "ffi-ptr-deref-no-nullcheck"@
                &&& x.file == file
                &&& x.line == block.line + i
                &&& x.message == deref_message("raw pointer dereference"@)
            },
{
    let ls = lines(text);
    let t = trim(ls[i]);
    reveal_strlit("&*");
    reveal_strlit("&mut *");
    reveal_strlit("*");
    if contains_seq(t, "&*"@) {
        lemma_contains_nonempty(t, "&*"@);
    } else if contains_seq(t, "&mut *"@) {
        lemma_contains_nonempty(t, "&mut *"@);
    } else {
        lemma_contains_nonempty(t, "*"@);
    }
    let before = deref_issues_upto(ls, i as nat, block.line, file);
    let after = deref_issues_upto(ls, (i + 1) as nat, block.line, file);
    assert(after == before + seq![crate::checks::ptr_deref::deref_issue(t, (block.line + i) as usize, file)]);
    lemma_deref_prefix(ls, (i + 1) as nat, ls.len(), block.line, file);
    let all = deref_issues(block, text, file, true);
    assert(all[before.len() as int] == after[before.len() as int]);
}

proof fn lemma_deref_lines(ls: Seq<Seq<char>>, k: nat, base: usize, file: Seq<char>, j: int)
    requires
        k <= ls.len(),
        base + ls.len() <= usize::MAX + 1,
        0 <= j < ls.len(),
        is_null_check(trim(ls[j])),
    ensures
        forall|m: int|
            0 <= m < deref_issues_upto(ls, k, base, file).len() ==> (#[trigger] deref_issues_upto(
                ls,
                k,
                base,
                file,
            )[m]).line <= base + j,
    decreases k,
{
    if k > 0 {
        lemma_deref_lines(ls, (k - 1) as nat, base, file, j);
        if k - 1 > j {
            assert(crate::checks::ptr_deref::null_check_before(ls, k - 1)) by {
                assert(is_null_check(trim(ls[j])));
            }
        }
    }
}

/// A null check on some line of an unsafe block guards every line after it:
/// no `ffi-ptr-deref-no-nullcheck` finding of the block lies below that line.
pub proof fn law_null_check_guards_the_lines_below(
    block: UnsafeBlock,
    text: Seq<char>,
    file: Seq<char>,
    ptrs: bool,
    j: int,
)
    requires
        0 <= j < lines(text).len(),
        block.line + lines(text).len() <= usize::MAX + 1,
        is_null_check(trim(lines(text)[j])),
    ensures
        forall|m: int|
            0 <= m < deref_issues(block, text, file, ptrs).len() ==> (#[trigger] deref_issues(
                block,
                text,
                file,
                ptrs,
            )[m]).line <= block.line + j,
{
    if ptrs {
        lemma_deref_lines(lines(text), lines(text).len(), block.line, file, j);
    }
}

proof fn lemma_last_named_is(h: CHeaders, name: Seq<char>, j: int, k: nat)
    requires
        0 <= j < k <= h.structs@.len(),
        h.structs@[j].name@ == name,
        forall|q: int| j < q < h.structs@.len() ==> (#[trigger] h.structs@[q]).name@ != name,
    ensures
        last_named(h.structs@, name, k) == Some(j),
    decreases k,
{
    if k - 1 > j {
        lemma_last_named_is(h, name, j, (k - 1) as nat);
    }
}

proof fn lemma_layout_prefix(rss: Seq<ReprCStruct>, k: nat, n: nat, h: CHeaders, file: Seq<char>)
    requires
        k <= n,
    ensures
        layout_upto(rss, k, h, file).len() <= layout_upto(rss, n, h, file).len(),
        forall|m: int|
            0 <= m < layout_upto(rss, k, h, file).len() ==> #[trigger] layout_upto(rss, n, h, file)[m]
                == layout_upto(rss, k, h, file)[m],
    decreases n,
{
    if k < n {
        lemma_layout_prefix(rss, k, (n - 1) as nat, h, file);
    }
}

/// When a Rust struct and the last C struct of its name have different
/// numbers of fields, more or fewer, the layout validation reports a
/// `repr-c-field-count` error at the Rust struct's line that gives both counts.
pub proof fn law_field_count_mismatch_reported(
    rss: Seq<ReprCStruct>,
    h: CHeaders,
    file: Seq<char>,
    i: int,
    j: int,
)
    requires
        0 <= i < rss.len(),
        0 <= j < h.structs@.len(),
        h.structs@[j].name@ == rss[i].name@,
        forall|q: int| j < q < h.structs@.len() ==> (#[trigger] h.structs@[q]).name@ != rss[i].name@,
        rss[i].field_count != h.structs@[j].fields@.len(),
    ensures
        exists|m: int|
            0 <= m < layout_issues(rss, Some(h), file).len() && {
                let x = #[trigger] layout_issues(rss, Some(h), file)[m];
                &&& x.severity == Severity::Error
                &&& x.check == "repr-c-field-count"@
                &&& x.file == file
                &&& x.line == rss[i].line
                &&& x.message == "#[repr(C)] struct `"@ + rss[i].name@ + "` has "@ + decimal(
                    rss[i].field_count as nat,
                ) + " fields, but C header `"@ + h.structs@[j].file@ + ":"@ + decimal(
                    h.structs@[j].line as nat,
                ) + "` has "@ + decimal(h.structs@[j].fields@.len()) + " fields"@
            },
{
    let rs = rss[i];
    lemma_last_named_is(h, rs.name@, j, h.structs@.len());
    let before = layout_upto(rss, i as nat, h, file);
    let mine = struct_layout_issues(rs, h, file);
    assert(field_count_issue(rs, h.structs@[j], file) is Some);
    assert(mine[0] == field_count_issue(rs, h.structs@[j], file).unwrap());
    let after = layout_upto(rss, (i + 1) as nat, h, file);
    assert(after == before + mine);
    assert(after[before.len() as int] == mine[0]);
    lemma_layout_prefix(rss, (i + 1) as nat, rss.len(), h, file);
    let all = layout_issues(rss, Some(h), file);
    let lu = layout_upto(rss, rss.len(), h, file);
    assert(all[before.len() as int] == lu[before.len() as int]);
}

/// The message of the `ffi-callback-panic` finding for a call of `kind` in function `name`.
pub open spec fn panic_message(name: Seq<char>, kind: Seq<char>) -> Seq<char> {
    "extern \"C\" fn `"@ + name + "` contains `"@ + kind + "` — \
                     if called from C, this panic crosses FFI boundary (UB)"@
}

/// The number of `{` less the number of `}` on lines `s` through `m` of `ls`
/// (numbered from 1).
pub open spec fn braces_through(ls: Seq<Seq<char>>, s: nat, m: nat) -> int
    decreases m,
{
    if m < s || m == 0 {
        0
    } else {
        braces_through(ls, s, (m - 1) as nat) + count_char(ls[m - 1], '{') - count_char(ls[m - 1], '}')
    }
}

proof fn lemma_body_not_open(ls: Seq<Seq<char>>, m: nat, fn_start: usize, s: nat, name: Seq<char>, file: Seq<char>)
    requires
        m < s <= ls.len(),
        forall|q: int| fn_start <= q < s && q >= 1 ==> !contains_seq(#[trigger] ls[q - 1], seq!['{']),
    ensures
        !body_scan(ls, m, fn_start, name, file).started,
        !body_scan(ls, m, fn_start, name, file).done,
        body_scan(ls, m, fn_start, name, file).depth == 0,
    decreases m,
{
    if m > 0 {
        lemma_body_not_open(ls, (m - 1) as nat, fn_start, s, name, file);
        if m >= fn_start {
            assert(!contains_seq(ls[m - 1], seq!['{']));
        }
    }
}

proof fn lemma_body_open(ls: Seq<Seq<char>>, m: nat, fn_start: usize, s: nat, name: Seq<char>, file: Seq<char>)
    requires
        1 <= s <= m <= ls.len(),
        fn_start <= s,
        contains_seq(ls[s - 1], seq!['{']),
        forall|q: int| fn_start <= q < s && q >= 1 ==> !contains_seq(#[trigger] ls[q - 1], seq!['{']),
        forall|q: nat| s <= q <= m ==> #[trigger] braces_through(ls, s, q) > 0,
    ensures
        body_scan(ls, m, fn_start, name, file).started,
        !body_scan(ls, m, fn_start, name, file).done,
        body_scan(ls, m, fn_start, name, file).depth == braces_through(ls, s, m),
    decreases m,
{
    if m == s {
        lemma_body_not_open(ls, (s - 1) as nat, fn_start, s, name, file);
        assert(braces_through(ls, s, (s - 1) as nat) == 0);
        assert(braces_through(ls, s, s) > 0);
    } else {
        lemma_body_open(ls, (m - 1) as nat, fn_start, s, name, file);
        assert(braces_through(ls, s, m) > 0);
    }
}

proof fn lemma_body_prefix(ls: Seq<Seq<char>>, k: nat, n: nat, fn_start: usize, name: Seq<char>, file: Seq<char>)
    requires
        k <= n,
    ensures
        body_scan(ls, k, fn_start, name, file).issues.len() <= body_scan(ls, n, fn_start, name, file).issues.len(),
        forall|m: int|
            0 <= m < body_scan(ls, k, fn_start, name, file).issues.len() ==> #[trigger] body_scan(
                ls,
                n,
                fn_start,
                name,
                file,
            ).issues[m] == body_scan(ls, k, fn_start, name, file).issues[m],
    decreases n,
{
    if k < n {
        lemma_body_prefix(ls, k, (n - 1) as nat, fn_start, name, file);
    }
}

/// In an `extern "C"` function, take the first line from the function's own
/// line on that holds a `{` (line `s`, numbered from 1): the body runs on while
/// the `{` and `}` counted from that line on leave more opened than closed.
/// Every later line of the body whose trimmed text calls `panic!`,
/// `unreachable!`, `.unwrap()` or `.expect(` draws an `ffi-callback-panic`
/// warning at that line, naming the first of these, in that order, on the line.
pub proof fn law_panicking_call_in_callback_body_reported(
    ef: ExternFn,
    source: Seq<char>,
    file: Seq<char>,
    s: nat,
    k: nat,
)
    requires
        ef.abi@ == "C"@,
        1 <= s < k <= lines(source).len(),
        k <= usize::MAX,
        ef.line <= s,
        contains_seq(lines(source)[s - 1], seq!['{']),
        forall|q: int| ef.line <= q < s && q >= 1 ==> !contains_seq(#[trigger] lines(source)[q - 1], seq!['{']),
        forall|q: nat| s <= q < k ==> #[trigger] braces_through(lines(source), s, q) > 0,
        contains_seq(trim(lines(source)[k - 1]), "panic!"@) || contains_seq(trim(lines(source)[k - 1]), "unreachable!"@)
            || contains_seq(trim(lines(source)[k - 1]), ".unwrap()"@) || contains_seq(
            trim(lines(source)[k - 1]),
            ".expect("@,
        ),
    ensures
        exists|m: int|
            0 <= m < body_panics_issues(ef, source, file).len() && {
                let x = #[trigger] body_panics_issues(ef, source, file)[m];
                let t = trim(lines(source)[k - 1]);
                let p = contains_seq(t, "panic!"@);
                let u = contains_seq(t, "unreachable!"@);
                let w = contains_seq(t, ".unwrap()"@);
                &&& x.severity == Severity::Warning
                &&& x.check == "ffi-callback-panic"@
                &&& x.file == file
                &&& x.line == k
                &&& p ==> x.message == panic_message(ef.name@, "panic!()"@)
                &&& !p && u ==> x.message == panic_message(ef.name@, "unreachable!()"@)
                &&& !p && !u && w ==> x.message == panic_message(ef.name@, ".unwrap()"@)
                &&& !p && !u && !w ==> x.message == panic_message(ef.name@, ".expect()"@)
            },
{
    let ls = lines(source);
    lemma_body_open(ls, (k - 1) as nat, ef.line, s, ef.name@, file);
    let prev = body_scan(ls, (k - 1) as nat, ef.line, ef.name@, file);
    let cur = body_scan(ls, k, ef.line, ef.name@, file);
    let t = trim(ls[k - 1]);
    assert(panics_line(t));
    assert(cur.issues == prev.issues + seq![body_panic_issue(ef.name@, t, k as usize, file)]);
    lemma_body_prefix(ls, k, ls.len(), ef.line, ef.name@, file);
    let all = body_panics_issues(ef, source, file);
    let x = all[prev.issues.len() as int];
    assert(x == cur.issues[prev.issues.len() as int]);
    assert(x == body_panic_issue(ef.name@, t, k as usize, file));
}

/// The lines of `run`, each followed by a line feed.
pub open spec fn joined_lines(run: Seq<Seq<u8>>) -> Seq<u8>
    decreases run.len(),
{
    if run.len() == 0 {
        seq![]
    } else {
        joined_lines(run.drop_last()) + run.last() + seq![10u8]
    }
}

proof fn lemma_line_begin_at(src: Seq<u8>, a: nat, p: nat)
    requires
        a <= p <= src.len(),
        a == 0 || src[a - 1] == 10u8,
        forall|x: int| a <= x < p ==> src[x] != 10u8,
    ensures
        line_begin(src, p) == a,
    decreases p,
{
    if p > a {
        lemma_line_begin_at(src, a, (p - 1) as nat);
    }
}

proof fn lemma_run_prefix(src: Seq<u8>, pre: Seq<u8>, run: Seq<Seq<u8>>, rest: Seq<u8>, m: nat)
    requires
        src == pre + joined_lines(run) + rest,
        m <= run.len(),
    ensures
        pre.len() + joined_lines(run.take(m as int)).len() <= src.len(),
        forall|x: int|
            0 <= x < pre.len() + joined_lines(run.take(m as int)).len() ==> #[trigger] src[x] == (pre
                + joined_lines(run.take(m as int)))[x],
    decreases run.len() - m,
{
    if m == run.len() {
        assert(run.take(m as int) =~= run);
    } else {
        lemma_run_prefix(src, pre, run, rest, m + 1);
        assert(run.take((m + 1) as int).drop_last() =~= run.take(m as int));
        let pm = pre + joined_lines(run.take(m as int));
        let pn = pre + joined_lines(run.take((m + 1) as int));
        assert(pn =~= pm + run[m as int] + seq![10u8]);
        assert forall|x: int| 0 <= x < pm.len() implies #[trigger] src[x] == pm[x] by {
            assert(src[x] == pn[x]);
        }
    }
}

proof fn lemma_run_marks_safety(src: Seq<u8>, pre: Seq<u8>, run: Seq<Seq<u8>>, rest: Seq<u8>, k: int, m: nat)
    requires
        src == pre + joined_lines(run) + rest,
        pre.len() == 0 || pre.last() == 10u8,
        0 <= k < m <= run.len(),
        forall|t: int| 0 <= t < run.len() ==> !(#[trigger] run[t]).contains(10u8),
        forall|t: int| 0 <= t < run.len() ==> is_comment_line(#[trigger] run[t]),
        marks_safety(run[k]),
    ensures
        safety_comment_above(src, pre.len() + joined_lines(run.take(m as int)).len()),
    decreases m,
{
    let pm = pre + joined_lines(run.take(m as int));
    let pl = pre + joined_lines(run.take(m - 1));
    assert(run.take(m as int).drop_last() =~= run.take(m - 1));
    assert(pm =~= pl + run[m - 1] + seq![10u8]);
    lemma_run_prefix(src, pre, run, rest, m);
    let b = pm.len();
    let e = (b - 1) as nat;
    let a = pl.len();
    assert(src[e as int] == pm[e as int]);
    assert(a == 0 || src[a - 1] == 10u8) by {
        if a > 0 {
            assert(src[a - 1] == pm[a - 1]);
            if m - 1 == 0 {
                assert(run.take(0) =~= Seq::<Seq<u8>>::empty());
                assert(pl =~= pre);
            } else {
                assert(run.take(m - 1).drop_last() =~= run.take(m - 2));
                assert(pl =~= pre + joined_lines(run.take(m - 2)) + run[m - 2] + seq![10u8]);
            }
        }
    }
    assert forall|x: int| a <= x < e implies src[x] != 10u8 by {
        assert(src[x] == pm[x]);
        assert(pm[x] == run[m - 1][x - a]);
        assert(run[m - 1].contains(run[m - 1][x - a]));
    }
    lemma_line_begin_at(src, a, e);
    assert(src.subrange(a as int, e as int) =~= run[m - 1]) by {
        assert forall|x: int| 0 <= x < run[m - 1].len() implies src.subrange(a as int, e as int)[x]
            == run[m - 1][x] by {
            assert(src[a + x] == pm[a + x]);
        }
    }
    if m - 1 > k {
        lemma_run_marks_safety(src, pre, run, rest, k, (m - 1) as nat);
    }
}

/// An unsafe block records a safety comment when the lines standing directly
/// above the line it starts on are a run of `//` comment lines and any one of
/// them, whichever, holds `// safety` in any case: the text is `pre`, then the
/// run, each line followed by a line feed, then the line holding the block's
/// first byte.
pub proof fn law_safety_comment_anywhere_in_the_run(
    ns: Seq<SyntaxNode>,
    src: Seq<u8>,
    i: int,
    pre: Seq<u8>,
    run: Seq<Seq<u8>>,
    rest: Seq<u8>,
    k: int,
)
    requires
        0 <= i < ns.len(),
        src == pre + joined_lines(run) + rest,
        pre.len() == 0 || pre.last() == 10u8,
        0 <= k < run.len(),
        forall|t: int| 0 <= t < run.len() ==> !(#[trigger] run[t]).contains(10u8),
        forall|t: int| 0 <= t < run.len() ==> is_comment_line(#[trigger] run[t]),
        contains_seq(ascii_lower(run[k]), ascii_bytes("// safety"@)),
        pre.len() + joined_lines(run).len() <= ns[i].start_byte <= src.len(),
        forall|x: int| pre.len() + joined_lines(run).len() <= x < ns[i].start_byte ==> src[x] != 10u8,
    ensures
        unsafe_block_at(ns, src, i).has_safety_comment,
{
    let n = run.len();
    assert(run.take(n as int) =~= run);
    lemma_run_marks_safety(src, pre, run, rest, k, n);
    assert(run.drop_last() =~= run.take(n - 1));
    let b = pre.len() + joined_lines(run).len();
    assert(src[b - 1] == 10u8) by {
        lemma_run_prefix(src, pre, run, rest, n);
        assert(joined_lines(run) =~= joined_lines(run.drop_last()) + run.last() + seq![10u8]);
        assert(src[b - 1] == (pre + joined_lines(run))[b - 1]);
    }
    lemma_line_begin_at(src, b, ns[i].start_byte as nat);
}

/// An unsafe block records no safety comment when the line directly above the
/// line it starts on is not a `//` comment line, whatever stands further up, or
/// when it starts on the first line: the text is `above`, then the line `l`
/// and a line feed, then the line holding the block's first byte.
pub proof fn law_no_safety_comment_without_comment_above(
    ns: Seq<SyntaxNode>,
    src: Seq<u8>,
    i: int,
    above: Seq<u8>,
    l: Seq<u8>,
    rest: Seq<u8>,
    first_line: bool,
)
    requires
        0 <= i < ns.len(),
        first_line ==> src == rest,
        !first_line ==> src == above + l + seq![10u8] + rest,
        !first_line ==> above.len() == 0 || above.last() == 10u8,
        !first_line ==> !l.contains(10u8),
        !first_line ==> !is_comment_line(l),
        ({
            let b = if first_line { 0 } else { above.len() + l.len() + 1 };
            &&& b <= ns[i].start_byte <= src.len()
            &&& forall|x: int| b <= x < ns[i].start_byte ==> src[x] != 10u8
        }),
    ensures
        !unsafe_block_at(ns, src, i).has_safety_comment,
{
    if first_line {
        lemma_line_begin_at(src, 0, ns[i].start_byte as nat);
    } else {
        let b = above.len() + l.len() + 1;
        assert(src[b - 1] == 10u8);
        lemma_line_begin_at(src, b as nat, ns[i].start_byte as nat);
        let a = above.len();
        assert(a == 0 || src[a - 1] == 10u8) by {
            if a > 0 {
                assert(src[a - 1] == above[a - 1]);
            }
        }
        assert forall|x: int| a <= x < b - 1 implies src[x] != 10u8 by {
            assert(src[x] == l[x - a]);
            assert(l.contains(l[x - a]));
        }
        lemma_line_begin_at(src, a as nat, (b - 1) as nat);
        assert(src.subrange(a as int, b - 1) =~= l);
    }
}

} // verus!
