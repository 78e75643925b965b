use ffi_guard::checks::check_ffi_ptr_deref;
use ffi_guard::scanner::UnsafeBlock;
use ffi_guard::checks::repr_c_layout::c_type_to_rust_info;
use ffi_guard::checks::{check_repr_c_layout, CField, CHeaders, CStruct};
use ffi_guard::report::{Issue, Report, Severity};
use ffi_guard::scanner::{ReprCStruct, Scanner, SourceFile};
use ffi_guard::trophy::{empty_entry, findings_only, scanned_entry};

const FFI_FILE: &str = r#"use std::ffi::{CStr, CString};

type Callback = extern "C" fn(i32) -> i32;

extern "C" {
    fn make(p: *const u8) -> *mut u8;
}

#[no_mangle]
pub extern "C" fn entry(x: i32) -> i32 {
    let v: Option<i32> = Some(x);
    v.unwrap()
}

#[repr(C)]
pub struct One {
    v: u32,
}

#[repr(C)]
pub struct Empty {}

pub fn go(p: *const u8, n: usize) {
    unsafe {
        let s = std::slice::from_raw_parts(p, n);
        let c = CString::new("x").unwrap();
        let b = *p;
    }
}
"#;

fn documented(check: &str, severity: Severity, ffi_ptrs: bool) -> bool {
    let expected = match check {
        "extern-fn-not-unsafe" | "repr-c-field-count" | "repr-c-field-order"
        | "ffi-ptr-deref-no-nullcheck" => Severity::Error,
        "extern-fn-null-return" | "ffi-ownership-ambiguous" | "ffi-callback-panic"
        | "ffi-cstring-unwrap" | "repr-c-no-drop" | "repr-c-should-be-transparent"
        | "repr-c-field-names" | "repr-c-unknown-ctype" | "repr-c-no-c-match" | "unsafe-sprawl"
        | "unsafe-no-safety-doc" => Severity::Warning,
        "repr-c-unused-cstruct" | "repr-c-empty" | "repr-c-no-header" => Severity::Info,
        "ffi-from-raw-parts" => {
            if ffi_ptrs {
                Severity::Error
            } else {
                Severity::Warning
            }
        }
        _ => return false,
    };
    expected == severity
}

#[test]
fn file_findings_name_the_file_and_carry_their_documented_severity() {
    let mut scanner = Scanner::new().expect("rust grammar");
    let info = scanner.parse_file("src/lib.rs", FFI_FILE);
    let issues = scanner.check_file(&info, FFI_FILE);
    let ffi_ptrs = info.extern_fns.iter().any(|f| f.params.iter().any(|p| p.is_mut_ptr || p.is_const_ptr));
    assert!(ffi_ptrs);
    let checks: Vec<&str> = issues.iter().map(|i| i.check).collect();
    for expected in [
        "ffi-callback-panic",
        "extern-fn-null-return",
        "extern-fn-not-unsafe",
        "repr-c-should-be-transparent",
        "repr-c-empty",
        "unsafe-no-safety-doc",
        "ffi-cstring-unwrap",
        "ffi-from-raw-parts",
        "ffi-ptr-deref-no-nullcheck",
        "ffi-ownership-ambiguous",
    ] {
        assert!(checks.contains(&expected), "missing {expected} in {checks:?}");
    }
    for i in &issues {
        assert_eq!(i.file, "src/lib.rs");
        assert!(documented(i.check, i.severity, ffi_ptrs), "{} at {:?}", i.check, i.severity);
    }
    let raw = issues.iter().find(|i| i.check == "ffi-from-raw-parts").unwrap();
    assert_eq!(raw.severity, Severity::Error);
}

fn rstruct(name: &str, line: usize, fields: &[&str]) -> ReprCStruct {
    ReprCStruct {
        name: name.to_string(),
        line,
        field_count: fields.len(),
        field_names: fields.iter().map(|f| f.to_string()).collect(),
        has_drop_impl: false,
    }
}

fn cstruct(name: &str, fields: &[(&str, &str)]) -> CStruct {
    CStruct {
        name: name.to_string(),
        fields: fields
            .iter()
            .map(|(n, t)| CField { name: n.to_string(), ty: t.to_string(), is_ptr: false, is_const: false })
            .collect(),
        file: "inc/p.h".to_string(),
        line: 3,
    }
}

#[test]
fn layout_findings_are_documented_and_name_the_rust_file() {
    let headers = CHeaders {
        dir: "inc".to_string(),
        structs: vec![
            cstruct("Pair", &[("a", "int"), ("b", "int")]),
            cstruct("Lone", &[("z", "mystery_t")]),
        ],
    };
    let rs = vec![rstruct("Pair", 4, &["b", "a"]), rstruct("Missing", 9, &["q"])];
    let issues = check_repr_c_layout(&rs, Some(&headers), "src/p.rs");
    for i in &issues {
        assert!(documented(i.check, i.severity, false));
        assert!(i.file == "src/p.rs" || i.check == "repr-c-unused-cstruct");
    }
    let unused = issues.iter().find(|i| i.check == "repr-c-unused-cstruct").unwrap();
    assert_eq!(unused.file, "inc/p.h");
}

#[test]
fn no_headers_one_note_per_struct_in_order() {
    let rs = vec![rstruct("A", 2, &["x"]), rstruct("B", 7, &[]), rstruct("C", 11, &["y", "z"])];
    let issues = check_repr_c_layout(&rs, None, "src/q.rs");
    let got: Vec<(&str, Severity, usize)> = issues.iter().map(|i| (i.check, i.severity, i.line)).collect();
    assert_eq!(
        got,
        vec![
            ("repr-c-no-header", Severity::Info, 2),
            ("repr-c-no-header", Severity::Info, 7),
            ("repr-c-no-header", Severity::Info, 11),
        ]
    );
}

#[test]
fn reordered_fields_are_an_error_at_the_struct_line() {
    let headers = CHeaders { dir: "inc".to_string(), structs: vec![cstruct("Pair", &[("a", "int"), ("b", "int")])] };
    let issues = check_repr_c_layout(&[rstruct("Pair", 4, &["b", "a"])], Some(&headers), "src/p.rs");
    let order = issues.iter().find(|i| i.check == "repr-c-field-order").expect("order finding");
    assert_eq!(order.severity, Severity::Error);
    assert_eq!(order.line, 4);
    assert_eq!(order.message, "struct `Pair` same fields but WRONG ORDER\n    C order:   a, b\n    Rust order: b, a");
}

#[test]
fn matching_struct_gets_only_unknown_type_findings() {
    let headers = CHeaders {
        dir: "inc".to_string(),
        structs: vec![cstruct("Pair", &[("a", "int"), ("b", "mystery_t")])],
    };
    let issues = check_repr_c_layout(&[rstruct("Pair", 4, &["a", "b"])], Some(&headers), "src/p.rs");
    let checks: Vec<&str> = issues.iter().map(|i| i.check).collect();
    assert_eq!(checks, vec!["repr-c-unknown-ctype"]);
}

fn issue(sev: Severity) -> Issue {
    Issue {
        severity: sev,
        check: "unsafe-sprawl",
        file: "f.rs".to_string(),
        line: 1,
        column: 1,
        message: "m".to_string(),
        suggestion: None,
    }
}

#[test]
fn only_entries_with_findings_are_kept_in_order() {
    let mut r1 = Report::new("a".to_string());
    r1.add(issue(Severity::Warning));
    let mut r2 = Report::new("c".to_string());
    r2.add(issue(Severity::Info));
    let entries = vec![
        scanned_entry("a".into(), "1".into(), 10, "".into(), r1),
        empty_entry("b".into(), "1".into(), 9, "".into(), None),
        scanned_entry("c".into(), "1".into(), 8, "".into(), r2),
        empty_entry("d".into(), "1".into(), 7, "".into(), Some("download failed".into())),
    ];
    let kept: Vec<String> = findings_only(entries).into_iter().map(|e| e.crate_name).collect();
    assert_eq!(kept, vec!["a".to_string(), "d".to_string()]);
}

#[test]
fn scan_report_is_built_from_each_file_in_order() {
    let mut scanner = Scanner::new().expect("rust grammar");
    let sources = vec![
        SourceFile { path: "src/a.rs".to_string(), text: "fn f() { unsafe { g(); } }\n".to_string() },
        SourceFile { path: "src/b.rs".to_string(), text: FFI_FILE.to_string() },
    ];
    let report = scanner.scan("/tmp/p", "[package]\nname = \"p\"\n", &sources).expect("scan");
    let info_b = scanner.parse_file("src/b.rs", FFI_FILE);
    let issues_b = scanner.check_file(&info_b, FFI_FILE);
    assert_eq!(report.issues[0].file, "src/a.rs");
    assert_eq!(report.issues[0].check, "unsafe-no-safety-doc");
    let from_b: Vec<&str> = report.issues[1..1 + issues_b.len()].iter().map(|i| i.check).collect();
    let expected_b: Vec<&str> = issues_b.iter().map(|i| i.check).collect();
    assert_eq!(from_b, expected_b);
    assert_eq!(report.stats.unsafe_blocks, 2);
    assert_eq!(report.stats.ffi_functions, info_b.extern_fns.len());
    assert_eq!(report.stats.total_issues, report.issues.len());
    for i in &report.issues {
        assert!(documented(i.check, i.severity, i.file == "src/b.rs"));
    }
}

#[test]
fn null_check_on_the_first_line_guards_the_whole_block() {
    let text = "unsafe { if p.is_null() { return; }\n    let a = *p;\n    let b = *q;\n}";
    let ub = UnsafeBlock { line: 10, line_count: 4, has_safety_comment: false, block_text: text.to_string() };
    assert!(check_ffi_ptr_deref(&ub, text, "f.rs", true).iter().all(|i| i.line == 10));
}

#[test]
fn one_warning_per_unknown_c_type_and_pointers_map_to_pointers() {
    let headers = CHeaders {
        dir: "inc".to_string(),
        structs: vec![cstruct("T", &[("a", "foo_t"), ("b", "int"), ("c", "bar_t")])],
    };
    let issues = check_repr_c_layout(&[rstruct("T", 6, &["a", "b", "c"])], Some(&headers), "src/t.rs");
    let unknown: Vec<usize> = issues.iter().filter(|i| i.check == "repr-c-unknown-ctype").map(|i| i.line).collect();
    assert_eq!(unknown, vec![6, 6]);
    assert_eq!(c_type_to_rust_info("const struct foo *"), ("*const/mut T", 8));
    assert_eq!(c_type_to_rust_info("char **"), ("*const/mut T", 8));
}

#[test]
fn null_check_first_line_clears_every_later_line() {
    let tails = ["", "let a = *p;\n", "let a = *p;\nlet b = *q;\nwrite(*r);\n"];
    for t in tails.iter() {
        let s = "if p.is_null() { return; }\n".to_string() + t;
        let ub = UnsafeBlock { line: 3, line_count: 4, has_safety_comment: false, block_text: s.clone() };
        assert!(check_ffi_ptr_deref(&ub, &s, "f.rs", true).is_empty());
    }
}

#[test]
fn star_anywhere_in_the_type_maps_to_a_pointer() {
    assert_eq!(c_type_to_rust_info("int*"), ("*const/mut T", 8));
    assert_eq!(c_type_to_rust_info("*"), ("*const/mut T", 8));
    assert_eq!(c_type_to_rust_info("  const  char * const"), ("*const/mut T", 8));
    assert_eq!(c_type_to_rust_info("void"), ("c_void", 0));
    assert_eq!(c_type_to_rust_info("struct opaque"), ("?", 0));
    assert_eq!(c_type_to_rust_info("unsigned char"), ("u8", 1));
    assert_eq!(c_type_to_rust_info("const uint64_t"), ("u64", 8));
}

#[test]
fn unknown_types_counted_for_one_struct_among_several() {
    let headers = CHeaders {
        dir: "inc".to_string(),
        structs: vec![
            cstruct("A", &[("x", "weird_t")]),
            cstruct("B", &[("p", "foo_t"), ("q", "int"), ("r", "bar_t"), ("s", "baz_t")]),
        ],
    };
    let rss = [rstruct("A", 2, &["x"]), rstruct("B", 9, &["p", "q", "r", "s"])];
    let issues = check_repr_c_layout(&rss, Some(&headers), "src/t.rs");
    let at_b = issues.iter().filter(|i| i.check == "repr-c-unknown-ctype" && i.line == 9).count();
    let at_a = issues.iter().filter(|i| i.check == "repr-c-unknown-ctype" && i.line == 2).count();
    assert_eq!(at_b, 3);
    assert_eq!(at_a, 1);
}
