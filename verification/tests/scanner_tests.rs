use ffi_guard::checks::{CHeaders, parse_c_headers};
use ffi_guard::report::Severity;
use ffi_guard::scanner::{ScanError, Scanner, SourceFile};

const SAMPLE: &str = r#"use std::ffi::CString;

extern "C" {
    fn get_buffer(len: usize) -> *mut u8;
    fn release(buf: *mut u8);
}

#[repr(C)]
pub struct Handle {
    ptr: *mut u8,
    len: usize,
}

#[repr(C)]
pub struct Wrapper(*mut u8);

pub fn use_it(p: *const u8) -> u8 {
    unsafe {
        let v = *p;
        v
    }
}
"#;

#[test]
fn parse_file_finds_extern_fns_blocks_and_structs() {
    let mut scanner = Scanner::new().expect("rust grammar");
    let info = scanner.parse_file("src/ffi.rs", SAMPLE);
    assert_eq!(info.path, "src/ffi.rs");

    assert_eq!(info.extern_fns.len(), 2);
    let f = &info.extern_fns[0];
    assert_eq!(f.name, "get_buffer");
    assert_eq!((f.line, f.column), (4, 5));
    assert_eq!(f.abi, "C");
    assert_eq!(f.ret_type, "*mut u8");
    assert!(!f.is_unsafe);
    assert_eq!(f.params.len(), 1);
    assert_eq!(f.params[0].name, "len");
    assert_eq!(f.params[0].ty, "len: usize");
    assert!(!f.params[0].is_mut_ptr && !f.params[0].is_const_ptr);
    let g = &info.extern_fns[1];
    assert_eq!(g.name, "release");
    assert_eq!(g.ret_type, "");
    assert!(g.params[0].is_mut_ptr);

    assert_eq!(info.repr_c_structs.len(), 2);
    let h = &info.repr_c_structs[0];
    assert_eq!(h.name, "Handle");
    assert_eq!(h.line, 9);
    assert_eq!(h.field_count, 2);
    assert_eq!(h.field_names, vec!["ptr".to_string(), "len".to_string()]);
    assert!(!h.has_drop_impl);
    let w = &info.repr_c_structs[1];
    assert_eq!(w.name, "Wrapper");
    assert_eq!(w.field_count, 1);

    assert_eq!(info.unsafe_blocks.len(), 1);
    let ub = &info.unsafe_blocks[0];
    assert_eq!(ub.line, 18);
    assert_eq!(ub.line_count, 4);
    assert!(!ub.has_safety_comment);
    assert!(ub.block_text.starts_with("unsafe {"));
}

#[test]
fn check_file_reports_in_order() {
    let mut scanner = Scanner::new().expect("rust grammar");
    let info = scanner.parse_file("src/ffi.rs", SAMPLE);
    let issues = scanner.check_file(&info, SAMPLE);
    let checks: Vec<(&str, usize)> = issues.iter().map(|i| (i.check, i.line)).collect();
    assert_eq!(
        checks,
        vec![
            ("extern-fn-null-return", 4),
            ("extern-fn-not-unsafe", 4),
            ("extern-fn-not-unsafe", 5),
            ("repr-c-no-drop", 9),
            ("repr-c-no-drop", 15),
            ("repr-c-should-be-transparent", 15),
            ("unsafe-no-safety-doc", 18),
            ("ffi-ptr-deref-no-nullcheck", 19),
        ]
    );
    assert_eq!(
        issues[0].message,
        "extern \"C\" fn `get_buffer` returns a raw pointer `*mut u8` — callers may not null-check it"
    );
    assert_eq!(issues[1].severity, Severity::Error);
    assert_eq!(
        issues[7].message,
        "FFI raw pointer operation without preceding null check: `raw pointer dereference`. \
         If the C side passes NULL, this causes immediate undefined behavior."
    );
}

#[test]
fn safety_comment_and_abi_are_read_from_the_text() {
    let src = "extern \"system\" {\n    fn f() -> i32;\n}\n\nfn g() {\n    // SAFETY: the pointer is valid\n    unsafe { h() }\n}\n";
    let mut scanner = Scanner::new().expect("rust grammar");
    let info = scanner.parse_file("x.rs", src);
    assert_eq!(info.extern_fns.len(), 1);
    assert_eq!(info.extern_fns[0].abi, "system");
    assert_eq!(info.unsafe_blocks.len(), 1);
    assert!(info.unsafe_blocks[0].has_safety_comment);
    assert_eq!(info.unsafe_blocks[0].line_count, 1);
}

#[test]
fn scan_uses_package_name_and_counts() {
    let mut scanner = Scanner::new().expect("rust grammar");
    let sources = vec![SourceFile { path: "src/ffi.rs".to_string(), text: SAMPLE.to_string() }];
    let report = scanner
        .scan("/tmp/proj", "[package]\nname = \"demo\"\n", &sources)
        .expect("scan");
    assert_eq!(report.project, "demo");
    assert_eq!(report.stats.ffi_functions, 2);
    assert_eq!(report.stats.unsafe_blocks, 1);
    assert_eq!(report.stats.repr_c_structs, 2);
    // eight findings of the file, then one repr-c-no-header per struct
    assert_eq!(report.stats.total_issues, 10);
    assert_eq!(report.issues[8].check, "repr-c-no-header");
    assert_eq!(report.issues[9].check, "repr-c-no-header");
    assert_eq!(report.stats.errors, 3);
    assert_eq!(report.stats.warnings, 5);
    assert_eq!(report.stats.infos, 2);
}

#[test]
fn scan_without_package_name_uses_the_root() {
    let mut scanner = Scanner::new().expect("rust grammar");
    let report = scanner.scan("/tmp/proj", "[workspace]\n", &Vec::new()).expect("scan");
    assert_eq!(report.project, "/tmp/proj");
    assert_eq!(report.stats.total_issues, 0);
}

#[test]
fn scan_with_invalid_manifest_fails() {
    let mut scanner = Scanner::new().expect("rust grammar");
    let r = scanner.scan("/tmp/proj", "[package\nname = ", &Vec::new());
    assert!(matches!(r, Err(ScanError::Manifest(_))));
}

#[test]
fn scan_with_headers_compares_layouts() {
    let header = "typedef struct {\n    int *ptr;\n    size_t len;\n    int extra;\n} Handle;\n\nstruct Other { int a; };\n";
    let structs = parse_c_headers(&vec![SourceFile { path: "inc/h.h".to_string(), text: header.to_string() }]);
    assert_eq!(structs.len(), 2);
    assert_eq!(structs[0].name, "Handle");
    assert_eq!(structs[0].line, 1);
    assert_eq!(structs[0].fields.len(), 3);
    assert_eq!(structs[0].fields[0].name, "ptr");
    assert_eq!(structs[0].fields[0].ty, "int *");
    assert!(structs[0].fields[0].is_ptr);
    assert_eq!(structs[1].name, "Other");
    assert_eq!(structs[1].line, 7);
    let headers = CHeaders { dir: "inc".to_string(), structs };

    let mut scanner = Scanner::new().expect("rust grammar");
    let sources = vec![SourceFile { path: "src/ffi.rs".to_string(), text: SAMPLE.to_string() }];
    let report = scanner
        .scan_with_headers("/tmp/proj", "[package]\nname = \"demo\"\n", &sources, Some(&headers))
        .expect("scan");
    let tail: Vec<(&str, &str, usize)> =
        report.issues[8..].iter().map(|i| (i.check, i.file.as_str(), i.line)).collect();
    assert_eq!(
        tail,
        vec![
            ("repr-c-field-count", "src/ffi.rs", 9),
            ("repr-c-no-c-match", "src/ffi.rs", 15),
            ("repr-c-unused-cstruct", "inc/h.h", 7),
        ]
    );
    assert_eq!(
        report.issues[8].message,
        "#[repr(C)] struct `Handle` has 2 fields, but C header `inc/h.h:1` has 3 fields"
    );
    assert_eq!(
        report.issues[9].suggestion.as_deref(),
        Some("Expected struct `Wrapper` in the C header directory `inc`.")
    );
}
