use ffi_guard::checks::{
    check_callback_body_panics, check_callback_types, check_cstring_unwrap,
    check_extern_fn_null_return, check_ffi_from_raw_parts, check_ffi_ownership,
    check_ffi_ptr_deref, check_repr_c_missing, check_repr_transparent, check_unsafe_sprawl,
    check_unsafe_without_safety_doc,
};
use ffi_guard::report::Severity;
use ffi_guard::scanner::{ExternFn, FileInfo, FnParam, ReprCStruct, UnsafeBlock};

fn ext_fn(name: &str, line: usize, ret: &str, is_unsafe: bool, params: Vec<FnParam>) -> ExternFn {
    ExternFn {
        name: name.to_string(),
        line,
        column: 5,
        abi: "C".to_string(),
        params,
        ret_type: ret.to_string(),
        is_unsafe,
    }
}

fn ptr_param(name: &str) -> FnParam {
    FnParam { name: name.to_string(), ty: format!("{name}: *const u8"), is_mut_ptr: false, is_const_ptr: true }
}

fn block(line: usize, text: &str, line_count: usize, doc: bool) -> UnsafeBlock {
    UnsafeBlock { line, line_count, has_safety_comment: doc, block_text: text.to_string() }
}

fn rstruct(name: &str, fields: &[&str], count: usize, drop: bool) -> ReprCStruct {
    ReprCStruct {
        name: name.to_string(),
        line: 7,
        field_count: count,
        field_names: fields.iter().map(|f| f.to_string()).collect(),
        has_drop_impl: drop,
    }
}

#[test]
fn null_return_warns_and_requires_unsafe() {
    let f = ext_fn("make", 3, " *const Foo ", false, vec![]);
    let issues = check_extern_fn_null_return(&f, "a.rs");
    assert_eq!(issues.len(), 2);
    assert_eq!(issues[0].check, "extern-fn-null-return");
    assert_eq!(issues[0].severity, Severity::Warning);
    assert_eq!(
        issues[0].message,
        "extern \"C\" fn `make` returns a raw pointer `*const Foo` — callers may not null-check it"
    );
    assert_eq!((issues[0].line, issues[0].column), (3, 5));
    assert_eq!(issues[1].check, "extern-fn-not-unsafe");
    assert_eq!(
        issues[1].message,
        "extern \"C\" fn `make` is not marked `unsafe` — calling it is always unsafe"
    );
    assert_eq!(issues[1].suggestion.as_deref(), Some("Add `unsafe` keyword before `fn`."));

    let g = ext_fn("make", 3, "*mut Foo", true, vec![]);
    assert_eq!(check_extern_fn_null_return(&g, "a.rs").len(), 1);
    let h = ext_fn("plain", 3, "i32", false, vec![]);
    let only = check_extern_fn_null_return(&h, "a.rs");
    assert_eq!(only.len(), 1);
    assert_eq!(only[0].check, "extern-fn-not-unsafe");
    assert_eq!(only[0].severity, Severity::Error);
    assert_eq!((only[0].line, only[0].column), (3, 5));
    let k = ext_fn("plain", 3, "i32", true, vec![]);
    assert!(check_extern_fn_null_return(&k, "a.rs").is_empty());
}

#[test]
fn ownership_needs_pointer_in_and_out() {
    let info = FileInfo {
        path: "b.rs".to_string(),
        extern_fns: vec![
            ext_fn("both", 1, "*mut u8", true, vec![ptr_param("p")]),
            ext_fn("in_only", 2, "i32", true, vec![ptr_param("p")]),
            ext_fn("out_only", 3, "*mut u8", true, vec![]),
        ],
        unsafe_blocks: vec![],
        repr_c_structs: vec![],
        ffi_typenames: vec![],
    };
    let issues = check_ffi_ownership(&info);
    assert_eq!(issues.len(), 1);
    assert_eq!(issues[0].check, "ffi-ownership-ambiguous");
    assert_eq!(issues[0].file, "b.rs");
    assert_eq!(issues[0].line, 1);
    assert!(issues[0].message.starts_with("extern fn `both` both accepts and returns raw pointers"));
}

#[test]
fn sprawl_is_more_than_ten_lines() {
    assert!(check_unsafe_sprawl(&block(4, "", 10, true), "c.rs").is_empty());
    let issues = check_unsafe_sprawl(&block(4, "", 11, true), "c.rs");
    assert_eq!(issues.len(), 1);
    assert_eq!(
        issues[0].message,
        "unsafe block spans 11 lines — consider splitting into smaller unsafe blocks around only the operations that truly require unsafe"
    );
    assert_eq!(issues[0].line, 4);
}

#[test]
fn missing_safety_doc_is_reported() {
    assert!(check_unsafe_without_safety_doc(&block(4, "", 1, true), "c.rs").is_empty());
    let issues = check_unsafe_without_safety_doc(&block(4, "", 1, false), "c.rs");
    assert_eq!(issues[0].check, "unsafe-no-safety-doc");
    assert_eq!(
        issues[0].message,
        "unsafe block missing // SAFETY: comment explaining the invariant upheld"
    );
}

#[test]
fn from_raw_parts_severity_follows_ffi_pointers() {
    let text = "unsafe { std::slice::from_raw_parts_mut(p, n); CStr::from_ptr(q) }";
    let b = block(9, text, 1, true);
    let err = check_ffi_from_raw_parts(&b, text, "d.rs", true);
    assert_eq!(err.len(), 1);
    assert_eq!(err[0].severity, Severity::Error);
    assert!(err[0].message.starts_with("`slice::from_raw_parts_mut()` called inside unsafe block"));
    let warn = check_ffi_from_raw_parts(&b, "unsafe { CStr::from_ptr(q) }", "d.rs", false);
    assert_eq!(warn[0].severity, Severity::Warning);
    assert!(warn[0].message.starts_with("`CStr::from_ptr()`"));
    assert!(check_ffi_from_raw_parts(&b, "unsafe { f() }", "d.rs", true).is_empty());
}

#[test]
fn ptr_deref_respects_earlier_null_checks() {
    let text = "unsafe {\n    // *p is fine\n    let a = p.add(1);\n    if p.is_null() { return; }\n    let b = *p;\n}";
    let b = block(10, text, 6, true);
    let issues = check_ffi_ptr_deref(&b, text, "e.rs", true);
    assert_eq!(issues.len(), 1);
    assert_eq!(issues[0].line, 12);
    assert_eq!(
        issues[0].message,
        "FFI raw pointer operation without preceding null check: `let a = p.add(1);`. If the C side passes NULL, this causes immediate undefined behavior."
    );
    assert!(check_ffi_ptr_deref(&b, text, "e.rs", false).is_empty());
}

#[test]
fn cstring_unwrap_lines_are_numbered_from_the_block() {
    let text = "unsafe {\n    // CString::new(x).unwrap()\n    let c = CString::new(s).unwrap();\n    let d = CString::new(t)?;\n}";
    let b = block(20, text, 5, true);
    let issues = check_cstring_unwrap(&b, text, "f.rs");
    assert_eq!(issues.len(), 1);
    assert_eq!(issues[0].line, 22);
    assert_eq!(issues[0].check, "ffi-cstring-unwrap");
    assert!(issues[0].message.contains("interior null byte (\\0)"));
    assert!(check_cstring_unwrap(&b, "unsafe { x.unwrap() }", "f.rs").is_empty());
}

#[test]
fn callback_types_name_the_alias() {
    let src = "type Callback = extern \"C\" fn(i32);\nstruct S { cb: Option<extern \"C\" fn()> }\nfn f() {}\n";
    let issues = check_callback_types("g.rs", src, true);
    assert_eq!(issues.len(), 2);
    assert_eq!(issues[0].line, 1);
    assert!(issues[0].message.starts_with("`extern \"C\" fn(...)` type `Callback` is likely used as a C callback"));
    assert_eq!(issues[1].line, 2);
    assert!(issues[1].message.contains("type `callback`"));
    assert!(check_callback_types("g.rs", src, false).is_empty());
}

#[test]
fn body_panics_are_found_inside_the_body_only() {
    let src = "fn before() { x.unwrap(); }\n\
extern \"C\" fn cb(p: i32) -> i32 {\n\
    let v = opt.unwrap();\n\
    if v < 0 { panic!(\"bad\"); }\n\
    v\n\
}\n\
fn after() { y.expect(\"z\"); }\n";
    let f = ext_fn("cb", 2, "i32", false, vec![]);
    let issues = check_callback_body_panics(&f, src, "h.rs");
    let lines: Vec<usize> = issues.iter().map(|i| i.line).collect();
    assert_eq!(lines, vec![3, 4]);
    assert_eq!(
        issues[0].message,
        "extern \"C\" fn `cb` contains `.unwrap()` — if called from C, this panic crosses FFI boundary (UB)"
    );
    assert!(issues[1].message.contains("`panic!()`"));
    let mut rust_abi = f.clone();
    rust_abi.abi = "Rust".to_string();
    assert!(check_callback_body_panics(&rust_abi, src, "h.rs").is_empty());
}

#[test]
fn repr_c_struct_checks() {
    let empty = rstruct("Opaque", &[], 0, true);
    let issues = check_repr_c_missing(&empty, "i.rs");
    assert_eq!(issues.len(), 1);
    assert_eq!(issues[0].check, "repr-c-empty");
    assert_eq!(issues[0].severity, Severity::Info);
    assert!(issues[0].suggestion.is_none());

    let raw = rstruct("Raw", &["p"], 1, false);
    let issues = check_repr_c_missing(&raw, "i.rs");
    assert_eq!(issues.len(), 1);
    assert_eq!(issues[0].check, "repr-c-no-drop");
    assert_eq!(
        issues[0].suggestion.as_deref(),
        Some("Consider implementing Drop for `Raw`, or document: who allocates and who frees the pointed-to memory.")
    );

    let t = check_repr_transparent(&raw, "i.rs");
    assert_eq!(t.len(), 1);
    assert_eq!(t[0].check, "repr-c-should-be-transparent");
    assert!(check_repr_transparent(&rstruct("Two", &["a", "b"], 2, true), "i.rs").is_empty());
}
