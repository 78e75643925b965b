use ffi_guard::checks::{check_callback_body_panics, check_repr_c_missing, check_repr_transparent, parse_c_headers};
use ffi_guard::scanner::{ExternFn, ScanError, Scanner, SourceFile};

fn c_fn(name: &str, line: usize) -> ExternFn {
    ExternFn {
        name: name.to_string(),
        line,
        column: 1,
        abi: "C".to_string(),
        params: vec![],
        ret_type: String::new(),
        is_unsafe: false,
    }
}

#[test]
fn panic_on_the_line_of_the_opening_brace_is_found() {
    let src = "extern \"C\" fn f() { panic!(\"boom\") }";
    let r = check_callback_body_panics(&c_fn("f", 1), src, "a.rs");
    assert_eq!(r.len(), 1);
    assert_eq!(r[0].line, 1);
    assert_eq!(r[0].check, "ffi-callback-panic");
    assert!(r[0].message.contains("panic!()"));
}

#[test]
fn body_closed_on_its_first_line_ends_there() {
    let src = "extern \"C\" fn f() {}\nfn g() { x.unwrap(); }";
    assert!(check_callback_body_panics(&c_fn("f", 1), src, "a.rs").is_empty());
}

#[test]
fn body_lines_after_the_opening_one_are_still_checked() {
    let src = "extern \"C\" fn f() {\n    let v = g().unwrap();\n}\nfn h() { y.unwrap(); }\n";
    let r = check_callback_body_panics(&c_fn("f", 1), src, "a.rs");
    assert_eq!(r.iter().map(|i| i.line).collect::<Vec<_>>(), vec![2]);
}

#[test]
fn struct_references_in_c_fields_are_not_definitions() {
    let header = "struct Node { int v; struct Node *next; };\n";
    let structs = parse_c_headers(&vec![SourceFile { path: "n.h".to_string(), text: header.to_string() }]);
    assert_eq!(structs.len(), 1);
    assert_eq!(structs[0].name, "Node");
    assert_eq!(structs[0].fields.len(), 2);
}

#[test]
fn tuple_struct_fields_are_counted() {
    let src = "#[repr(C)]\nstruct ForeignRef(*mut c_void);\n";
    let mut scanner = Scanner::new().expect("rust grammar");
    let info = scanner.parse_file("t.rs", src);
    assert_eq!(info.repr_c_structs.len(), 1);
    let s = &info.repr_c_structs[0];
    assert_eq!(s.name, "ForeignRef");
    assert_eq!(s.field_count, 1);
    let w = check_repr_transparent(s, "t.rs");
    assert_eq!(w.len(), 1);
    assert_eq!(w[0].check, "repr-c-should-be-transparent");
}

#[test]
fn repr_c_must_be_on_the_struct_itself() {
    let src = "#[repr(C)]\nstruct A { x: u8 }\nstruct B { y: u8 }\n#[derive(Debug)]\n// a note\n#[repr(C, packed)]\nstruct D { z: u8 }\n";
    let mut scanner = Scanner::new().expect("rust grammar");
    let info = scanner.parse_file("r.rs", src);
    let names: Vec<&str> = info.repr_c_structs.iter().map(|s| s.name.as_str()).collect();
    assert_eq!(names, vec!["A", "D"]);
}

#[test]
fn drop_impl_is_looked_for() {
    let src = "#[repr(C)]\nstruct Buf { p: *mut u8 }\n\nimpl Drop for Buf {\n    fn drop(&mut self) {}\n}\n\n#[repr(C)]\nstruct Raw { q: *const u8 }\n";
    let mut scanner = Scanner::new().expect("rust grammar");
    let info = scanner.parse_file("d.rs", src);
    assert_eq!(info.repr_c_structs.len(), 2);
    let buf = &info.repr_c_structs[0];
    assert!(buf.has_drop_impl);
    assert!(check_repr_c_missing(buf, "d.rs").iter().all(|i| i.check != "repr-c-no-drop"));
    let raw = &info.repr_c_structs[1];
    assert!(!raw.has_drop_impl);
    assert_eq!(check_repr_c_missing(raw, "d.rs")[0].check, "repr-c-no-drop");
}

#[test]
fn safety_comment_must_stand_directly_above_the_block() {
    let src = "fn f(p: *const u8, q: *const u8) {\n    // SAFETY: p is valid\n    unsafe { *p };\n    unsafe { *q };\n    // note\n    // Safety: q is valid too\n    let v = unsafe { *q };\n}\n";
    let mut scanner = Scanner::new().expect("rust grammar");
    let info = scanner.parse_file("s.rs", src);
    let flags: Vec<bool> = info.unsafe_blocks.iter().map(|b| b.has_safety_comment).collect();
    assert_eq!(flags, vec![true, false, true]);
}

#[test]
fn standalone_extern_fn_is_recorded() {
    let src = "use std::ffi::c_void;\n\n\n\n\n\npub extern \"C\" fn get_buffer(len: usize) -> *mut u8 {\n    std::ptr::null_mut()\n}\n";
    let mut scanner = Scanner::new().expect("rust grammar");
    let info = scanner.parse_file("g.rs", src);
    assert_eq!(info.extern_fns.len(), 1);
    let e = &info.extern_fns[0];
    assert_eq!(e.name, "get_buffer");
    assert_eq!((e.line, e.column), (7, 1));
    assert_eq!(e.abi, "C");
    assert_eq!(e.ret_type, "*mut u8");
    assert_eq!(e.params.len(), 1);
    assert!(!e.is_unsafe);
}

#[test]
fn project_name_comes_from_a_string_package_name() {
    let mut scanner = Scanner::new().expect("rust grammar");
    let none = Vec::new();
    assert_eq!(scanner.scan("/r", "[package]\nname = \"x\"\n", &none).expect("scan").project, "x");
    assert_eq!(scanner.scan("/r", "[package]\nname = 5\n", &none).expect("scan").project, "/r");
    assert_eq!(scanner.scan("/r", "package = \"x\"\n", &none).expect("scan").project, "/r");
    assert_eq!(scanner.scan("/r", "[other]\nname = \"x\"\n", &none).expect("scan").project, "/r");
    assert!(matches!(scanner.scan("/r", "name = ", &none), Err(ScanError::Manifest(_))));
}
