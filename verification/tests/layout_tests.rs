use ffi_guard::checks::repr_c_layout::{c_type_to_rust_info, split_c_field_decl};
use ffi_guard::checks::{check_repr_c_layout, CField, CHeaders, CStruct};
use ffi_guard::report::Severity;
use ffi_guard::scanner::ReprCStruct;

fn cfield(name: &str, ty: &str) -> CField {
    CField { name: name.to_string(), ty: ty.to_string(), is_ptr: ty.contains('*'), is_const: ty.contains("const") }
}

fn cstruct(name: &str, fields: Vec<CField>, line: usize) -> CStruct {
    CStruct { name: name.to_string(), fields, file: "inc/a.h".to_string(), line }
}

fn rstruct(name: &str, fields: &[&str]) -> ReprCStruct {
    ReprCStruct {
        name: name.to_string(),
        line: 3,
        field_count: fields.len(),
        field_names: fields.iter().map(|f| f.to_string()).collect(),
        has_drop_impl: true,
    }
}

#[test]
fn split_field_declarations() {
    assert_eq!(split_c_field_decl("int *data;"), ("data".to_string(), "int *".to_string()));
    assert_eq!(split_c_field_decl("  unsigned   long len ;;"), ("len".to_string(), "unsigned long".to_string()));
    assert_eq!(split_c_field_decl("char **argv"), ("argv".to_string(), "char **".to_string()));
    assert_eq!(split_c_field_decl("int* p;"), ("p".to_string(), "int*".to_string()));
    assert_eq!(split_c_field_decl("x"), ("x".to_string(), String::new()));
    assert_eq!(
        split_c_field_decl("void (*)(int) cb;"),
        (" cb".to_string(), "void (*)(int".to_string())
    );
}

#[test]
fn c_types_map_to_rust_types() {
    assert_eq!(c_type_to_rust_info("int"), ("i32", 4));
    assert_eq!(c_type_to_rust_info("const char"), ("i8", 1));
    assert_eq!(c_type_to_rust_info(" uint64_t "), ("u64", 8));
    assert_eq!(c_type_to_rust_info("size_t"), ("usize", 8));
    assert_eq!(c_type_to_rust_info("double"), ("f64", 8));
    assert_eq!(c_type_to_rust_info("_Bool"), ("bool", 1));
    assert_eq!(c_type_to_rust_info("void"), ("c_void", 0));
    assert_eq!(c_type_to_rust_info("int *"), ("*const/mut T", 8));
    assert_eq!(c_type_to_rust_info("unsigned int"), ("u32", 4));
    assert_eq!(c_type_to_rust_info("unsigned char"), ("u8", 1));
    assert_eq!(c_type_to_rust_info("const unsigned long long"), ("u64", 8));
    assert_eq!(c_type_to_rust_info("struct foo"), ("?", 0));
}

#[test]
fn layout_without_headers_asks_for_them() {
    let rs = vec![rstruct("A", &["x"]), rstruct("B", &[])];
    let issues = check_repr_c_layout(&rs, None, "src/a.rs");
    assert_eq!(issues.len(), 2);
    assert!(issues.iter().all(|i| i.check == "repr-c-no-header" && i.severity == Severity::Info));
    assert_eq!(
        issues[0].message,
        "#[repr(C)] struct `A` has no C header to verify against — pass --headers <dir> to enable layout validation"
    );
}

#[test]
fn layout_reports_order_names_and_unknown_types() {
    let headers = CHeaders {
        dir: "inc".to_string(),
        structs: vec![
            cstruct("Triplet", vec![cfield("x", "int"), cfield("y", "int"), cfield("z", "int")], 2),
            cstruct("Pair", vec![cfield("a", "int"), cfield("c", "struct foo")], 9),
            cstruct("Pair", vec![cfield("a", "int"), cfield("c", "int")], 12),
            cstruct("Lonely", vec![], 20),
        ],
    };
    let rs = vec![rstruct("Triplet", &["z", "x", "y"]), rstruct("Pair", &["a", "b"])];
    let issues = check_repr_c_layout(&rs, Some(&headers), "src/t.rs");
    let checks: Vec<&str> = issues.iter().map(|i| i.check).collect();
    assert_eq!(checks, vec!["repr-c-field-order", "repr-c-field-names", "repr-c-unused-cstruct"]);
    assert_eq!(
        issues[0].message,
        "struct `Triplet` same fields but WRONG ORDER\n    C order:   x, y, z\n    Rust order: z, x, y"
    );
    assert_eq!(issues[0].severity, Severity::Error);
    assert_eq!(issues[0].suggestion.as_deref(), Some("Silent memory corruption at runtime!"));
    assert_eq!(
        issues[1].message,
        "#[repr(C)] struct `Pair` field names partially mismatch C header `inc/a.h:12`\n    C fields:    a, c\n    Rust fields: a, b"
    );
    assert_eq!(issues[2].file, "inc/a.h");
    assert_eq!(issues[2].line, 20);
}

#[test]
fn layout_reports_unknown_c_types() {
    let headers = CHeaders {
        dir: "inc".to_string(),
        structs: vec![cstruct("S", vec![cfield("c", "struct foo")], 4)],
    };
    let issues = check_repr_c_layout(&[rstruct("S", &["c"])], Some(&headers), "src/s.rs");
    assert_eq!(issues.len(), 1);
    assert_eq!(issues[0].check, "repr-c-unknown-ctype");
    assert_eq!(
        issues[0].message,
        "#[repr(C)] struct `S` has a C field `struct foo c` with unrecognized type — verify it maps correctly to a Rust FFI type"
    );
    assert_eq!(
        issues[0].suggestion.as_deref(),
        Some("Map `struct foo` to an explicit Rust FFI type, e.g. use `?` from std::os::raw.")
    );
}
