//! `check_repr_c_layout` — verify #[repr(C)] Rust struct layout against C headers.
//!
//! C header texts are parsed with tree-sitter-c, their struct definitions
//! extracted, and the field counts, names and types compared with the Rust side.

use crate::report::{issue_views, new_issue, opt_seq, Issue, IssueView, Severity};
use crate::scanner::{ReprCStruct, SourceFile, children_in, string_views};
use crate::syntax::{
    c_syntax, flat_tree, node_text, node_views, node_wf, nodes_wf, parse_c, CParser,
    syntax_tree_of, text_of, SyntaxNode, SyntaxTree,
};
use crate::text::{
    decimal, push_decimal, chars_eq_str, chars_to_string, contains_seq, contains_str, join, join_chars, replace_all,
    replace_str, split_words, starts_with_seq, starts_with_str, to_chars, trim, trim_chars, views,
    words,
};
use vstd::prelude::*;
use vstd::string::StringSliceAdditionalSpecFns;
use vstd::utf8::encode_utf8;

verus! {

/// The content of a [`CField`].
pub struct CFieldView {
    pub name: Seq<char>,
    pub ty: Seq<char>,
    pub is_ptr: bool,
    pub is_const: bool,
}

/// A C struct field extracted from a header.
#[derive(Debug, Clone)]
pub struct CField {
    pub name: String,
    pub ty: String,
    pub is_ptr: bool,
    pub is_const: bool,
}

impl View for CField {
    type V = CFieldView;

    open spec fn view(&self) -> CFieldView {
        CFieldView { name: self.name@, ty: self.ty@, is_ptr: self.is_ptr, is_const: self.is_const }
    }
}

/// The content of a [`CStruct`].
pub struct CStructView {
    pub name: Seq<char>,
    pub fields: Seq<CFieldView>,
    pub file: Seq<char>,
    pub line: usize,
}

/// A C struct definition extracted from a header.
#[derive(Debug, Clone)]
pub struct CStruct {
    pub name: String,
    pub fields: Vec<CField>,
    pub file: String,
    pub line: usize,
}

impl View for CStruct {
    type V = CStructView;

    open spec fn view(&self) -> CStructView {
        CStructView {
            name: self.name@,
            fields: self.fields@.map_values(|f: CField| f@),
            file: self.file@,
            line: self.line,
        }
    }
}

// ---------------------------------------------------------------------------
// Field declarations and C types
// ---------------------------------------------------------------------------

/// `s` without its trailing semicolons (`trim_end_matches(';')`).
pub open spec fn strip_semicolons(s: Seq<char>) -> Seq<char>
    decreases s.len(),
{
    if s.len() > 0 && s.last() == ';' {
        strip_semicolons(s.drop_last())
    } else {
        s
    }
}

/// The position of the last `c` in `s`, or -1.
pub open spec fn last_index_of(s: Seq<char>, c: char) -> int
    decreases s.len(),
{
    if s.len() == 0 {
        -1
    } else if s.last() == c {
        s.len() - 1
    } else {
        last_index_of(s.drop_last(), c)
    }
}

/// The number of `*` at the start of `s`.
pub open spec fn leading_stars(s: Seq<char>) -> nat
    decreases s.len(),
{
    if s.len() > 0 && s[0] == '*' {
        1 + leading_stars(s.drop_first())
    } else {
        0
    }
}

/// The (name, type) split of a C field declaration: trimmed and without
/// trailing semicolons; a function pointer (`(*)`) splits at its last `)`,
/// the part after it first; otherwise the last word, without the `*`s that
/// open it, is the name, and the other words, joined by single spaces and
/// followed by those `*`s after a space, the type (`int *data` gives `data`
/// and `int *`); a single word is the name alone.
pub open spec fn split_c_field(decl: Seq<char>) -> (Seq<char>, Seq<char>) {
    let d = strip_semicolons(trim(decl));
    let p = last_index_of(d, ')');
    if contains_seq(d, "(*)"@) && p >= 0 {
        (d.skip(p + 1), d.take(p))
    } else {
        let ws = words(d);
        if ws.len() >= 2 {
            let last = ws.last();
            let k = leading_stars(last);
            let base = join(ws.drop_last(), " "@);
            (last.skip(k as int), if k > 0 {
                base + seq![' '] + last.take(k as int)
            } else {
                base
            })
        } else {
            (d, seq![])
        }
    }
}

proof fn lemma_leading_stars_is(s: Seq<char>, k: int)
    requires
        0 <= k <= s.len(),
        k < s.len() ==> s[k] != '*',
        forall|j: int| 0 <= j < k ==> s[j] == '*',
    ensures
        leading_stars(s) == k,
    decreases s.len(),
{
    if s.len() > 0 && k > 0 {
        assert forall|j: int| 0 <= j < k - 1 implies s.drop_first()[j] == '*' by {
            assert(s.drop_first()[j] == s[j + 1]);
        }
        lemma_leading_stars_is(s.drop_first(), k - 1);
    }
}

proof fn lemma_last_index_of_bounds(s: Seq<char>, c: char)
    ensures
        -1 <= last_index_of(s, c) < s.len(),
        last_index_of(s, c) >= 0 ==> s[last_index_of(s, c)] == c,
    decreases s.len(),
{
    if s.len() > 0 && s.last() != c {
        lemma_last_index_of_bounds(s.drop_last(), c);
    }
}

/// Split a C field declaration like "int *data" into ("data", "int *").
pub fn split_c_field_decl(decl: &str) -> (r: (String, String))
    ensures
        (r.0@, r.1@) == split_c_field(decl@),
{
    let t = trim_chars(&to_chars(decl));
    let mut end = t.len();
    assert(t@.take(end as int) =~= t@);
    while end > 0 && t[end - 1] == ';'
        invariant
            0 <= end <= t@.len(),
            strip_semicolons(t@) == strip_semicolons(t@.take(end as int)),
        decreases end,
    {
        assert(t@.take(end as int).drop_last() =~= t@.take(end - 1));
        end -= 1;
    }
    let d = crate::text::slice_chars(&t, 0, end);
    assert(d@ =~= t@.take(end as int));
    assert(strip_semicolons(d@) == d@);
    let mut p: usize = d.len();
    assert(d@.take(p as int) =~= d@);
    while p > 0 && d[p - 1] != ')'
        invariant
            0 <= p <= d@.len(),
            last_index_of(d@, ')') == last_index_of(d@.take(p as int), ')'),
        decreases p,
    {
        assert(d@.take(p as int).drop_last() =~= d@.take(p - 1));
        p -= 1;
    }
    proof {
        if p == 0 {
            assert(d@.take(0) =~= Seq::<char>::empty());
        } else {
            assert(d@.take(p as int).last() == ')');
        }
    }
    if contains_str(&d, "(*)") && p > 0 {
        let after = crate::text::slice_chars(&d, p, d.len());
        let before = crate::text::slice_chars(&d, 0, p - 1);
        assert(after@ =~= d@.skip(p as int));
        assert(before@ =~= d@.take(p - 1));
        return (chars_to_string(&after), chars_to_string(&before));
    }
    let ws = split_words(&d);
    if ws.len() >= 2 {
        let last = &ws[ws.len() - 1];
        let mut k: usize = 0;
        while k < last.len() && last[k] == '*'
            invariant
                0 <= k <= last@.len(),
                forall|j: int| 0 <= j < k ==> last@[j] == '*',
            decreases last.len() - k,
        {
            k += 1;
        }
        proof {
            lemma_leading_stars_is(last@, k as int);
        }
        let name = chars_to_string(&crate::text::slice_chars(last, k, last.len()));
        let mut ty = join_chars(&ws, ws.len() - 1, " ");
        assert(views(ws@.take(ws.len() - 1)) =~= views(ws@).drop_last());
        if k > 0 {
            let ghost base = ty@;
            ty.push(' ');
            let mut j: usize = 0;
            while j < k
                invariant
                    0 <= j <= k <= last@.len(),
                    ty@ == base + seq![' '] + last@.take(j as int),
                decreases k - j,
            {
                ty.push(last[j]);
                assert(last@.take(j + 1) =~= last@.take(j as int).push(last@[j as int]));
                j += 1;
            }
        }
        let ty = chars_to_string(&ty);
        assert(name@ =~= views(ws@).last().skip(k as int));
        (name, ty)
    } else {
        (chars_to_string(&d), String::new())
    }
}

/// A C type with `const ` removed and trimmed.
pub open spec fn normalize_c_type(ty: Seq<char>) -> Seq<char> {
    trim(replace_all(ty, "const "@, ""@))
}

/// The Rust FFI type and size in bytes that a C type maps to; `?` and 0 for
/// an unrecognised type, a pointer-sized entry for anything with a `*`.
pub open spec fn c_type_info(ty: Seq<char>) -> (Seq<char>, usize) {
    let n = normalize_c_type(ty);
    if n == "char"@ || n == "signed char"@ {
        ("i8"@, 1)
    } else if n == "u8"@ || n == "uint8_t"@ || n == "unsigned char"@ {
        ("u8"@, 1)
    } else if n == "short"@ || n == "i16"@ || n == "int16_t"@ || n == "short int"@ {
        ("i16"@, 2)
    } else if n == "u16"@ || n == "uint16_t"@ || n == "unsigned short"@ || n
        == "unsigned short int"@ {
        ("u16"@, 2)
    } else if n == "int"@ || n == "i32"@ || n == "int32_t"@ || n == "long"@ {
        ("i32"@, 4)
    } else if n == "u32"@ || n == "uint32_t"@ || n == "unsigned int"@ || n == "unsigned long"@ {
        ("u32"@, 4)
    } else if n == "long long"@ || n == "i64"@ || n == "int64_t"@ || n == "long long int"@ {
        ("i64"@, 8)
    } else if n == "u64"@ || n == "uint64_t"@ || n == "unsigned long long"@ || n
        == "unsigned long long int"@ {
        ("u64"@, 8)
    } else if n == "float"@ {
        ("f32"@, 4)
    } else if n == "double"@ {
        ("f64"@, 8)
    } else if n == "size_t"@ || n == "uintptr_t"@ {
        ("usize"@, 8)
    } else if n == "ssize_t"@ || n == "intptr_t"@ || n == "ptrdiff_t"@ {
        ("isize"@, 8)
    } else if n == "bool"@ || n == "_Bool"@ {
        ("bool"@, 1)
    } else if n == "void"@ {
        ("c_void"@, 0)
    } else if starts_with_seq(n, "*"@) || contains_seq(n, "*"@) {
        ("*const/mut T"@, 8)
    } else {
        ("?"@, 0)
    }
}

/// Map C primitive types to expected Rust FFI types and sizes.
pub fn c_type_to_rust_info(ty: &str) -> (r: (&'static str, usize))
    ensures
        (r.0@, r.1) == c_type_info(ty@),
{
    proof {
        reveal_strlit("const ");
    }
    let chars = to_chars(ty);
    let n = trim_chars(&replace_str(&chars, "const ", ""));
    if chars_eq_str(&n, "char") || chars_eq_str(&n, "signed char") {
        ("i8", 1)
    } else if chars_eq_str(&n, "u8") || chars_eq_str(&n, "uint8_t") || chars_eq_str(
        &n,
        "unsigned char",
    ) {
        ("u8", 1)
    } else if chars_eq_str(&n, "short") || chars_eq_str(&n, "i16") || chars_eq_str(&n, "int16_t")
        || chars_eq_str(&n, "short int") {
        ("i16", 2)
    } else if chars_eq_str(&n, "u16") || chars_eq_str(&n, "uint16_t") || chars_eq_str(
        &n,
        "unsigned short",
    ) || chars_eq_str(&n, "unsigned short int") {
        ("u16", 2)
    } else if chars_eq_str(&n, "int") || chars_eq_str(&n, "i32") || chars_eq_str(&n, "int32_t")
        || chars_eq_str(&n, "long") {
        ("i32", 4)
    } else if chars_eq_str(&n, "u32") || chars_eq_str(&n, "uint32_t") || chars_eq_str(
        &n,
        "unsigned int",
    ) || chars_eq_str(&n, "unsigned long") {
        ("u32", 4)
    } else if chars_eq_str(&n, "long long") || chars_eq_str(&n, "i64") || chars_eq_str(
        &n,
        "int64_t",
    ) || chars_eq_str(&n, "long long int") {
        ("i64", 8)
    } else if chars_eq_str(&n, "u64") || chars_eq_str(&n, "uint64_t") || chars_eq_str(
        &n,
        "unsigned long long",
    ) || chars_eq_str(&n, "unsigned long long int") {
        ("u64", 8)
    } else if chars_eq_str(&n, "float") {
        ("f32", 4)
    } else if chars_eq_str(&n, "double") {
        ("f64", 8)
    } else if chars_eq_str(&n, "size_t") || chars_eq_str(&n, "uintptr_t") {
        ("usize", 8)
    } else if chars_eq_str(&n, "ssize_t") || chars_eq_str(&n, "intptr_t") || chars_eq_str(
        &n,
        "ptrdiff_t",
    ) {
        ("isize", 8)
    } else if chars_eq_str(&n, "bool") || chars_eq_str(&n, "_Bool") {
        ("bool", 1)
    } else if chars_eq_str(&n, "void") {
        ("c_void", 0)
    } else if starts_with_str(&n, "*") || contains_str(&n, "*") {
        ("*const/mut T", 8)
    } else {
        ("?", 0)
    }
}

// ---------------------------------------------------------------------------
// Struct definitions in C syntax trees
// ---------------------------------------------------------------------------

/// The field declared by the `field_declaration` at node `c`.
pub open spec fn c_field_at(ns: Seq<SyntaxNode>, src: Seq<u8>, c: int) -> CFieldView {
    let (name, ty) = split_c_field(node_text(src, ns[c]));
    CFieldView {
        name: name,
        ty: ty,
        is_ptr: contains_seq(ty, "*"@),
        is_const: contains_seq(ty, "const"@),
    }
}

/// The fields declared among the nodes `cs` of a field declaration list.
pub open spec fn c_fields_of(ns: Seq<SyntaxNode>, src: Seq<u8>, cs: Seq<usize>) -> Seq<CFieldView>
    decreases cs.len(),
{
    if cs.len() == 0 {
        seq![]
    } else {
        c_fields_of(ns, src, cs.drop_last()) + if ns[cs.last() as int].kind@
            == "field_declaration"@ {
            seq![c_field_at(ns, src, cs.last() as int)]
        } else {
            seq![]
        }
    }
}

/// The last of the nodes `cs` whose kind is `k`.
pub open spec fn last_of_kind(ns: Seq<SyntaxNode>, cs: Seq<usize>, k: Seq<char>) -> Option<usize>
    decreases cs.len(),
{
    if cs.len() == 0 {
        None
    } else if ns[cs.last() as int].kind@ == k {
        Some(cs.last())
    } else {
        last_of_kind(ns, cs.drop_last(), k)
    }
}

/// The fields of the last field declaration list among `cs`, or `prev` if there is none.
pub open spec fn fields_of_last_list(
    ns: Seq<SyntaxNode>,
    src: Seq<u8>,
    cs: Seq<usize>,
    prev: Seq<CFieldView>,
) -> Seq<CFieldView> {
    match last_of_kind(ns, cs, "field_declaration_list"@) {
        Some(f) => c_fields_of(ns, src, ns[f as int].children@),
        None => prev,
    }
}

/// What the children of a `type_definition` give: whether one is a struct
/// specifier, the typedef name (the text of the last `type_identifier`), and
/// the fields of the last field list found inside the struct specifiers.
pub struct TypedefScan {
    pub has_struct: bool,
    pub name: Seq<char>,
    pub fields: Seq<CFieldView>,
}

/// The scan of the children `cs` of a `type_definition`.
pub open spec fn typedef_scan(ns: Seq<SyntaxNode>, src: Seq<u8>, cs: Seq<usize>) -> TypedefScan
    decreases cs.len(),
{
    if cs.len() == 0 {
        TypedefScan { has_struct: false, name: seq![], fields: seq![] }
    } else {
        let prev = typedef_scan(ns, src, cs.drop_last());
        let c = ns[cs.last() as int];
        if c.kind@ == "struct_specifier"@ {
            TypedefScan {
                has_struct: true,
                fields: fields_of_last_list(ns, src, c.children@, prev.fields),
                ..prev
            }
        } else if c.kind@ == "type_identifier"@ {
            TypedefScan { name: node_text(src, c), ..prev }
        } else {
            prev
        }
    }
}

/// Node `x` is `typedef struct { ... } Name;` with a name: it gives a struct
/// and nothing inside it is searched further.
pub open spec fn is_struct_typedef(ns: Seq<SyntaxNode>, src: Seq<u8>, x: int) -> bool {
    let scan = typedef_scan(ns, src, ns[x].children@);
    ns[x].kind@ == "type_definition"@ && scan.has_struct && scan.name.len() > 0
}

/// Node `i` is searched: no node above it is a named struct typedef.
pub open spec fn c_node_searched(ns: Seq<SyntaxNode>, src: Seq<u8>, i: int) -> bool
    decreases i,
{
    if i < 0 {
        true
    } else {
        match ns[i].parent {
            Some(p) => if p < i {
                c_node_searched(ns, src, p as int) && !is_struct_typedef(ns, src, p as int)
            } else {
                true
            },
            None => true,
        }
    }
}

/// The name of a `struct Name { ... }` specifier: the text of the first
/// `type_identifier` met while no name is known.
pub open spec fn struct_spec_name(ns: Seq<SyntaxNode>, src: Seq<u8>, cs: Seq<usize>) -> Seq<char>
    decreases cs.len(),
{
    if cs.len() == 0 {
        seq![]
    } else {
        let prev = struct_spec_name(ns, src, cs.drop_last());
        let c = ns[cs.last() as int];
        if c.kind@ == "type_identifier"@ && prev.len() == 0 {
            node_text(src, c)
        } else {
            prev
        }
    }
}

/// The C struct that node `i` of a header at `file` defines, if it is searched
/// and is a named struct typedef or a named struct specifier with a field list
/// (a definition, not a reference such as `struct Node *next`).
pub open spec fn c_struct_at(ns: Seq<SyntaxNode>, src: Seq<u8>, file: Seq<char>, i: int) -> Option<
    CStructView,
> {
    let n = ns[i];
    if !c_node_searched(ns, src, i) {
        None
    } else if is_struct_typedef(ns, src, i) {
        let scan = typedef_scan(ns, src, n.children@);
        Some(
            CStructView {
                name: scan.name,
                fields: scan.fields,
                file: file,
                line: (n.start_row + 1) as usize,
            },
        )
    } else if n.kind@ == "struct_specifier"@ && struct_spec_name(ns, src, n.children@).len() > 0
        && last_of_kind(ns, n.children@, "field_declaration_list"@) is Some {
        Some(
            CStructView {
                name: struct_spec_name(ns, src, n.children@),
                fields: fields_of_last_list(ns, src, n.children@, seq![]),
                file: file,
                line: (n.start_row + 1) as usize,
            },
        )
    } else {
        None
    }
}

/// The C structs defined among the first `k` nodes, in order.
pub open spec fn c_structs_upto(ns: Seq<SyntaxNode>, src: Seq<u8>, file: Seq<char>, k: nat) -> Seq<
    CStructView,
>
    decreases k,
{
    if k == 0 {
        seq![]
    } else {
        c_structs_upto(ns, src, file, (k - 1) as nat) + opt_seq(c_struct_at(ns, src, file, k - 1))
    }
}

/// The views of a sequence of C structs.
pub open spec fn c_struct_views(v: Seq<CStruct>) -> Seq<CStructView> {
    v.map_values(|s: CStruct| s@)
}

/// The fields declared among the children `cs` of a field declaration list.
fn parse_c_field_list(nodes: &Vec<SyntaxNode>, src: &[u8], cs: &Vec<usize>) -> (r: Vec<CField>)
    requires
        nodes_wf(nodes@, src@.len()),
        children_in(nodes@, cs@),
    ensures
        r@.map_values(|f: CField| f@) == c_fields_of(nodes@, src@, cs@),
{
    let mut fields: Vec<CField> = Vec::new();
    let mut j: usize = 0;
    while j < cs.len()
        invariant
            nodes_wf(nodes@, src@.len()),
            children_in(nodes@, cs@),
            0 <= j <= cs.len(),
            fields@.map_values(|f: CField| f@) == c_fields_of(nodes@, src@, cs@.take(j as int)),
        decreases cs.len() - j,
    {
        let c = cs[j];
        assert(cs@.take(j + 1).drop_last() =~= cs@.take(j as int));
        assert(cs@.take(j + 1).last() == c);
        proof {
            assert(node_wf(nodes@[c as int], c as int, nodes@.len(), src@.len()));
        }
        let ghost before = fields@;
        if crate::text::str_eq(nodes[c].kind.as_str(), "field_declaration") {
            let text = text_of(src, &nodes[c]);
            let (name, ty) = split_c_field_decl(text.as_str());
            let tc = to_chars(ty.as_str());
            let is_ptr = contains_str(&tc, "*");
            let is_const = contains_str(&tc, "const");
            fields.push(CField { name, ty, is_ptr, is_const });
            assert(fields@.map_values(|f: CField| f@) =~= before.map_values(|f: CField| f@)
                + seq![c_field_at(nodes@, src@, c as int)]);
        } else {
            assert(fields@.map_values(|f: CField| f@) =~= before.map_values(|f: CField| f@)
                + Seq::<CFieldView>::empty());
        }
        j += 1;
    }
    assert(cs@.take(cs.len() as int) =~= cs@);
    fields
}

/// The fields of the last field declaration list among the children `cs`, if any.
fn fields_of_last_field_list(nodes: &Vec<SyntaxNode>, src: &[u8], cs: &Vec<usize>) -> (r: Option<
    Vec<CField>,
>)
    requires
        nodes_wf(nodes@, src@.len()),
        children_in(nodes@, cs@),
    ensures
        match r {
            Some(fs) => fields_of_last_list(nodes@, src@, cs@, seq![]) == fs@.map_values(
                |f: CField| f@,
            ) && last_of_kind(nodes@, cs@, "field_declaration_list"@) is Some,
            None => last_of_kind(nodes@, cs@, "field_declaration_list"@) is None,
        },
{
    let mut k: usize = cs.len();
    assert(cs@.take(k as int) =~= cs@);
    while k > 0
        invariant
            nodes_wf(nodes@, src@.len()),
            children_in(nodes@, cs@),
            0 <= k <= cs.len(),
            last_of_kind(nodes@, cs@, "field_declaration_list"@) == last_of_kind(
                nodes@,
                cs@.take(k as int),
                "field_declaration_list"@,
            ),
        decreases k,
    {
        let c = cs[k - 1];
        assert(cs@.take(k as int).last() == c);
        assert(cs@.take(k as int).drop_last() =~= cs@.take(k - 1));
        if crate::text::str_eq(nodes[c].kind.as_str(), "field_declaration_list") {
            proof {
                assert(node_wf(nodes@[c as int], c as int, nodes@.len(), src@.len()));
            }
            return Some(parse_c_field_list(nodes, src, &nodes[c].children));
        }
        k -= 1;
    }
    None
}

/// The typedef scan of the children `cs` of a `type_definition`.
fn scan_typedef(nodes: &Vec<SyntaxNode>, src: &[u8], cs: &Vec<usize>) -> (r: (bool, String, Vec<CField>))
    requires
        nodes_wf(nodes@, src@.len()),
        children_in(nodes@, cs@),
    ensures
        ({
            let scan = typedef_scan(nodes@, src@, cs@);
            &&& r.0 == scan.has_struct
            &&& r.1@ == scan.name
            &&& r.2@.map_values(|f: CField| f@) == scan.fields
        }),
{
    let mut has_struct = false;
    let mut name = String::new();
    let mut fields: Vec<CField> = Vec::new();
    let mut j: usize = 0;
    while j < cs.len()
        invariant
            nodes_wf(nodes@, src@.len()),
            children_in(nodes@, cs@),
            0 <= j <= cs.len(),
            ({
                let scan = typedef_scan(nodes@, src@, cs@.take(j as int));
                &&& has_struct == scan.has_struct
                &&& name@ == scan.name
                &&& fields@.map_values(|f: CField| f@) == scan.fields
            }),
        decreases cs.len() - j,
    {
        let c = cs[j];
        assert(cs@.take(j + 1).drop_last() =~= cs@.take(j as int));
        assert(cs@.take(j + 1).last() == c);
        proof {
            assert(node_wf(nodes@[c as int], c as int, nodes@.len(), src@.len()));
        }
        let kind = nodes[c].kind.as_str();
        if crate::text::str_eq(kind, "struct_specifier") {
            has_struct = true;
            match fields_of_last_field_list(nodes, src, &nodes[c].children) {
                Some(fs) => {
                    fields = fs;
                },
                None => {},
            }
        } else if crate::text::str_eq(kind, "type_identifier") {
            name = text_of(src, &nodes[c]);
        }
        j += 1;
    }
    assert(cs@.take(cs.len() as int) =~= cs@);
    (has_struct, name, fields)
}

/// The name of a struct specifier with children `cs`.
fn scan_struct_spec_name(nodes: &Vec<SyntaxNode>, src: &[u8], cs: &Vec<usize>) -> (r: String)
    requires
        nodes_wf(nodes@, src@.len()),
        children_in(nodes@, cs@),
    ensures
        r@ == struct_spec_name(nodes@, src@, cs@),
{
    let mut name = String::new();
    let mut j: usize = 0;
    while j < cs.len()
        invariant
            nodes_wf(nodes@, src@.len()),
            children_in(nodes@, cs@),
            0 <= j <= cs.len(),
            name@ == struct_spec_name(nodes@, src@, cs@.take(j as int)),
        decreases cs.len() - j,
    {
        let c = cs[j];
        assert(cs@.take(j + 1).drop_last() =~= cs@.take(j as int));
        assert(cs@.take(j + 1).last() == c);
        proof {
            assert(node_wf(nodes@[c as int], c as int, nodes@.len(), src@.len()));
        }
        if crate::text::str_eq(nodes[c].kind.as_str(), "type_identifier") && name.as_str().is_empty() {
            name = text_of(src, &nodes[c]);
        }
        j += 1;
    }
    assert(cs@.take(cs.len() as int) =~= cs@);
    name
}

proof fn lemma_c_kinds_distinct()
    ensures
        "type_definition"@ != "struct_specifier"@,
{
    reveal_strlit("type_definition");
    reveal_strlit("struct_specifier");
    assert("type_definition"@.len() == 15);
    assert("struct_specifier"@.len() == 16);
}

/// The struct definitions of the C header at `file` with text bytes `src` and
/// syntax tree `tree`, in the order of the tree.
pub fn extract_c_structs(tree: &SyntaxTree, src: &[u8], file: &str) -> (r: Vec<CStruct>)
    requires
        tree.wf(src@.len()),
    ensures
        c_struct_views(r@) == c_structs_upto(tree.nodes@, src@, file@, tree.nodes@.len()),
{
    let nodes = &tree.nodes;
    let mut structs: Vec<CStruct> = Vec::new();
    let mut searched: Vec<bool> = Vec::new();
    let mut typedef_struct: Vec<bool> = Vec::new();
    let mut i: usize = 0;
    while i < nodes.len()
        invariant
            nodes_wf(nodes@, src@.len()),
            0 <= i <= nodes.len(),
            searched@.len() == i,
            typedef_struct@.len() == i,
            forall|j: int| 0 <= j < i ==> #[trigger] searched@[j] == c_node_searched(nodes@, src@, j),
            forall|j: int|
                0 <= j < i ==> #[trigger] typedef_struct@[j] == is_struct_typedef(nodes@, src@, j),
            c_struct_views(structs@) == c_structs_upto(nodes@, src@, file@, i as nat),
        decreases nodes.len() - i,
    {
        proof {
            assert(node_wf(nodes@[i as int], i as int, nodes@.len(), src@.len()));
            lemma_c_kinds_distinct();
        }
        let node = &nodes[i];
        let is_searched = match node.parent {
            Some(p) => searched[p] && !typedef_struct[p],
            None => true,
        };
        let kind = node.kind.as_str();
        let (is_typedef, scan) = if crate::text::str_eq(kind, "type_definition") {
            let (has_struct, name, fields) = scan_typedef(nodes, src, &node.children);
            (has_struct && !name.as_str().is_empty(), Some((name, fields)))
        } else {
            (false, None)
        };
        let ghost before = structs@;
        if is_searched {
            if is_typedef {
                match scan {
                    Some((name, fields)) => {
                        structs.push(
                            CStruct { name, fields, file: file.to_owned(), line: node.start_row + 1 },
                        );
                    },
                    None => {},
                }
            } else if crate::text::str_eq(kind, "struct_specifier") {
                let name = scan_struct_spec_name(nodes, src, &node.children);
                if !name.as_str().is_empty() {
                    match fields_of_last_field_list(nodes, src, &node.children) {
                        Some(fields) => {
                            assert(fields@.map_values(|f: CField| f@) =~= fields_of_last_list(
                                nodes@,
                                src@,
                                node.children@,
                                seq![],
                            ));
                            structs.push(
                                CStruct { name, fields, file: file.to_owned(), line: node.start_row + 1 },
                            );
                        },
                        None => {},
                    }
                }
            }
        }
        assert(c_struct_views(structs@) =~= c_struct_views(before) + opt_seq(
            c_struct_at(nodes@, src@, file@, i as int),
        ));
        searched.push(is_searched);
        typedef_struct.push(is_typedef);
        i += 1;
    }
    structs
}

proof fn lemma_c_structs_file(ns: Seq<SyntaxNode>, src: Seq<u8>, file: Seq<char>, k: nat)
    ensures
        forall|m: int|
            0 <= m < c_structs_upto(ns, src, file, k).len() ==> (#[trigger] c_structs_upto(
                ns,
                src,
                file,
                k,
            )[m]).file == file,
    decreases k,
{
    if k > 0 {
        lemma_c_structs_file(ns, src, file, (k - 1) as nat);
        let prev = c_structs_upto(ns, src, file, (k - 1) as nat);
        let last = opt_seq(c_struct_at(ns, src, file, k - 1));
        assert forall|m: int| 0 <= m < c_structs_upto(ns, src, file, k).len() implies (
        #[trigger] c_structs_upto(ns, src, file, k)[m]).file == file by {
            if m >= prev.len() {
                assert(c_structs_upto(ns, src, file, k)[m] == last[m - prev.len()]);
            } else {
                assert(c_structs_upto(ns, src, file, k)[m] == prev[m]);
            }
        }
    }
}

/// `s` was found in one of `files`.
pub open spec fn is_from_files(s: CStruct, files: Seq<SourceFile>) -> bool {
    exists|j: int| 0 <= j < files.len() && s.file@ == (#[trigger] files[j]).path@
}

/// Every struct of `structs` was found in one of `files`.
pub open spec fn structs_from_files(structs: Seq<CStruct>, files: Seq<SourceFile>) -> bool {
    forall|k: int| 0 <= k < structs.len() ==> is_from_files(#[trigger] structs[k], files)
}

/// The struct definitions of the first `k` headers, one part per header, in order.
pub open spec fn concat_upto(parts: Seq<Seq<CStructView>>, k: nat) -> Seq<CStructView>
    decreases k,
{
    if k == 0 {
        seq![]
    } else {
        concat_upto(parts, (k - 1) as nat) + parts[k - 1]
    }
}

/// `part` is what parsing the header `file` gives: the struct definitions read
/// out of the syntax tree that tree-sitter-c parses from its text. (They read
/// only the contents of the nodes, so every tree with those contents gives
/// the same structs.)
pub open spec fn header_structs(part: Seq<CStructView>, file: SourceFile) -> bool {
    exists|t: SyntaxTree|
        t.wf(encode_utf8(file.text@).len()) && node_views(t.nodes@) == flat_tree(
            c_syntax(file.text@),
            encode_utf8(file.text@).len() as usize,
        ) && part == c_structs_upto(t.nodes@, encode_utf8(file.text@), file.path@, t.nodes@.len())
}

/// The struct definitions of the given C headers, parsed with tree-sitter-c,
/// in the order of the files.
pub fn parse_c_headers(files: &Vec<SourceFile>) -> (r: Vec<CStruct>)
    ensures
        structs_from_files(r@, files@),
        exists|parts: Seq<Seq<CStructView>>|
            parts.len() == files@.len() && (forall|k: int|
                0 <= k < parts.len() ==> header_structs(#[trigger] parts[k], files@[k]))
                && #[trigger] c_struct_views(r@) == concat_upto(parts, parts.len()),
{
    let mut structs: Vec<CStruct> = Vec::new();
    let mut parser = match CParser::new() {
        Ok(p) => p,
        Err(_) => return structs,
    };
    let ghost mut parts: Seq<Seq<CStructView>> = seq![];
    let mut i: usize = 0;
    while i < files.len()
        invariant
            0 <= i <= files.len(),
            structs_from_files(structs@, files@),
            parts.len() == i,
            forall|k: int| 0 <= k < i ==> header_structs(#[trigger] parts[k], files@[k]),
            c_struct_views(structs@) == concat_upto(parts, i as nat),
        decreases files.len() - i,
    {
        let file = &files[i];
        let text = file.text.as_str();
        let ghost before_parts = parts;
        match parse_c(&mut parser, text) {
            Some(ts_tree) => {
                let src = text.as_bytes();
                let tree = syntax_tree_of(&ts_tree, text.len());
                let mut found = extract_c_structs(&tree, src, file.path.as_str());
                proof {
                    lemma_c_structs_file(tree.nodes@, src@, file.path@, tree.nodes@.len());
                    assert forall|m: int| 0 <= m < found@.len() implies (#[trigger] found@[m]).file@
                        == files@[i as int].path@ by {
                        assert(c_struct_views(found@)[m] == found@[m]@);
                    }
                    assert(text@ == file.text@);
                    assert(src@ == encode_utf8(file.text@));
                    assert(tree.wf(encode_utf8(file.text@).len()));
                    assert(c_struct_views(found@) == c_structs_upto(
                        tree.nodes@,
                        encode_utf8(file.text@),
                        file.path@,
                        tree.nodes@.len(),
                    ));
                    assert(node_views(tree.nodes@) == flat_tree(
                        c_syntax(file.text@),
                        encode_utf8(file.text@).len() as usize,
                    ));
                    assert(header_structs(c_struct_views(found@), files@[i as int]));
                }
                let ghost before = structs@;
                let ghost added = found@;
                structs.append(&mut found);
                assert forall|m: int| 0 <= m < structs@.len() implies is_from_files(
                    #[trigger] structs@[m],
                    files@,
                ) by {
                    if m >= before.len() {
                        assert(structs@[m] == added[m - before.len()]);
                    } else {
                        assert(structs@[m] == before[m]);
                    }
                }
                proof {
                    parts = parts.push(c_struct_views(added));
                    assert(c_struct_views(structs@) =~= c_struct_views(before) + c_struct_views(added));
                }
            },
            None => {
                proof {
                    parts = parts.push(Seq::<CStructView>::empty());
                    assert(c_struct_views(structs@) =~= concat_upto(before_parts, i as nat)
                        + Seq::<CStructView>::empty());
                }
            },
        }
        assert forall|k: int| 0 <= k <= i implies header_structs(#[trigger] parts[k], files@[k]) by {
            if k < i {
                assert(parts[k] == before_parts[k]);
            }
        }
        assert(concat_upto(parts, i as nat) == concat_upto(before_parts, i as nat)) by {
            lemma_concat_prefix(before_parts, parts, i as nat);
        }
        i += 1;
    }
    structs
}

/// `concat_upto` reads only the parts it adds up.
proof fn lemma_concat_prefix(a: Seq<Seq<CStructView>>, b: Seq<Seq<CStructView>>, k: nat)
    requires
        k <= a.len(),
        k <= b.len(),
        forall|j: int| 0 <= j < k ==> a[j] == b[j],
    ensures
        concat_upto(a, k) == concat_upto(b, k),
    decreases k,
{
    if k > 0 {
        lemma_concat_prefix(a, b, (k - 1) as nat);
    }
}

// ---------------------------------------------------------------------------
// Comparing Rust structs with C structs
// ---------------------------------------------------------------------------

/// The C structs found under a header directory, and how that directory is shown.
#[derive(Debug, Clone)]
pub struct CHeaders {
    pub dir: String,
    pub structs: Vec<CStruct>,
}

/// The position of the last of the first `k` structs of `cs` named `name`.
pub open spec fn last_named(cs: Seq<CStruct>, name: Seq<char>, k: nat) -> Option<int>
    decreases k,
{
    if k == 0 {
        None
    } else if cs[k - 1].name@ == name {
        Some(k - 1)
    } else {
        last_named(cs, name, (k - 1) as nat)
    }
}

/// The `repr-c-no-header` finding for `rs`.
pub open spec fn no_header_issue(rs: ReprCStruct, file: Seq<char>) -> IssueView {
    IssueView {
        severity: Severity::Info,
        check: "repr-c-no-header"@,
        file: file,
        line: rs.line,
        column: 1,
        message: "#[repr(C)] struct `"@ + rs.name@ + "` has no C header to verify against — \
                         pass --headers <dir> to enable layout validation"@,
        suggestion: Some(
            "Use --headers to specify the directory containing your C header files."@,
        ),
    }
}

/// The `repr-c-no-header` findings for the first `k` structs.
pub open spec fn no_header_upto(rss: Seq<ReprCStruct>, k: nat, file: Seq<char>) -> Seq<IssueView>
    decreases k,
{
    if k == 0 {
        seq![]
    } else {
        no_header_upto(rss, (k - 1) as nat, file) + seq![no_header_issue(rss[k - 1], file)]
    }
}

/// The `repr-c-field-count` finding, when the field counts differ.
pub open spec fn field_count_issue(rs: ReprCStruct, cs: CStruct, file: Seq<char>) -> Option<IssueView> {
    if rs.field_count != cs.fields@.len() {
        Some(
            IssueView {
                severity: Severity::Error,
                check: "repr-c-field-count"@,
                file: file,
                line: rs.line,
                column: 1,
                message: "#[repr(C)] struct `"@ + rs.name@ + "` has "@ + decimal(
                    rs.field_count as nat,
                ) + " fields, \
                             but C header `"@ + cs.file@ + ":"@ + decimal(cs.line as nat)
                    + "` has "@ + decimal(cs.fields@.len()) + " fields"@,
                suggestion: Some(
                    "Field count mismatch between Rust and C — check for missing or extra fields."@,
                ),
            },
        )
    } else {
        None
    }
}

/// The field names of a C struct, in order.
pub open spec fn c_field_names(cs: CStruct) -> Seq<Seq<char>> {
    cs.fields@.map_values(|f: CField| f.name@)
}

/// `a` and `b` are equally long and each name of one is a name of the other.
pub open spec fn same_names(a: Seq<Seq<char>>, b: Seq<Seq<char>>) -> bool {
    &&& a.len() == b.len()
    &&& forall|i: int| 0 <= i < a.len() ==> b.contains(#[trigger] a[i])
    &&& forall|j: int| 0 <= j < b.len() ==> a.contains(#[trigger] b[j])
}

/// The names of `rs` and `cs` are compared: the counts agree and every Rust field is named.
pub open spec fn names_compared(rs: ReprCStruct, cs: CStruct) -> bool {
    rs.field_count == cs.fields@.len() && rs.field_names@.len() == rs.field_count
}

/// The `repr-c-field-order` finding: the same field names in another order.
pub open spec fn field_order_issue(rs: ReprCStruct, cs: CStruct, file: Seq<char>) -> Option<IssueView> {
    let r = string_views(rs.field_names@);
    let c = c_field_names(cs);
    if names_compared(rs, cs) && r != c && same_names(r, c) {
        Some(
            IssueView {
                severity: Severity::Error,
                check: "repr-c-field-order"@,
                file: file,
                line: rs.line,
                column: 1,
                message: "struct `"@ + rs.name@ + "` same fields but WRONG ORDER\n    C order:   "@
                    + join(c, ", "@) + "\n    Rust order: "@ + join(r, ", "@),
                suggestion: Some("Silent memory corruption at runtime!"@),
            },
        )
    } else {
        None
    }
}

/// The `repr-c-field-names` finding: field names that partly differ.
pub open spec fn field_names_issue(rs: ReprCStruct, cs: CStruct, file: Seq<char>) -> Option<IssueView> {
    let r = string_views(rs.field_names@);
    let c = c_field_names(cs);
    if names_compared(rs, cs) && r != c && !same_names(r, c) {
        Some(
            IssueView {
                severity: Severity::Warning,
                check: "repr-c-field-names"@,
                file: file,
                line: rs.line,
                column: 1,
                message: "#[repr(C)] struct `"@ + rs.name@
                    + "` field names partially mismatch C header `"@ + cs.file@ + ":"@ + decimal(
                    cs.line as nat,
                ) + "`\n    C fields:    "@ + join(c, ", "@) + "\n    Rust fields: "@ + join(
                    r,
                    ", "@,
                ),
                suggestion: Some(
                    "Field names differ between Rust and C — check for renamed or misspelled fields."@,
                ),
            },
        )
    } else {
        None
    }
}

/// The `repr-c-unknown-ctype` finding for C field `f`, when its type is unrecognised.
pub open spec fn unknown_type_issue(rs: ReprCStruct, f: CField, file: Seq<char>) -> Option<IssueView> {
    let rust_type = c_type_info(f.ty@).0;
    if rust_type == "?"@ {
        Some(
            IssueView {
                severity: Severity::Warning,
                check: "repr-c-unknown-ctype"@,
                file: file,
                line: rs.line,
                column: 1,
                message: "#[repr(C)] struct `"@ + rs.name@ + "` has a C field `"@ + f.ty@ + " "@
                    + f.name@ + "` with \
                                 unrecognized type — verify it maps correctly to a Rust FFI type"@,
                suggestion: Some(
                    "Map `"@ + f.ty@ + "` to an explicit Rust FFI type, e.g. use `"@ + rust_type
                        + "` from std::os::raw."@,
                ),
            },
        )
    } else {
        None
    }
}

/// The `repr-c-unknown-ctype` findings for the first `k` fields.
pub open spec fn unknown_types_upto(rs: ReprCStruct, fields: Seq<CField>, k: nat, file: Seq<char>) -> Seq<
    IssueView,
>
    decreases k,
{
    if k == 0 {
        seq![]
    } else {
        unknown_types_upto(rs, fields, (k - 1) as nat, file) + opt_seq(
            unknown_type_issue(rs, fields[k - 1], file),
        )
    }
}

/// The `repr-c-no-c-match` finding for `rs`.
pub open spec fn no_match_issue(rs: ReprCStruct, dir: Seq<char>, file: Seq<char>) -> IssueView {
    IssueView {
        severity: Severity::Warning,
        check: "repr-c-no-c-match"@,
        file: file,
        line: rs.line,
        column: 1,
        message: "#[repr(C)] struct `"@ + rs.name@ + "` has no matching definition in C headers — \
                         ensure the C side exists and names match exactly"@,
        suggestion: Some(
            "Expected struct `"@ + rs.name@ + "` in the C header directory `"@ + dir + "`."@,
        ),
    }
}

/// The findings for one Rust struct: against the last C struct of its name,
/// count, order, names and unknown types; without one, a missing-match warning.
pub open spec fn struct_layout_issues(rs: ReprCStruct, h: CHeaders, file: Seq<char>) -> Seq<IssueView> {
    match last_named(h.structs@, rs.name@, h.structs@.len()) {
        Some(j) => {
            let cs = h.structs@[j];
            opt_seq(field_count_issue(rs, cs, file)) + opt_seq(field_order_issue(rs, cs, file))
                + opt_seq(field_names_issue(rs, cs, file)) + unknown_types_upto(
                rs,
                cs.fields@,
                cs.fields@.len(),
                file,
            )
        },
        None => seq![no_match_issue(rs, h.dir@, file)],
    }
}

/// The findings for the first `k` Rust structs.
pub open spec fn layout_upto(rss: Seq<ReprCStruct>, k: nat, h: CHeaders, file: Seq<char>) -> Seq<IssueView>
    decreases k,
{
    if k == 0 {
        seq![]
    } else {
        layout_upto(rss, (k - 1) as nat, h, file) + struct_layout_issues(rss[k - 1], h, file)
    }
}

/// Some Rust struct is named `name`.
pub open spec fn rust_has_name(rss: Seq<ReprCStruct>, name: Seq<char>) -> bool {
    exists|i: int| 0 <= i < rss.len() && (#[trigger] rss[i]).name@ == name
}

/// The `repr-c-unused-cstruct` finding for `cs`, when no Rust struct has its name.
pub open spec fn unused_issue(cs: CStruct, rss: Seq<ReprCStruct>) -> Option<IssueView> {
    if !rust_has_name(rss, cs.name@) {
        Some(
            IssueView {
                severity: Severity::Info,
                check: "repr-c-unused-cstruct"@,
                file: cs.file@,
                line: cs.line,
                column: 1,
                message: "C struct `"@ + cs.name@ + "` (defined in `"@ + cs.file@
                    + "`) has no corresponding #[repr(C)] struct in Rust"@,
                suggestion: None,
            },
        )
    } else {
        None
    }
}

/// The unused-struct findings for the first `k` C structs.
pub open spec fn unused_upto(css: Seq<CStruct>, k: nat, rss: Seq<ReprCStruct>) -> Seq<IssueView>
    decreases k,
{
    if k == 0 {
        seq![]
    } else {
        unused_upto(css, (k - 1) as nat, rss) + opt_seq(unused_issue(css[k - 1], rss))
    }
}

/// What [`check_repr_c_layout`] reports: without headers, an info per Rust
/// struct; with them, the findings of each Rust struct in order, then one per
/// C struct that no Rust struct names.
pub open spec fn layout_issues(rss: Seq<ReprCStruct>, headers: Option<CHeaders>, file: Seq<char>) -> Seq<
    IssueView,
> {
    match headers {
        None => no_header_upto(rss, rss.len(), file),
        Some(h) => layout_upto(rss, rss.len(), h, file) + unused_upto(
            h.structs@,
            h.structs@.len(),
            rss,
        ),
    }
}

/// The items of `v` separated by `sep`.
fn join_strings(v: &Vec<String>, sep: &str) -> (r: String)
    ensures
        r@ == join(string_views(v@), sep@),
{
    let mut cv: Vec<Vec<char>> = Vec::new();
    let mut i: usize = 0;
    while i < v.len()
        invariant
            0 <= i <= v.len(),
            views(cv@) == string_views(v@.take(i as int)),
        decreases v.len() - i,
    {
        let ghost before = cv@;
        cv.push(to_chars(v[i].as_str()));
        assert(views(cv@) =~= views(before).push(v@[i as int]@));
        assert(string_views(v@.take(i + 1)) =~= string_views(v@.take(i as int)).push(v@[i as int]@));
        i += 1;
    }
    assert(v@.take(v.len() as int) =~= v@);
    assert(cv@.take(cv.len() as int) =~= cv@);
    chars_to_string(&join_chars(&cv, cv.len(), sep))
}

/// The field names of `cs`.
fn c_names_of(cs: &CStruct) -> (r: Vec<String>)
    ensures
        string_views(r@) == c_field_names(*cs),
{
    let mut names: Vec<String> = Vec::new();
    let mut i: usize = 0;
    while i < cs.fields.len()
        invariant
            0 <= i <= cs.fields.len(),
            string_views(names@) == c_field_names(*cs).take(i as int),
        decreases cs.fields.len() - i,
    {
        let ghost before = names@;
        names.push(cs.fields[i].name.clone());
        assert(string_views(names@) =~= string_views(before).push(cs.fields@[i as int].name@));
        assert(c_field_names(*cs).take(i + 1) =~= c_field_names(*cs).take(i as int).push(
            cs.fields@[i as int].name@,
        ));
        i += 1;
    }
    assert(c_field_names(*cs).take(cs.fields.len() as int) =~= c_field_names(*cs));
    names
}

/// Whether `s` is one of `v`.
fn contains_string(v: &Vec<String>, s: &String) -> (r: bool)
    ensures
        r == string_views(v@).contains(s@),
{
    let mut i: usize = 0;
    while i < v.len()
        invariant
            0 <= i <= v.len(),
            forall|k: int| 0 <= k < i ==> (#[trigger] v@[k])@ != s@,
        decreases v.len() - i,
    {
        if v[i] == *s {
            assert(string_views(v@)[i as int] == s@);
            return true;
        }
        i += 1;
    }
    assert forall|k: int| 0 <= k < string_views(v@).len() implies string_views(v@)[k] != s@ by {
        assert(string_views(v@)[k] == v@[k]@);
    }
    false
}

/// Whether `a` and `b` are the same sequence of names.
fn same_sequence(a: &Vec<String>, b: &Vec<String>) -> (r: bool)
    ensures
        r == (string_views(a@) == string_views(b@)),
{
    if a.len() != b.len() {
        assert(string_views(a@).len() != string_views(b@).len());
        return false;
    }
    let mut i: usize = 0;
    while i < a.len()
        invariant
            0 <= i <= a.len(),
            a.len() == b.len(),
            forall|k: int| 0 <= k < i ==> (#[trigger] a@[k])@ == b@[k]@,
        decreases a.len() - i,
    {
        if a[i] != b[i] {
            assert(string_views(a@)[i as int] != string_views(b@)[i as int]);
            return false;
        }
        i += 1;
    }
    assert(string_views(a@) =~= string_views(b@));
    true
}

/// Whether `a` and `b` are equally long and each name of one is a name of the other.
fn same_name_set(a: &Vec<String>, b: &Vec<String>) -> (r: bool)
    ensures
        r == same_names(string_views(a@), string_views(b@)),
{
    if a.len() != b.len() {
        return false;
    }
    let mut i: usize = 0;
    while i < a.len()
        invariant
            0 <= i <= a.len(),
            forall|k: int| 0 <= k < i ==> string_views(b@).contains(#[trigger] string_views(a@)[k]),
        decreases a.len() - i,
    {
        if !contains_string(b, &a[i]) {
            assert(!string_views(b@).contains(string_views(a@)[i as int]));
            return false;
        }
        i += 1;
    }
    let mut j: usize = 0;
    while j < b.len()
        invariant
            0 <= j <= b.len(),
            forall|k: int| 0 <= k < j ==> string_views(a@).contains(#[trigger] string_views(b@)[k]),
        decreases b.len() - j,
    {
        if !contains_string(a, &b[j]) {
            assert(!string_views(a@).contains(string_views(b@)[j as int]));
            return false;
        }
        j += 1;
    }
    true
}

/// The position of the last struct of `cs` named `name`.
fn find_last_named(cs: &Vec<CStruct>, name: &String) -> (r: Option<usize>)
    ensures
        match r {
            Some(j) => last_named(cs@, name@, cs@.len()) == Some(j as int) && j < cs@.len(),
            None => last_named(cs@, name@, cs@.len()) is None,
        },
{
    let mut k: usize = cs.len();
    while k > 0
        invariant
            0 <= k <= cs.len(),
            last_named(cs@, name@, cs@.len()) == last_named(cs@, name@, k as nat),
        decreases k,
    {
        if cs[k - 1].name == *name {
            return Some(k - 1);
        }
        k -= 1;
    }
    None
}

/// Appends the `repr-c-unknown-ctype` findings of the fields of `cs`.
fn push_unknown_types(issues: &mut Vec<Issue>, rs: &ReprCStruct, cs: &CStruct, file: &str)
    ensures
        issue_views(final(issues)@) == issue_views(old(issues)@) + unknown_types_upto(
            *rs,
            cs.fields@,
            cs.fields@.len(),
            file@,
        ),
{
    let ghost start = issues@;
    let mut i: usize = 0;
    assert(issue_views(issues@) =~= issue_views(start) + unknown_types_upto(
        *rs,
        cs.fields@,
        0,
        file@,
    ));
    while i < cs.fields.len()
        invariant
            0 <= i <= cs.fields.len(),
            issue_views(issues@) == issue_views(start) + unknown_types_upto(
                *rs,
                cs.fields@,
                i as nat,
                file@,
            ),
        decreases cs.fields.len() - i,
    {
        let cf = &cs.fields[i];
        let (rust_type, _size) = c_type_to_rust_info(cf.ty.as_str());
        let ghost before = issues@;
        if crate::text::str_eq(rust_type, "?") {
            let mut message = String::new();
            message.append("#[repr(C)] struct `");
            message.append(rs.name.as_str());
            message.append("` has a C field `");
            message.append(cf.ty.as_str());
            message.append(" ");
            message.append(cf.name.as_str());
            message.append("` with \
                                 unrecognized type — verify it maps correctly to a Rust FFI type");
            let mut suggestion = String::new();
            suggestion.append("Map `");
            suggestion.append(cf.ty.as_str());
            suggestion.append("` to an explicit Rust FFI type, e.g. use `");
            suggestion.append(rust_type);
            suggestion.append("` from std::os::raw.");
            issues.push(
                new_issue(
                    Severity::Warning,
                    "repr-c-unknown-ctype",
                    file,
                    rs.line,
                    1,
                    message,
                    Some(suggestion),
                ),
            );
            assert(issue_views(issues@) =~= issue_views(before) + opt_seq(
                unknown_type_issue(*rs, cs.fields@[i as int], file@),
            ));
        } else {
            assert(issue_views(issues@) =~= issue_views(before) + opt_seq(
                unknown_type_issue(*rs, cs.fields@[i as int], file@),
            ));
        }
        i += 1;
    }
}

/// Appends the findings of comparing `rs` with the C struct `cs` of its name.
fn push_struct_comparison(issues: &mut Vec<Issue>, rs: &ReprCStruct, cs: &CStruct, file: &str)
    ensures
        issue_views(final(issues)@) == issue_views(old(issues)@) + opt_seq(
            field_count_issue(*rs, *cs, file@),
        ) + opt_seq(field_order_issue(*rs, *cs, file@)) + opt_seq(
            field_names_issue(*rs, *cs, file@),
        ) + unknown_types_upto(*rs, cs.fields@, cs.fields@.len(), file@),
{
    let ghost start = issues@;
    if rs.field_count != cs.fields.len() {
        let mut message = String::new();
        message.append("#[repr(C)] struct `");
        message.append(rs.name.as_str());
        message.append("` has ");
        push_decimal(&mut message, rs.field_count);
        message.append(" fields, \
                             but C header `");
        message.append(cs.file.as_str());
        message.append(":");
        push_decimal(&mut message, cs.line);
        message.append("` has ");
        push_decimal(&mut message, cs.fields.len());
        message.append(" fields");
        issues.push(
            new_issue(
                Severity::Error,
                "repr-c-field-count",
                file,
                rs.line,
                1,
                message,
                Some(
                    String::from_str(
                        "Field count mismatch between Rust and C — check for missing or extra fields.",
                    ),
                ),
            ),
        );
    }
    assert(issue_views(issues@) =~= issue_views(start) + opt_seq(
        field_count_issue(*rs, *cs, file@),
    ));
    let ghost after_count = issues@;
    if rs.field_count == cs.fields.len() && rs.field_names.len() == rs.field_count {
        let c_names = c_names_of(cs);
        if !same_sequence(&rs.field_names, &c_names) {
            let c_joined = join_strings(&c_names, ", ");
            let r_joined = join_strings(&rs.field_names, ", ");
            if same_name_set(&rs.field_names, &c_names) {
                let mut message = String::new();
                message.append("struct `");
                message.append(rs.name.as_str());
                message.append("` same fields but WRONG ORDER\n    C order:   ");
                message.append(c_joined.as_str());
                message.append("\n    Rust order: ");
                message.append(r_joined.as_str());
                issues.push(
                    new_issue(
                        Severity::Error,
                        "repr-c-field-order",
                        file,
                        rs.line,
                        1,
                        message,
                        Some(String::from_str("Silent memory corruption at runtime!")),
                    ),
                );
            } else {
                let mut message = String::new();
                message.append("#[repr(C)] struct `");
                message.append(rs.name.as_str());
                message.append("` field names partially mismatch C header `");
                message.append(cs.file.as_str());
                message.append(":");
                push_decimal(&mut message, cs.line);
                message.append("`\n    C fields:    ");
                message.append(c_joined.as_str());
                message.append("\n    Rust fields: ");
                message.append(r_joined.as_str());
                issues.push(
                    new_issue(
                        Severity::Warning,
                        "repr-c-field-names",
                        file,
                        rs.line,
                        1,
                        message,
                        Some(
                            String::from_str(
                                "Field names differ between Rust and C — check for renamed or misspelled fields.",
                            ),
                        ),
                    ),
                );
            }
        }
    }
    assert(issue_views(issues@) =~= issue_views(after_count) + opt_seq(
        field_order_issue(*rs, *cs, file@),
    ) + opt_seq(field_names_issue(*rs, *cs, file@)));
    push_unknown_types(issues, rs, cs, file);
}

/// Whether some Rust struct is named `name`.
fn any_rust_named(rss: &[ReprCStruct], name: &String) -> (r: bool)
    ensures
        r == rust_has_name(rss@, name@),
{
    let mut i: usize = 0;
    while i < rss.len()
        invariant
            0 <= i <= rss.len(),
            forall|k: int| 0 <= k < i ==> (#[trigger] rss@[k]).name@ != name@,
        decreases rss.len() - i,
    {
        if rss[i].name == *name {
            assert(rss@[i as int].name@ == name@);
            return true;
        }
        i += 1;
    }
    false
}

/// Check #[repr(C)] Rust structs against the struct definitions parsed from C
/// headers; `None` when there is no header directory to check against.
pub fn check_repr_c_layout(rust_structs: &[ReprCStruct], headers: Option<&CHeaders>, rust_file: &str) -> (r: Vec<
    Issue,
>)
    ensures
        issue_views(r@) == layout_issues(
            rust_structs@,
            match headers {
                Some(h) => Some(*h),
                None => None,
            },
            rust_file@,
        ),
{
    let mut issues: Vec<Issue> = Vec::new();

    let headers = match headers {
        Some(h) => h,
        None => {
            let mut i: usize = 0;
            while i < rust_structs.len()
                invariant
                    0 <= i <= rust_structs.len(),
                    issue_views(issues@) == no_header_upto(rust_structs@, i as nat, rust_file@),
                decreases rust_structs.len() - i,
            {
                let s = &rust_structs[i];
                let mut message = String::new();
                message.append("#[repr(C)] struct `");
                message.append(s.name.as_str());
                message.append("` has no C header to verify against — \
                         pass --headers <dir> to enable layout validation");
                let ghost before = issues@;
                issues.push(
                    new_issue(
                        Severity::Info,
                        "repr-c-no-header",
                        rust_file,
                        s.line,
                        1,
                        message,
                        Some(
                            String::from_str(
                                "Use --headers to specify the directory containing your C header files.",
                            ),
                        ),
                    ),
                );
                assert(issue_views(issues@) =~= issue_views(before) + seq![
                    no_header_issue(rust_structs@[i as int], rust_file@),
                ]);
                i += 1;
            }
            return issues;
        },
    };

    let mut i: usize = 0;
    while i < rust_structs.len()
        invariant
            0 <= i <= rust_structs.len(),
            issue_views(issues@) == layout_upto(rust_structs@, i as nat, *headers, rust_file@),
        decreases rust_structs.len() - i,
    {
        let rs = &rust_structs[i];
        let ghost before = issues@;
        match find_last_named(&headers.structs, &rs.name) {
            Some(j) => {
                push_struct_comparison(&mut issues, rs, &headers.structs[j], rust_file);
            },
            None => {
                let mut message = String::new();
                message.append("#[repr(C)] struct `");
                message.append(rs.name.as_str());
                message.append("` has no matching definition in C headers — \
                         ensure the C side exists and names match exactly");
                let mut suggestion = String::new();
                suggestion.append("Expected struct `");
                suggestion.append(rs.name.as_str());
                suggestion.append("` in the C header directory `");
                suggestion.append(headers.dir.as_str());
                suggestion.append("`.");
                issues.push(
                    new_issue(
                        Severity::Warning,
                        "repr-c-no-c-match",
                        rust_file,
                        rs.line,
                        1,
                        message,
                        Some(suggestion),
                    ),
                );
                assert(issue_views(issues@) =~= issue_views(before) + seq![
                    no_match_issue(*rs, headers.dir@, rust_file@),
                ]);
            },
        }
        assert(issue_views(issues@) =~= issue_views(before) + struct_layout_issues(
            rust_structs@[i as int],
            *headers,
            rust_file@,
        ));
        i += 1;
    }

    let ghost after_structs = issues@;
    let mut k: usize = 0;
    assert(issue_views(issues@) =~= issue_views(after_structs) + unused_upto(
        headers.structs@,
        0,
        rust_structs@,
    ));
    while k < headers.structs.len()
        invariant
            0 <= k <= headers.structs.len(),
            issue_views(issues@) == issue_views(after_structs) + unused_upto(
                headers.structs@,
                k as nat,
                rust_structs@,
            ),
        decreases headers.structs.len() - k,
    {
        let cs = &headers.structs[k];
        let ghost before = issues@;
        if !any_rust_named(rust_structs, &cs.name) {
            let mut message = String::new();
            message.append("C struct `");
            message.append(cs.name.as_str());
            message.append("` (defined in `");
            message.append(cs.file.as_str());
            message.append("`) has no corresponding #[repr(C)] struct in Rust");
            issues.push(
                new_issue(
                    Severity::Info,
                    "repr-c-unused-cstruct",
                    cs.file.as_str(),
                    cs.line,
                    1,
                    message,
                    None,
                ),
            );
        }
        assert(issue_views(issues@) =~= issue_views(before) + opt_seq(
            unused_issue(headers.structs@[k as int], rust_structs@),
        ));
        k += 1;
    }
    issues
}

} // verus!
