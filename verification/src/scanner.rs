//! The facts extracted from one Rust source file, and the scanner that
//! extracts them from a syntax tree.

use crate::syntax::{
    node_text, node_text_or, node_wf, nodes_wf, text_of, text_of_opt, text_of_or, SyntaxNode, SyntaxTree,
};
use crate::text::{occurs_at_bytes, starts_with_seq, starts_with_str, 
    contains_bytes, contains_seq, contains_str, find_char, index_of, lemma_index_of_bounds, lines,
    slice_chars, split_lines, to_chars,
};
use crate::checks::callback_panic::{
    body_panics_issues, callback_types_issues, check_callback_body_panics, check_callback_types,
};
use crate::checks::cstring_unwrap::{check_cstring_unwrap, cstring_issues};
use crate::checks::extern_fn::{check_extern_fn_null_return, null_return_issues};
use crate::checks::ffi_types::{check_ffi_ownership, has_ptr_param, ownership_issues_upto, takes_ptr_param};
use crate::checks::from_raw_parts::{check_ffi_from_raw_parts, from_raw_parts_issues};
use crate::checks::ptr_deref::{check_ffi_ptr_deref, deref_issues};
use crate::checks::repr_c::{check_repr_c_missing, repr_c_missing_issues};
use crate::checks::repr_transparent::{check_repr_transparent, transparent_issues};
use crate::checks::unsafe_block::{
    check_unsafe_sprawl, check_unsafe_without_safety_doc, safety_doc_issues, sprawl_issues,
};
use crate::checks::repr_c_layout::{check_repr_c_layout, layout_issues, CHeaders};
use crate::report::{copy_issue, issue_views, lemma_severity_counts_sum, opt_seq, Issue, IssueView, Report};
use crate::syntax::{flat_tree, node_views, parse_rust, rust_syntax, syntax_tree_of, RustParser};
use vstd::prelude::*;
use vstd::string::StringSliceAdditionalSpecFns;
use vstd::utf8::{encode_utf8, valid_utf8};

verus! {

/// The content of a [`FnParam`].
pub struct FnParamView {
    pub name: Seq<char>,
    pub ty: Seq<char>,
    pub is_mut_ptr: bool,
    pub is_const_ptr: bool,
}

/// One parameter of an `extern` function.
#[derive(Debug, Clone)]
pub struct FnParam {
    pub name: String,
    pub ty: String,
    pub is_mut_ptr: bool,
    pub is_const_ptr: bool,
}

impl View for FnParam {
    type V = FnParamView;

    open spec fn view(&self) -> FnParamView {
        FnParamView {
            name: self.name@,
            ty: self.ty@,
            is_mut_ptr: self.is_mut_ptr,
            is_const_ptr: self.is_const_ptr,
        }
    }
}

/// The content of an [`ExternFn`].
pub struct ExternFnView {
    pub name: Seq<char>,
    pub line: usize,
    pub column: usize,
    pub abi: Seq<char>,
    pub params: Seq<FnParamView>,
    pub ret_type: Seq<char>,
    pub is_unsafe: bool,
}

/// An `extern` function signature found in a file.
#[derive(Debug, Clone)]
pub struct ExternFn {
    pub name: String,
    pub line: usize,
    pub column: usize,
    /// "C", "C++", "system", etc.
    pub abi: String,
    pub params: Vec<FnParam>,
    pub ret_type: String,
    pub is_unsafe: bool,
}

impl View for ExternFn {
    type V = ExternFnView;

    open spec fn view(&self) -> ExternFnView {
        ExternFnView {
            name: self.name@,
            line: self.line,
            column: self.column,
            abi: self.abi@,
            params: self.params@.map_values(|p: FnParam| p@),
            ret_type: self.ret_type@,
            is_unsafe: self.is_unsafe,
        }
    }
}

/// The content of an [`UnsafeBlock`].
pub struct UnsafeBlockView {
    pub line: usize,
    pub line_count: usize,
    pub has_safety_comment: bool,
    pub block_text: Seq<char>,
}

/// An `unsafe { ... }` block found in a file.
#[derive(Debug, Clone)]
pub struct UnsafeBlock {
    pub line: usize,
    pub line_count: usize,
    pub has_safety_comment: bool,
    pub block_text: String,
}

impl View for UnsafeBlock {
    type V = UnsafeBlockView;

    open spec fn view(&self) -> UnsafeBlockView {
        UnsafeBlockView {
            line: self.line,
            line_count: self.line_count,
            has_safety_comment: self.has_safety_comment,
            block_text: self.block_text@,
        }
    }
}

/// The path and text of one source file.
#[derive(Debug, Clone)]
pub struct SourceFile {
    pub path: String,
    pub text: String,
}

/// The views of a sequence of strings.
pub open spec fn string_views(v: Seq<String>) -> Seq<Seq<char>> {
    v.map_values(|s: String| s@)
}

/// The content of a [`ReprCStruct`].
pub struct ReprCStructView {
    pub name: Seq<char>,
    pub line: usize,
    pub field_count: usize,
    pub field_names: Seq<Seq<char>>,
    pub has_drop_impl: bool,
}

/// A `#[repr(C)]` struct found in a file.
#[derive(Debug, Clone)]
pub struct ReprCStruct {
    pub name: String,
    pub line: usize,
    pub field_count: usize,
    pub field_names: Vec<String>,
    /// The file implements `Drop` for it, or it holds no raw pointer, so
    /// there is nothing to free.
    pub has_drop_impl: bool,
}

impl View for ReprCStruct {
    type V = ReprCStructView;

    open spec fn view(&self) -> ReprCStructView {
        ReprCStructView {
            name: self.name@,
            line: self.line,
            field_count: self.field_count,
            field_names: string_views(self.field_names@),
            has_drop_impl: self.has_drop_impl,
        }
    }
}

/// The content of a [`FileInfo`].
pub struct FileInfoView {
    pub path: Seq<char>,
    pub extern_fns: Seq<ExternFnView>,
    pub unsafe_blocks: Seq<UnsafeBlockView>,
    pub repr_c_structs: Seq<ReprCStructView>,
    pub ffi_typenames: Seq<Seq<char>>,
}

/// Information extracted from a single Rust source file.
#[derive(Debug, Default)]
pub struct FileInfo {
    pub path: String,
    /// extern "C" function signatures found.
    pub extern_fns: Vec<ExternFn>,
    /// unsafe blocks found.
    pub unsafe_blocks: Vec<UnsafeBlock>,
    /// #[repr(C)] structs found.
    pub repr_c_structs: Vec<ReprCStruct>,
    /// Functions taking or returning raw C pointers.
    pub ffi_typenames: Vec<String>,
}

impl View for FileInfo {
    type V = FileInfoView;

    open spec fn view(&self) -> FileInfoView {
        FileInfoView {
            path: self.path@,
            extern_fns: self.extern_fns@.map_values(|e: ExternFn| e@),
            unsafe_blocks: self.unsafe_blocks@.map_values(|u: UnsafeBlock| u@),
            repr_c_structs: self.repr_c_structs@.map_values(|r: ReprCStruct| r@),
            ffi_typenames: string_views(self.ffi_typenames@),
        }
    }
}

// ---------------------------------------------------------------------------
// Reading syntax trees
// ---------------------------------------------------------------------------

/// The index of an optional parent, or -1 for none.
pub open spec fn parent_index(p: Option<usize>) -> int {
    match p {
        Some(x) => x as int,
        None => -1,
    }
}

/// The first of the nodes `cs` whose kind is `k`.
pub open spec fn first_of_kind(ns: Seq<SyntaxNode>, cs: Seq<usize>, k: Seq<char>) -> Option<usize>
    decreases cs.len(),
{
    if cs.len() == 0 {
        None
    } else if ns[cs[0] as int].kind@ == k {
        Some(cs[0])
    } else {
        first_of_kind(ns, cs.drop_first(), k)
    }
}

/// The first of the nodes `cs` held under the field `f`.
pub open spec fn first_with_field(ns: Seq<SyntaxNode>, cs: Seq<usize>, f: Seq<char>) -> Option<usize>
    decreases cs.len(),
{
    if cs.len() == 0 {
        None
    } else if ns[cs[0] as int].field matches Some(g) && g@ == f {
        Some(cs[0])
    } else {
        first_with_field(ns, cs.drop_first(), f)
    }
}

/// The text of the node `o` names, or the empty text when there is none.
pub open spec fn opt_text(ns: Seq<SyntaxNode>, src: Seq<u8>, o: Option<usize>) -> Seq<char> {
    match o {
        Some(c) => node_text(src, ns[c as int]),
        None => Seq::empty(),
    }
}

/// The children indices of a well-formed tree are in range.
pub open spec fn children_in(ns: Seq<SyntaxNode>, cs: Seq<usize>) -> bool {
    forall|j: int| 0 <= j < cs.len() ==> #[trigger] cs[j] < ns.len()
}

/// The first of `cs` whose kind is `kind`.
fn find_child_of_kind(nodes: &Vec<SyntaxNode>, cs: &Vec<usize>, kind: &str) -> (r: Option<usize>)
    requires
        children_in(nodes@, cs@),
    ensures
        r == first_of_kind(nodes@, cs@, kind@),
        r matches Some(c) ==> c < nodes@.len(),
{
    let mut j: usize = 0;
    assert(cs@.skip(0) =~= cs@);
    while j < cs.len()
        invariant
            0 <= j <= cs.len(),
            children_in(nodes@, cs@),
            first_of_kind(nodes@, cs@, kind@) == first_of_kind(nodes@, cs@.skip(j as int), kind@),
        decreases cs.len() - j,
    {
        let c = cs[j];
        assert(cs@.skip(j as int).drop_first() =~= cs@.skip(j + 1));
        assert(cs@.skip(j as int)[0] == c);
        if crate::text::str_eq(nodes[c].kind.as_str(), kind) {
            return Some(c);
        }
        j += 1;
    }
    assert(cs@.skip(j as int) =~= Seq::<usize>::empty());
    None
}

/// The first of `cs` held under the field `field`.
fn find_child_with_field(nodes: &Vec<SyntaxNode>, cs: &Vec<usize>, field: &str) -> (r: Option<usize>)
    requires
        children_in(nodes@, cs@),
    ensures
        r == first_with_field(nodes@, cs@, field@),
        r matches Some(c) ==> c < nodes@.len(),
{
    let mut j: usize = 0;
    assert(cs@.skip(0) =~= cs@);
    while j < cs.len()
        invariant
            0 <= j <= cs.len(),
            children_in(nodes@, cs@),
            first_with_field(nodes@, cs@, field@) == first_with_field(
                nodes@,
                cs@.skip(j as int),
                field@,
            ),
        decreases cs.len() - j,
    {
        let c = cs[j];
        assert(cs@.skip(j as int).drop_first() =~= cs@.skip(j + 1));
        assert(cs@.skip(j as int)[0] == c);
        match &nodes[c].field {
            Some(g) => {
                if crate::text::str_eq(g.as_str(), field) {
                    return Some(c);
                }
            },
            None => {},
        }
        j += 1;
    }
    assert(cs@.skip(j as int) =~= Seq::<usize>::empty());
    None
}

// ---------------------------------------------------------------------------
// extern functions
// ---------------------------------------------------------------------------

/// A node of kind `k` makes what lies inside it `extern`.
pub open spec fn is_extern_container(k: Seq<char>) -> bool {
    k == "foreign_mod_item"@ || k == "extern_block"@ || k == "extern_modifier"@
}

/// Walking up from node `x`: an `extern` container is met before a
/// `source_file` or a `block`.
pub open spec fn extern_from(ns: Seq<SyntaxNode>, x: int) -> bool
    decreases x + 1,
{
    if x < 0 || x >= ns.len() {
        false
    } else if is_extern_container(ns[x].kind@) {
        true
    } else if ns[x].kind@ == "source_file"@ || ns[x].kind@ == "block"@ {
        false
    } else {
        match ns[x].parent {
            Some(q) => if q < x {
                extern_from(ns, q as int)
            } else {
                false
            },
            None => false,
        }
    }
}

/// The text between the first two double quotes of `t`, if it has two.
pub open spec fn quoted(t: Seq<char>) -> Option<Seq<char>> {
    let a = index_of(t, '"');
    if a >= t.len() {
        None
    } else {
        let rest = t.skip(a as int + 1);
        let b = index_of(rest, '"');
        if b >= rest.len() {
            None
        } else {
            Some(rest.take(b as int))
        }
    }
}

/// The quoted text of the first of `cs` that is an `extern_modifier` or a
/// `string_literal` and whose text (`"C"` where it is not UTF-8) holds a quoted part.
pub open spec fn first_quoted(ns: Seq<SyntaxNode>, src: Seq<u8>, cs: Seq<usize>) -> Option<Seq<char>>
    decreases cs.len(),
{
    if cs.len() == 0 {
        None
    } else {
        let c = ns[cs[0] as int];
        if (c.kind@ == "extern_modifier"@ || c.kind@ == "string_literal"@) && quoted(
            node_text_or(src, c, "\"C\""@),
        ) is Some {
            quoted(node_text_or(src, c, "\"C\""@))
        } else {
            first_quoted(ns, src, cs.drop_first())
        }
    }
}

/// The ABI found walking up from node `x`: at the first `extern` container,
/// its first quoted modifier or literal, else `C`; `C` when there is none.
pub open spec fn abi_from(ns: Seq<SyntaxNode>, src: Seq<u8>, x: int) -> Seq<char>
    decreases x + 1,
{
    if x < 0 || x >= ns.len() {
        "C"@
    } else if is_extern_container(ns[x].kind@) {
        match first_quoted(ns, src, ns[x].children@) {
            Some(q) => q,
            None => "C"@,
        }
    } else {
        match ns[x].parent {
            Some(q) => if q < x {
                abi_from(ns, src, q as int)
            } else {
                "C"@
            },
            None => "C"@,
        }
    }
}

/// The `extern_modifier` of a function item with children `cs`: among its
/// children, or among those of its `function_modifiers`, where the grammar puts it.
pub open spec fn own_extern_modifier(ns: Seq<SyntaxNode>, cs: Seq<usize>) -> Option<usize> {
    match first_of_kind(ns, cs, "extern_modifier"@) {
        Some(c) => Some(c),
        None => match first_of_kind(ns, cs, "function_modifiers"@) {
            Some(m) => first_of_kind(ns, ns[m as int].children@, "extern_modifier"@),
            None => None,
        },
    }
}

/// The ABI of the function at node `i`: the quoted part of its own
/// `extern_modifier` (`C` when it has none), else the ABI of the block it is in.
pub open spec fn abi_of(ns: Seq<SyntaxNode>, src: Seq<u8>, i: int) -> Seq<char> {
    match own_extern_modifier(ns, ns[i].children@) {
        Some(c) => match quoted(node_text_or(src, ns[c as int], "\"C\""@)) {
            Some(q) => q,
            None => "C"@,
        },
        None => abi_from(ns, src, parent_index(ns[i].parent)),
    }
}

/// The parameter at node `c`: its text, the text of its first identifier, and
/// whether the text mentions a mutable or a const raw pointer.
pub open spec fn param_at(ns: Seq<SyntaxNode>, src: Seq<u8>, c: int) -> FnParamView {
    let text = node_text(src, ns[c]);
    FnParamView {
        name: opt_text(ns, src, first_of_kind(ns, ns[c].children@, "identifier"@)),
        ty: text,
        is_mut_ptr: contains_seq(text, "*mut "@),
        is_const_ptr: contains_seq(text, "*const "@),
    }
}

/// The parameters among the nodes `cs`, in order.
pub open spec fn params_of(ns: Seq<SyntaxNode>, src: Seq<u8>, cs: Seq<usize>) -> Seq<FnParamView>
    decreases cs.len(),
{
    if cs.len() == 0 {
        seq![]
    } else {
        params_of(ns, src, cs.drop_last()) + if ns[cs.last() as int].kind@ == "parameter"@ {
            seq![param_at(ns, src, cs.last() as int)]
        } else {
            seq![]
        }
    }
}

/// Some node of `cs` is a `function_modifiers` node whose text mentions `unsafe`.
pub open spec fn has_unsafe_modifier(ns: Seq<SyntaxNode>, src: Seq<u8>, cs: Seq<usize>) -> bool {
    exists|j: int|
        0 <= j < cs.len() && ns[#[trigger] cs[j] as int].kind@ == "function_modifiers"@
            && contains_seq(node_text(src, ns[cs[j] as int]), "unsafe"@)
}

/// The `extern` function at node `i`, if the function there is inside an
/// `extern` block or carries an `extern` modifier.
pub open spec fn extern_fn_at(ns: Seq<SyntaxNode>, src: Seq<u8>, i: int) -> Option<ExternFnView> {
    let n = ns[i];
    if !extern_from(ns, parent_index(n.parent)) && own_extern_modifier(ns, n.children@) is None {
        None
    } else {
        Some(
            ExternFnView {
                name: opt_text(ns, src, first_with_field(ns, n.children@, "name"@)),
                line: (n.start_row + 1) as usize,
                column: (n.start_column + 1) as usize,
                abi: abi_of(ns, src, i),
                params: match first_with_field(ns, n.children@, "parameters"@) {
                    Some(p) => params_of(ns, src, ns[p as int].children@),
                    None => seq![],
                },
                ret_type: opt_text(ns, src, first_with_field(ns, n.children@, "return_type"@)),
                is_unsafe: has_unsafe_modifier(ns, src, n.children@),
            },
        )
    }
}

/// Whether walking up from the parent of node `i` meets an `extern` container
/// before a `source_file` or a `block`.
fn in_extern_block(nodes: &Vec<SyntaxNode>, i: usize, text_len: Ghost<nat>) -> (r: bool)
    requires
        nodes_wf(nodes@, text_len@),
        i < nodes@.len(),
    ensures
        r == extern_from(nodes@, parent_index(nodes@[i as int].parent)),
{
    let mut cur = nodes[i].parent;
    proof {
        assert(node_wf(nodes@[i as int], i as int, nodes@.len(), text_len@));
    }
    loop
        invariant
            nodes_wf(nodes@, text_len@),
            -1 <= parent_index(cur) < nodes@.len(),
            extern_from(nodes@, parent_index(nodes@[i as int].parent)) == extern_from(
                nodes@,
                parent_index(cur),
            ),
        decreases parent_index(cur) + 1,
    {
        match cur {
            None => return false,
            Some(x) => {
                let kind = nodes[x].kind.as_str();
                if crate::text::str_eq(kind, "foreign_mod_item") || crate::text::str_eq(
                    kind,
                    "extern_block",
                ) || crate::text::str_eq(kind, "extern_modifier") {
                    return true;
                }
                if crate::text::str_eq(kind, "source_file") || crate::text::str_eq(kind, "block") {
                    return false;
                }
                proof {
                    assert(node_wf(nodes@[x as int], x as int, nodes@.len(), text_len@));
                }
                cur = nodes[x].parent;
            },
        }
    }
}

/// The text between the first two double quotes of `t`, if it has two.
fn quoted_part(t: &Vec<char>) -> (r: Option<Vec<char>>)
    ensures
        match r {
            Some(q) => quoted(t@) == Some(q@),
            None => quoted(t@) is None,
        },
{
    proof {
        lemma_index_of_bounds(t@, '"');
    }
    let len = t.len();
    match find_char(t, '"') {
        None => None,
        Some(a) => {
            let rest = slice_chars(t, a + 1, len);
            assert(rest@ =~= t@.skip(a + 1));
            proof {
                lemma_index_of_bounds(rest@, '"');
            }
            match find_char(&rest, '"') {
                None => None,
                Some(b) => {
                    let q = slice_chars(&rest, 0, b);
                    assert(q@ =~= rest@.take(b as int));
                    Some(q)
                },
            }
        },
    }
}

/// A `String` holding the characters of `v`.
fn string_of(v: &Vec<char>) -> (s: String)
    ensures
        s@ == v@,
{
    crate::text::chars_to_string(v)
}

/// The quoted part of the text of node `c` (`"C"` where it is not UTF-8), or `C`.
fn abi_text(src: &[u8], n: &SyntaxNode) -> (r: Option<String>)
    requires
        n.start_byte <= n.end_byte <= src@.len(),
    ensures
        match r {
            Some(s) => quoted(node_text_or(src@, *n, "\"C\""@)) == Some(s@),
            None => quoted(node_text_or(src@, *n, "\"C\""@)) is None,
        },
{
    let text = text_of_or(src, n, "\"C\"");
    let chars = to_chars(text.as_str());
    match quoted_part(&chars) {
        Some(q) => Some(string_of(&q)),
        None => None,
    }
}

/// The `extern_modifier` of the function item with children `cs`.
fn find_extern_modifier(nodes: &Vec<SyntaxNode>, cs: &Vec<usize>, Ghost(text_len): Ghost<nat>) -> (r: Option<usize>)
    requires
        nodes_wf(nodes@, text_len),
        children_in(nodes@, cs@),
    ensures
        r == own_extern_modifier(nodes@, cs@),
        r matches Some(c) ==> c < nodes@.len(),
{
    match find_child_of_kind(nodes, cs, "extern_modifier") {
        Some(c) => Some(c),
        None => match find_child_of_kind(nodes, cs, "function_modifiers") {
            Some(m) => {
                proof {
                    assert(node_wf(nodes@[m as int], m as int, nodes@.len(), text_len));
                }
                find_child_of_kind(nodes, &nodes[m].children, "extern_modifier")
            },
            None => None,
        },
    }
}

/// The ABI of the function at node `i`.
fn extract_abi(nodes: &Vec<SyntaxNode>, src: &[u8], i: usize) -> (r: String)
    requires
        nodes_wf(nodes@, src@.len()),
        i < nodes@.len(),
    ensures
        r@ == abi_of(nodes@, src@, i as int),
{
    proof {
        assert(node_wf(nodes@[i as int], i as int, nodes@.len(), src@.len()));
    }
    match find_extern_modifier(nodes, &nodes[i].children, Ghost(src@.len())) {
        Some(c) => {
            proof {
                assert(node_wf(nodes@[c as int], c as int, nodes@.len(), src@.len()));
            }
            return match abi_text(src, &nodes[c]) {
                Some(q) => q,
                None => String::from_str("C"),
            };
        },
        None => {},
    }
    let mut cur = nodes[i].parent;
    loop
        invariant
            nodes_wf(nodes@, src@.len()),
            i < nodes@.len(),
            own_extern_modifier(nodes@, nodes@[i as int].children@) is None,
            -1 <= parent_index(cur) < nodes@.len(),
            abi_of(nodes@, src@, i as int) == abi_from(nodes@, src@, parent_index(cur)),
        decreases parent_index(cur) + 1,
    {
        match cur {
            None => return String::from_str("C"),
            Some(x) => {
                proof {
                    assert(node_wf(nodes@[x as int], x as int, nodes@.len(), src@.len()));
                }
                let kind = nodes[x].kind.as_str();
                if crate::text::str_eq(kind, "foreign_mod_item") || crate::text::str_eq(
                    kind,
                    "extern_block",
                ) || crate::text::str_eq(kind, "extern_modifier") {
                    let cs = &nodes[x].children;
                    assert(is_extern_container(nodes@[x as int].kind@));
                    assert(abi_of(nodes@, src@, i as int) == (match first_quoted(
                        nodes@,
                        src@,
                        cs@,
                    ) {
                        Some(q) => q,
                        None => "C"@,
                    }));
                    let mut j: usize = 0;
                    assert(cs@.skip(0) =~= cs@);
                    while j < cs.len()
                        invariant
                            nodes_wf(nodes@, src@.len()),
                            x < nodes@.len(),
                            cs@ == nodes@[x as int].children@,
                            abi_of(nodes@, src@, i as int) == (match first_quoted(
                                nodes@,
                                src@,
                                cs@,
                            ) {
                                Some(q) => q,
                                None => "C"@,
                            }),
                            0 <= j <= cs.len(),
                            first_quoted(nodes@, src@, cs@) == first_quoted(
                                nodes@,
                                src@,
                                cs@.skip(j as int),
                            ),
                        decreases cs.len() - j,
                    {
                        let c = cs[j];
                        proof {
                            assert(node_wf(nodes@[x as int], x as int, nodes@.len(), src@.len()));
                            assert(c < nodes@.len());
                            assert(node_wf(nodes@[c as int], c as int, nodes@.len(), src@.len()));
                        }
                        assert(cs@.skip(j as int).drop_first() =~= cs@.skip(j + 1));
                        assert(cs@.skip(j as int)[0] == c);
                        let ck = nodes[c].kind.as_str();
                        if crate::text::str_eq(ck, "extern_modifier") || crate::text::str_eq(
                            ck,
                            "string_literal",
                        ) {
                            match abi_text(src, &nodes[c]) {
                                Some(q) => {
                                    assert(first_quoted(nodes@, src@, cs@.skip(j as int)) == Some(
                                        q@,
                                    ));
                                    return q;
                                },
                                None => {},
                            }
                        }
                        j += 1;
                    }
                    assert(cs@.skip(j as int) =~= Seq::<usize>::empty());
                    return String::from_str("C");
                }
                cur = nodes[x].parent;
            },
        }
    }
}

/// The text of the node `o` names, or the empty text.
fn text_of_child(nodes: &Vec<SyntaxNode>, src: &[u8], o: Option<usize>) -> (r: String)
    requires
        nodes_wf(nodes@, src@.len()),
        o matches Some(c) ==> c < nodes@.len(),
    ensures
        r@ == opt_text(nodes@, src@, o),
{
    match o {
        Some(c) => {
            proof {
                assert(node_wf(nodes@[c as int], c as int, nodes@.len(), src@.len()));
            }
            text_of(src, &nodes[c])
        },
        None => String::new(),
    }
}

/// The parameters among the children `cs`.
fn extract_params(nodes: &Vec<SyntaxNode>, src: &[u8], cs: &Vec<usize>) -> (r: Vec<FnParam>)
    requires
        nodes_wf(nodes@, src@.len()),
        children_in(nodes@, cs@),
    ensures
        r@.map_values(|p: FnParam| p@) == params_of(nodes@, src@, cs@),
{
    let mut params: Vec<FnParam> = Vec::new();
    let mut j: usize = 0;
    while j < cs.len()
        invariant
            nodes_wf(nodes@, src@.len()),
            children_in(nodes@, cs@),
            0 <= j <= cs.len(),
            params@.map_values(|p: FnParam| p@) == params_of(nodes@, src@, cs@.take(j as int)),
        decreases cs.len() - j,
    {
        let c = cs[j];
        assert(cs@.take(j + 1).drop_last() =~= cs@.take(j as int));
        assert(cs@.take(j + 1).last() == c);
        proof {
            assert(node_wf(nodes@[c as int], c as int, nodes@.len(), src@.len()));
        }
        let ghost before = params@;
        if crate::text::str_eq(nodes[c].kind.as_str(), "parameter") {
            let text = text_of(src, &nodes[c]);
            let chars = to_chars(text.as_str());
            let is_mut_ptr = contains_str(&chars, "*mut ");
            let is_const_ptr = contains_str(&chars, "*const ");
            let ident = find_child_of_kind(nodes, &nodes[c].children, "identifier");
            let name = text_of_child(nodes, src, ident);
            params.push(FnParam { name, ty: text, is_mut_ptr, is_const_ptr });
            assert(params@.map_values(|p: FnParam| p@) =~= before.map_values(|p: FnParam| p@)
                + seq![param_at(nodes@, src@, c as int)]);
        } else {
            assert(params@.map_values(|p: FnParam| p@) =~= before.map_values(|p: FnParam| p@)
                + Seq::<FnParamView>::empty());
        }
        j += 1;
    }
    assert(cs@.take(cs.len() as int) =~= cs@);
    params
}

/// Whether some child in `cs` is a `function_modifiers` node mentioning `unsafe`.
fn any_unsafe_modifier(nodes: &Vec<SyntaxNode>, src: &[u8], cs: &Vec<usize>) -> (r: bool)
    requires
        nodes_wf(nodes@, src@.len()),
        children_in(nodes@, cs@),
    ensures
        r == has_unsafe_modifier(nodes@, src@, cs@),
{
    let mut j: usize = 0;
    while j < cs.len()
        invariant
            nodes_wf(nodes@, src@.len()),
            children_in(nodes@, cs@),
            0 <= j <= cs.len(),
            forall|k: int|
                0 <= k < j ==> !(nodes@[#[trigger] cs@[k] as int].kind@ == "function_modifiers"@
                    && contains_seq(node_text(src@, nodes@[cs@[k] as int]), "unsafe"@)),
        decreases cs.len() - j,
    {
        let c = cs[j];
        proof {
            assert(node_wf(nodes@[c as int], c as int, nodes@.len(), src@.len()));
        }
        if crate::text::str_eq(nodes[c].kind.as_str(), "function_modifiers") {
            let text = text_of(src, &nodes[c]);
            let chars = to_chars(text.as_str());
            if contains_str(&chars, "unsafe") {
                assert(cs@[j as int] == c);
                return true;
            }
        }
        j += 1;
    }
    false
}

/// The `extern` function at node `i`, if it is one.
fn extract_extern_fn(nodes: &Vec<SyntaxNode>, src: &[u8], i: usize) -> (r: Option<ExternFn>)
    requires
        nodes_wf(nodes@, src@.len()),
        i < nodes@.len(),
    ensures
        match r {
            Some(ef) => extern_fn_at(nodes@, src@, i as int) == Some(ef@),
            None => extern_fn_at(nodes@, src@, i as int) is None,
        },
{
    proof {
        assert(node_wf(nodes@[i as int], i as int, nodes@.len(), src@.len()));
    }
    let node = &nodes[i];
    let is_extern = in_extern_block(nodes, i, Ghost(src@.len()));
    let is_standalone_extern = if !is_extern {
        find_extern_modifier(nodes, &node.children, Ghost(src@.len())).is_some()
    } else {
        false
    };
    if !is_extern && !is_standalone_extern {
        return None;
    }
    let name = text_of_child(nodes, src, find_child_with_field(nodes, &node.children, "name"));
    let params = match find_child_with_field(nodes, &node.children, "parameters") {
        Some(p) => {
            proof {
                assert(node_wf(nodes@[p as int], p as int, nodes@.len(), src@.len()));
            }
            extract_params(nodes, src, &nodes[p].children)
        },
        None => Vec::new(),
    };
    let ret_type = text_of_child(
        nodes,
        src,
        find_child_with_field(nodes, &node.children, "return_type"),
    );
    let ef = ExternFn {
        name,
        line: node.start_row + 1,
        column: node.start_column + 1,
        abi: extract_abi(nodes, src, i),
        params,
        ret_type,
        is_unsafe: any_unsafe_modifier(nodes, src, &node.children),
    };
    assert(ef@.params =~= extern_fn_at(nodes@, src@, i as int).unwrap().params);
    Some(ef)
}

// ---------------------------------------------------------------------------
// unsafe blocks
// ---------------------------------------------------------------------------

/// `b` with ASCII capitals made lower case.
pub open spec fn ascii_lower(b: Seq<u8>) -> Seq<u8> {
    b.map_values(|x: u8| if 65 <= x <= 90 { (x + 32) as u8 } else { x })
}

/// The bytes of an ASCII text.
pub open spec fn ascii_bytes(s: Seq<char>) -> Seq<u8> {
    s.map_values(|c: char| c as u8)
}

/// The offset where the line holding offset `p` of `src` begins.
pub open spec fn line_begin(src: Seq<u8>, p: nat) -> nat
    decreases p,
{
    if p == 0 || p > src.len() || src[p - 1] == 10u8 {
        p
    } else {
        line_begin(src, (p - 1) as nat)
    }
}

/// The number of spaces and tabs that `line` begins with.
pub open spec fn lead_blanks(line: Seq<u8>) -> nat
    decreases line.len(),
{
    if line.len() > 0 && (line[0] == 32u8 || line[0] == 9u8) {
        1 + lead_blanks(line.drop_first())
    } else {
        0
    }
}

/// The line is a `//` comment, once its leading blanks are passed over.
pub open spec fn is_comment_line(line: Seq<u8>) -> bool {
    starts_with_seq(line.skip(lead_blanks(line) as int), ascii_bytes("//"@))
}

/// The line says it is a safety comment: `// safety`, `// safety:` or
/// `/// # safety`, in any case.
///
/// The bytes are compared after ASCII lower-casing. For these ASCII markers
/// this is the same as searching the lower-cased text of the bytes decoded
/// with replacement characters: decoding keeps every ASCII byte in place, and
/// no non-ASCII character lower-cases to one of the markers' characters.
pub open spec fn marks_safety(line: Seq<u8>) -> bool {
    let w = ascii_lower(line);
    ||| contains_seq(w, ascii_bytes("// safety"@))
    ||| contains_seq(w, ascii_bytes("// safety:"@))
    ||| contains_seq(w, ascii_bytes("/// # safety"@))
}

/// Among the `//` comment lines that stand directly above the line beginning
/// at offset `b` (up to the first line that is not such a comment), one is a
/// safety comment.
pub open spec fn safety_comment_above(src: Seq<u8>, b: nat) -> bool
    decreases b,
{
    if b == 0 || b > src.len() {
        false
    } else {
        let e = (b - 1) as nat;
        let lb = line_begin(src, e);
        let line = src.subrange(lb as int, e as int);
        if lb >= b || !is_comment_line(line) {
            false
        } else {
            marks_safety(line) || safety_comment_above(src, lb)
        }
    }
}

/// The block starting at offset `start` of `src` has a safety comment
/// directly above the line it starts on.
pub open spec fn safety_comment_before(src: Seq<u8>, start: usize) -> bool {
    safety_comment_above(src, line_begin(src, start as nat))
}

/// The unsafe block at node `i`.
pub open spec fn unsafe_block_at(ns: Seq<SyntaxNode>, src: Seq<u8>, i: int) -> UnsafeBlockView {
    let n = ns[i];
    let text = node_text(src, n);
    UnsafeBlockView {
        line: (n.start_row + 1) as usize,
        line_count: lines(text).len() as usize,
        has_safety_comment: safety_comment_before(src, n.start_byte),
        block_text: text,
    }
}

/// The bytes of `w` with ASCII capitals made lower case.
fn lower_ascii_bytes(w: &[u8]) -> (r: Vec<u8>)
    ensures
        r@ == ascii_lower(w@),
{
    let mut r: Vec<u8> = Vec::new();
    let mut i: usize = 0;
    while i < w.len()
        invariant
            0 <= i <= w.len(),
            r@ == ascii_lower(w@.take(i as int)),
        decreases w.len() - i,
    {
        let x = w[i];
        let y = if 65 <= x && x <= 90 {
            x + 32
        } else {
            x
        };
        r.push(y);
        assert(ascii_lower(w@.take(i + 1)) =~= ascii_lower(w@.take(i as int)).push(y));
        i += 1;
    }
    assert(w@.take(w.len() as int) =~= w@);
    r
}

/// The bytes of the ASCII text `s`.
fn bytes_of_ascii(s: &str) -> (r: Vec<u8>)
    ensures
        r@ == ascii_bytes(s@),
{
    let chars = to_chars(s);
    let mut r: Vec<u8> = Vec::new();
    let mut i: usize = 0;
    while i < chars.len()
        invariant
            0 <= i <= chars.len(),
            chars@ == s@,
            r@ == ascii_bytes(chars@.take(i as int)),
        decreases chars.len() - i,
    {
        let b = chars[i] as u8;
        r.push(b);
        assert(ascii_bytes(chars@.take(i + 1)) =~= ascii_bytes(chars@.take(i as int)).push(b));
        i += 1;
    }
    assert(chars@.take(chars.len() as int) =~= chars@);
    r
}

/// The offset where the line holding offset `p` begins.
fn line_start(src: &[u8], p: usize) -> (r: usize)
    requires
        p <= src@.len(),
    ensures
        r == line_begin(src@, p as nat),
        r <= p,
{
    let mut q = p;
    while q > 0 && src[q - 1] != 10u8
        invariant
            q <= p <= src@.len(),
            line_begin(src@, p as nat) == line_begin(src@, q as nat),
        decreases q,
    {
        q -= 1;
    }
    q
}

/// Whether `line` is a `//` comment line.
fn comment_line(line: &[u8]) -> (r: bool)
    ensures
        r == is_comment_line(line@),
{
    let mut k: usize = 0;
    assert(line@.skip(0) =~= line@);
    while k < line.len() && (line[k] == 32u8 || line[k] == 9u8)
        invariant
            0 <= k <= line@.len(),
            lead_blanks(line@) == k + lead_blanks(line@.skip(k as int)),
        decreases line@.len() - k,
    {
        assert(line@.skip(k as int).drop_first() =~= line@.skip(k + 1));
        k += 1;
    }
    assert(lead_blanks(line@.skip(k as int)) == 0);
    let rest = &line[k..line.len()];
    assert(rest@ =~= line@.skip(k as int));
    let slashes = bytes_of_ascii("//");
    occurs_at_bytes(rest, slashes.as_slice(), 0)
}

/// Whether `line` is a safety comment.
fn safety_marker(line: &[u8]) -> (r: bool)
    ensures
        r == marks_safety(line@),
{
    let w = lower_ascii_bytes(line);
    contains_bytes(w.as_slice(), bytes_of_ascii("// safety").as_slice()) || contains_bytes(
        w.as_slice(),
        bytes_of_ascii("// safety:").as_slice(),
    ) || contains_bytes(w.as_slice(), bytes_of_ascii("/// # safety").as_slice())
}

/// Whether a safety comment stands directly above the line holding offset `start`.
fn has_safety_comment(src: &[u8], start: usize) -> (r: bool)
    requires
        start <= src@.len(),
    ensures
        r == safety_comment_before(src@, start),
{
    let mut b = line_start(src, start);
    while b > 0
        invariant
            b <= src@.len(),
            safety_comment_before(src@, start) == safety_comment_above(src@, b as nat),
        decreases b,
    {
        let e = b - 1;
        let lb = line_start(src, e);
        let line = &src[lb..e];
        assert(line@ =~= src@.subrange(lb as int, e as int));
        if !comment_line(line) {
            return false;
        }
        if safety_marker(line) {
            return true;
        }
        b = lb;
    }
    false
}

/// The unsafe block at node `i`.
fn extract_unsafe_block(nodes: &Vec<SyntaxNode>, src: &[u8], i: usize) -> (r: UnsafeBlock)
    requires
        nodes_wf(nodes@, src@.len()),
        i < nodes@.len(),
    ensures
        r@ == unsafe_block_at(nodes@, src@, i as int),
{
    proof {
        assert(node_wf(nodes@[i as int], i as int, nodes@.len(), src@.len()));
    }
    let node = &nodes[i];
    let block_text = text_of(src, node);
    let chars = to_chars(block_text.as_str());
    let line_count = split_lines(&chars).len();
    UnsafeBlock {
        line: node.start_row + 1,
        line_count,
        has_safety_comment: has_safety_comment(src, node.start_byte),
        block_text,
    }
}

// ---------------------------------------------------------------------------
// #[repr(C)] structs
// ---------------------------------------------------------------------------

/// The attribute node `a` says `repr` and `C`, as `#[repr(C)]` does.
pub open spec fn attr_says_repr_c(src: Seq<u8>, a: SyntaxNode) -> bool {
    let w = src.subrange(a.start_byte as int, a.end_byte as int);
    contains_seq(w, ascii_bytes("repr"@)) && contains_seq(w, ascii_bytes("C"@))
}

/// Among the attributes written right before position `j` of the sibling list
/// `cs` (comments between them passed over), one says `repr` and `C`.
pub open spec fn attrs_mark_repr_c(ns: Seq<SyntaxNode>, src: Seq<u8>, cs: Seq<usize>, j: nat) -> bool
    decreases j,
{
    if j == 0 || j > cs.len() {
        false
    } else {
        let a = ns[cs[j - 1] as int];
        if a.kind@ == "attribute_item"@ {
            attr_says_repr_c(src, a) || attrs_mark_repr_c(ns, src, cs, (j - 1) as nat)
        } else if a.kind@ == "line_comment"@ || a.kind@ == "block_comment"@ {
            attrs_mark_repr_c(ns, src, cs, (j - 1) as nat)
        } else {
            false
        }
    }
}

/// The last position of `x` in `cs`.
pub open spec fn child_pos(cs: Seq<usize>, x: usize) -> Option<nat>
    decreases cs.len(),
{
    if cs.len() == 0 {
        None
    } else if cs.last() == x {
        Some((cs.len() - 1) as nat)
    } else {
        child_pos(cs.drop_last(), x)
    }
}

/// The declaration at node `i` carries a `#[repr(C)]` attribute: one of the
/// attributes written right before it among its parent's children.
pub open spec fn repr_c_marked(ns: Seq<SyntaxNode>, src: Seq<u8>, i: int) -> bool {
    match ns[i].parent {
        None => false,
        Some(p) => match child_pos(ns[p as int].children@, i as usize) {
            Some(j) => attrs_mark_repr_c(ns, src, ns[p as int].children@, j),
            None => false,
        },
    }
}

/// The trait text `t` names `Drop`.
pub open spec fn is_drop_path(t: Seq<char>) -> bool {
    t == "Drop"@ || t == "std::ops::Drop"@ || t == "core::ops::Drop"@
}

/// The type text `t` is the type `name`, possibly with generic arguments.
pub open spec fn names_type(t: Seq<char>, name: Seq<char>) -> bool {
    t == name || starts_with_seq(t, name + "<"@)
}

/// Node `k` is an `impl Drop for <name>` block.
pub open spec fn drop_impl_at(ns: Seq<SyntaxNode>, src: Seq<u8>, k: int, name: Seq<char>) -> bool {
    &&& ns[k].kind@ == "impl_item"@
    &&& is_drop_path(opt_text(ns, src, first_with_field(ns, ns[k].children@, "trait"@)))
    &&& names_type(opt_text(ns, src, first_with_field(ns, ns[k].children@, "type"@)), name)
}

/// The file implements `Drop` for the type `name`.
pub open spec fn has_drop_impl_for(ns: Seq<SyntaxNode>, src: Seq<u8>, name: Seq<char>) -> bool {
    exists|k: int| 0 <= k < ns.len() && #[trigger] drop_impl_at(ns, src, k, name)
}


/// The number of `field_declaration` nodes among `cs`.
pub open spec fn decl_count(ns: Seq<SyntaxNode>, cs: Seq<usize>) -> nat
    decreases cs.len(),
{
    if cs.len() == 0 {
        0
    } else {
        decl_count(ns, cs.drop_last()) + if ns[cs.last() as int].kind@ == "field_declaration"@ {
            1nat
        } else {
            0nat
        }
    }
}

/// The number of fields of a tuple struct among the children `cs` of its
/// `ordered_field_declaration_list`: those held under the field name `type`.
pub open spec fn tuple_field_count(ns: Seq<SyntaxNode>, cs: Seq<usize>) -> nat
    decreases cs.len(),
{
    if cs.len() == 0 {
        0
    } else {
        tuple_field_count(ns, cs.drop_last()) + if ns[cs.last() as int].field matches Some(f) && f@
            == "type"@ {
            1nat
        } else {
            0nat
        }
    }
}

/// The name of the field declared at node `c`: the text of its first
/// `field_identifier`, when there is one and its bytes are valid UTF-8.
pub open spec fn decl_name(ns: Seq<SyntaxNode>, src: Seq<u8>, c: int) -> Option<Seq<char>> {
    match first_of_kind(ns, ns[c].children@, "field_identifier"@) {
        Some(f) => {
            let n = ns[f as int];
            if valid_utf8(src.subrange(n.start_byte as int, n.end_byte as int)) {
                Some(node_text(src, n))
            } else {
                None
            }
        },
        None => None,
    }
}

/// The names of the fields declared among `cs`.
pub open spec fn decl_names(ns: Seq<SyntaxNode>, src: Seq<u8>, cs: Seq<usize>) -> Seq<Seq<char>>
    decreases cs.len(),
{
    if cs.len() == 0 {
        seq![]
    } else {
        decl_names(ns, src, cs.drop_last()) + if ns[cs.last() as int].kind@ == "field_declaration"@ {
            opt_seq(decl_name(ns, src, cs.last() as int))
        } else {
            seq![]
        }
    }
}

/// What the children of a struct declaration give: its name (the text of the
/// first `type_identifier` met while no name is known), the number of fields
/// (named ones and those of a tuple struct) and the names of the named ones.
pub struct StructScan {
    pub name: Seq<char>,
    pub count: nat,
    pub names: Seq<Seq<char>>,
}

/// The scan of the children `cs` of a struct declaration.
pub open spec fn struct_scan(ns: Seq<SyntaxNode>, src: Seq<u8>, cs: Seq<usize>) -> StructScan
    decreases cs.len(),
{
    if cs.len() == 0 {
        StructScan { name: seq![], count: 0, names: seq![] }
    } else {
        let prev = struct_scan(ns, src, cs.drop_last());
        let c = ns[cs.last() as int];
        if c.kind@ == "type_identifier"@ && prev.name.len() == 0 {
            StructScan { name: node_text(src, c), ..prev }
        } else if c.kind@ == "field_declaration_list"@ {
            StructScan {
                count: prev.count + decl_count(ns, c.children@),
                names: prev.names + decl_names(ns, src, c.children@),
                ..prev
            }
        } else if c.kind@ == "ordered_field_declaration_list"@ {
            StructScan { count: prev.count + tuple_field_count(ns, c.children@), ..prev }
        } else {
            prev
        }
    }
}

/// The `#[repr(C)]` struct at node `i`, if its declaration is marked so.
/// Its drop handling is in order when the file implements `Drop` for it, or
/// when its text mentions no raw pointer, so that there is nothing to free.
pub open spec fn repr_c_struct_at(ns: Seq<SyntaxNode>, src: Seq<u8>, i: int) -> Option<ReprCStructView> {
    let n = ns[i];
    if !repr_c_marked(ns, src, i) {
        None
    } else {
        let scan = struct_scan(ns, src, n.children@);
        let text = node_text(src, n);
        Some(
            ReprCStructView {
                name: scan.name,
                line: (n.start_row + 1) as usize,
                field_count: scan.count as usize,
                field_names: scan.names,
                has_drop_impl: has_drop_impl_for(ns, src, scan.name) || !(contains_seq(text, "*mut "@)
                    || contains_seq(text, "*const "@)),
            },
        )
    }
}

/// The field declarations among `cs`, and the names of those that have one.
fn field_declarations(nodes: &Vec<SyntaxNode>, src: &[u8], cs: &Vec<usize>) -> (r: (
    Vec<usize>,
    Vec<String>,
))
    requires
        nodes_wf(nodes@, src@.len()),
        children_in(nodes@, cs@),
    ensures
        r.0@.len() == decl_count(nodes@, cs@),
        string_views(r.1@) == decl_names(nodes@, src@, cs@),
{
    let mut decls: Vec<usize> = Vec::new();
    let mut names: Vec<String> = Vec::new();
    let mut j: usize = 0;
    while j < cs.len()
        invariant
            nodes_wf(nodes@, src@.len()),
            children_in(nodes@, cs@),
            0 <= j <= cs.len(),
            decls@.len() == decl_count(nodes@, cs@.take(j as int)),
            string_views(names@) == decl_names(nodes@, src@, cs@.take(j as int)),
        decreases cs.len() - j,
    {
        let c = cs[j];
        assert(cs@.take(j + 1).drop_last() =~= cs@.take(j as int));
        assert(cs@.take(j + 1).last() == c);
        proof {
            assert(node_wf(nodes@[c as int], c as int, nodes@.len(), src@.len()));
        }
        let ghost before = names@;
        if crate::text::str_eq(nodes[c].kind.as_str(), "field_declaration") {
            decls.push(c);
            match find_child_of_kind(nodes, &nodes[c].children, "field_identifier") {
                Some(f) => {
                    proof {
                        assert(node_wf(nodes@[f as int], f as int, nodes@.len(), src@.len()));
                    }
                    match text_of_opt(src, &nodes[f]) {
                        Some(name) => {
                            names.push(name);
                            assert(string_views(names@) =~= string_views(before) + opt_seq(
                                decl_name(nodes@, src@, c as int),
                            ));
                        },
                        None => {
                            assert(string_views(names@) =~= string_views(before) + opt_seq(
                                decl_name(nodes@, src@, c as int),
                            ));
                        },
                    }
                },
                None => {
                    assert(string_views(names@) =~= string_views(before) + opt_seq(
                        decl_name(nodes@, src@, c as int),
                    ));
                },
            }
        } else {
            assert(string_views(names@) =~= string_views(before) + Seq::<Seq<char>>::empty());
        }
        j += 1;
    }
    assert(cs@.take(cs.len() as int) =~= cs@);
    (decls, names)
}

/// The fields of a tuple struct among the children `cs` of its field list.
fn tuple_fields(nodes: &Vec<SyntaxNode>, cs: &Vec<usize>) -> (r: Vec<usize>)
    requires
        children_in(nodes@, cs@),
    ensures
        r@.len() == tuple_field_count(nodes@, cs@),
{
    let mut found: Vec<usize> = Vec::new();
    let mut j: usize = 0;
    while j < cs.len()
        invariant
            children_in(nodes@, cs@),
            0 <= j <= cs.len(),
            found@.len() == tuple_field_count(nodes@, cs@.take(j as int)),
        decreases cs.len() - j,
    {
        let c = cs[j];
        assert(cs@.take(j + 1).drop_last() =~= cs@.take(j as int));
        assert(cs@.take(j + 1).last() == c);
        match &nodes[c].field {
            Some(f) => {
                if crate::text::str_eq(f.as_str(), "type") {
                    found.push(c);
                }
            },
            None => {},
        }
        j += 1;
    }
    assert(cs@.take(cs.len() as int) =~= cs@);
    found
}

/// Whether attribute node `a` says `repr` and `C`.
fn attr_is_repr_c(src: &[u8], a: &SyntaxNode) -> (r: bool)
    requires
        a.start_byte <= a.end_byte <= src@.len(),
    ensures
        r == attr_says_repr_c(src@, *a),
{
    let w = &src[a.start_byte..a.end_byte];
    contains_bytes(w, bytes_of_ascii("repr").as_slice()) && contains_bytes(w, bytes_of_ascii("C").as_slice())
}

/// Whether the declaration at node `i` carries a `#[repr(C)]` attribute.
fn is_repr_c_marked(nodes: &Vec<SyntaxNode>, src: &[u8], i: usize) -> (r: bool)
    requires
        nodes_wf(nodes@, src@.len()),
        i < nodes@.len(),
    ensures
        r == repr_c_marked(nodes@, src@, i as int),
{
    proof {
        assert(node_wf(nodes@[i as int], i as int, nodes@.len(), src@.len()));
    }
    let p = match nodes[i].parent {
        None => return false,
        Some(p) => p,
    };
    proof {
        assert(node_wf(nodes@[p as int], p as int, nodes@.len(), src@.len()));
    }
    let cs = &nodes[p].children;
    let mut k: usize = cs.len();
    assert(cs@.take(k as int) =~= cs@);
    while k > 0 && cs[k - 1] != i
        invariant
            0 <= k <= cs@.len(),
            child_pos(cs@, i) == child_pos(cs@.take(k as int), i),
        decreases k,
    {
        assert(cs@.take(k as int).drop_last() =~= cs@.take(k - 1));
        k -= 1;
    }
    if k == 0 {
        assert(cs@.take(0) =~= Seq::<usize>::empty());
        return false;
    }
    let j = k - 1;
    assert(child_pos(cs@.take(k as int), i) == Some(j as nat));
    assert(repr_c_marked(nodes@, src@, i as int) == attrs_mark_repr_c(nodes@, src@, cs@, j as nat));
    let mut m = j;
    while m > 0
        invariant
            nodes_wf(nodes@, src@.len()),
            children_in(nodes@, cs@),
            0 <= m <= j < cs@.len(),
            repr_c_marked(nodes@, src@, i as int) == attrs_mark_repr_c(nodes@, src@, cs@, j as nat),
            attrs_mark_repr_c(nodes@, src@, cs@, j as nat) == attrs_mark_repr_c(nodes@, src@, cs@, m as nat),
        decreases m,
    {
        let c = cs[m - 1];
        proof {
            assert(node_wf(nodes@[c as int], c as int, nodes@.len(), src@.len()));
        }
        let kind = nodes[c].kind.as_str();
        if crate::text::str_eq(kind, "attribute_item") {
            if attr_is_repr_c(src, &nodes[c]) {
                return true;
            }
        } else if !(crate::text::str_eq(kind, "line_comment") || crate::text::str_eq(kind, "block_comment")) {
            return false;
        }
        m -= 1;
    }
    false
}

/// Whether node `k` is an `impl Drop for <name>` block.
fn is_drop_impl_at(nodes: &Vec<SyntaxNode>, src: &[u8], k: usize, name: &str) -> (r: bool)
    requires
        nodes_wf(nodes@, src@.len()),
        k < nodes@.len(),
    ensures
        r == drop_impl_at(nodes@, src@, k as int, name@),
{
    proof {
        assert(node_wf(nodes@[k as int], k as int, nodes@.len(), src@.len()));
        reveal_strlit("<");
    }
    if !crate::text::str_eq(nodes[k].kind.as_str(), "impl_item") {
        return false;
    }
    let cs = &nodes[k].children;
    let tr = text_of_child(nodes, src, find_child_with_field(nodes, cs, "trait"));
    let tr = tr.as_str();
    if !(crate::text::str_eq(tr, "Drop") || crate::text::str_eq(tr, "std::ops::Drop")
        || crate::text::str_eq(tr, "core::ops::Drop")) {
        return false;
    }
    let ty = text_of_child(nodes, src, find_child_with_field(nodes, cs, "type"));
    let ty = ty.as_str();
    if crate::text::str_eq(ty, name) {
        return true;
    }
    let mut prefix = name.to_owned();
    prefix.append("<");
    let tyc = to_chars(ty);
    starts_with_str(&tyc, prefix.as_str())
}

/// Whether the file implements `Drop` for the type `name`.
fn find_drop_impl(nodes: &Vec<SyntaxNode>, src: &[u8], name: &str) -> (r: bool)
    requires
        nodes_wf(nodes@, src@.len()),
    ensures
        r == has_drop_impl_for(nodes@, src@, name@),
{
    let mut k: usize = 0;
    while k < nodes.len()
        invariant
            nodes_wf(nodes@, src@.len()),
            0 <= k <= nodes@.len(),
            forall|q: int| 0 <= q < k ==> !drop_impl_at(nodes@, src@, q, name@),
        decreases nodes@.len() - k,
    {
        if is_drop_impl_at(nodes, src, k, name) {
            return true;
        }
        k += 1;
    }
    false
}

/// The `#[repr(C)]` struct at node `i`, if it is one.
fn extract_repr_c_struct(nodes: &Vec<SyntaxNode>, src: &[u8], i: usize) -> (r: Option<ReprCStruct>)
    requires
        nodes_wf(nodes@, src@.len()),
        i < nodes@.len(),
    ensures
        match r {
            Some(s) => repr_c_struct_at(nodes@, src@, i as int) == Some(s@),
            None => repr_c_struct_at(nodes@, src@, i as int) is None,
        },
{
    proof {
        assert(node_wf(nodes@[i as int], i as int, nodes@.len(), src@.len()));
    }
    let node = &nodes[i];
    if !is_repr_c_marked(nodes, src, i) {
        return None;
    }
    let cs = &node.children;
    let mut name = String::new();
    let mut decls: Vec<usize> = Vec::new();
    let mut field_names: Vec<String> = Vec::new();
    let mut j: usize = 0;
    while j < cs.len()
        invariant
            nodes_wf(nodes@, src@.len()),
            children_in(nodes@, cs@),
            0 <= j <= cs.len(),
            ({
                let scan = struct_scan(nodes@, src@, cs@.take(j as int));
                &&& name@ == scan.name
                &&& decls@.len() == scan.count
                &&& string_views(field_names@) == scan.names
            }),
        decreases cs.len() - j,
    {
        let c = cs[j];
        assert(cs@.take(j + 1).drop_last() =~= cs@.take(j as int));
        assert(cs@.take(j + 1).last() == c);
        proof {
            assert(node_wf(nodes@[c as int], c as int, nodes@.len(), src@.len()));
        }
        let kind = nodes[c].kind.as_str();
        if crate::text::str_eq(kind, "type_identifier") && name.as_str().is_empty() {
            name = text_of(src, &nodes[c]);
        } else if crate::text::str_eq(kind, "field_declaration_list") {
            let (more_decls, more_names) = field_declarations(nodes, src, &nodes[c].children);
            let ghost d0 = decls@;
            let ghost n0 = field_names@;
            let mut k: usize = 0;
            while k < more_decls.len()
                invariant
                    0 <= k <= more_decls.len(),
                    decls@.len() == d0.len() + k,
                decreases more_decls.len() - k,
            {
                decls.push(more_decls[k]);
                k += 1;
            }
            let mut k: usize = 0;
            while k < more_names.len()
                invariant
                    0 <= k <= more_names.len(),
                    string_views(field_names@) == string_views(n0) + string_views(
                        more_names@.take(k as int),
                    ),
                decreases more_names.len() - k,
            {
                let ghost before = field_names@;
                field_names.push(more_names[k].clone());
                assert(string_views(more_names@.take(k + 1)) =~= string_views(
                    more_names@.take(k as int),
                ).push(more_names@[k as int]@));
                assert(string_views(field_names@) =~= string_views(before).push(
                    more_names@[k as int]@,
                ));
                k += 1;
            }
            assert(more_names@.take(more_names.len() as int) =~= more_names@);
        } else if crate::text::str_eq(kind, "ordered_field_declaration_list") {
            let more = tuple_fields(nodes, &nodes[c].children);
            let ghost d0 = decls@;
            let mut k: usize = 0;
            while k < more.len()
                invariant
                    0 <= k <= more.len(),
                    decls@.len() == d0.len() + k,
                decreases more.len() - k,
            {
                decls.push(more[k]);
                k += 1;
            }
        }
        j += 1;
    }
    assert(cs@.take(cs.len() as int) =~= cs@);
    let text = text_of(src, node);
    let chars = to_chars(text.as_str());
    let has_raw_ptr = contains_str(&chars, "*mut ") || contains_str(&chars, "*const ");
    let drop_impl = find_drop_impl(nodes, src, name.as_str());
    let s = ReprCStruct {
        name,
        line: node.start_row + 1,
        field_count: decls.len(),
        field_names,
        has_drop_impl: drop_impl || !has_raw_ptr,
    };
    Some(s)
}

// ---------------------------------------------------------------------------
// Files
// ---------------------------------------------------------------------------

/// A node of kind `k` is a function definition or signature.
pub open spec fn is_fn_kind(k: Seq<char>) -> bool {
    k == "function_item"@ || k == "function_signature_item"@
}

/// The `extern` functions among the first `k` nodes, in order.
pub open spec fn extern_fns_upto(ns: Seq<SyntaxNode>, src: Seq<u8>, k: nat) -> Seq<ExternFnView>
    decreases k,
{
    if k == 0 {
        seq![]
    } else {
        extern_fns_upto(ns, src, (k - 1) as nat) + if is_fn_kind(ns[k - 1].kind@) {
            opt_seq(extern_fn_at(ns, src, k - 1))
        } else {
            seq![]
        }
    }
}

/// The unsafe blocks among the first `k` nodes, in order.
pub open spec fn unsafe_blocks_upto(ns: Seq<SyntaxNode>, src: Seq<u8>, k: nat) -> Seq<UnsafeBlockView>
    decreases k,
{
    if k == 0 {
        seq![]
    } else {
        unsafe_blocks_upto(ns, src, (k - 1) as nat) + if ns[k - 1].kind@ == "unsafe_block"@ {
            seq![unsafe_block_at(ns, src, k - 1)]
        } else {
            seq![]
        }
    }
}

/// The `#[repr(C)]` structs among the first `k` nodes, in order.
pub open spec fn repr_c_structs_upto(ns: Seq<SyntaxNode>, src: Seq<u8>, k: nat) -> Seq<ReprCStructView>
    decreases k,
{
    if k == 0 {
        seq![]
    } else {
        repr_c_structs_upto(ns, src, (k - 1) as nat) + if ns[k - 1].kind@ == "struct_item"@ {
            opt_seq(repr_c_struct_at(ns, src, k - 1))
        } else {
            seq![]
        }
    }
}

/// What a file at `path` with text bytes `src` and syntax nodes `ns` holds:
/// its `extern` functions, unsafe blocks and `#[repr(C)]` structs, each in
/// the order of the tree.
pub open spec fn file_info_of(path: Seq<char>, src: Seq<u8>, ns: Seq<SyntaxNode>) -> FileInfoView {
    FileInfoView {
        path: path,
        extern_fns: extern_fns_upto(ns, src, ns.len()),
        unsafe_blocks: unsafe_blocks_upto(ns, src, ns.len()),
        repr_c_structs: repr_c_structs_upto(ns, src, ns.len()),
        ffi_typenames: seq![],
    }
}

/// The kinds of items that a file is searched for are different words.
proof fn lemma_item_kinds_distinct()
    ensures
        "function_item"@ != "unsafe_block"@,
        "function_item"@ != "struct_item"@,
        "function_signature_item"@ != "unsafe_block"@,
        "function_signature_item"@ != "struct_item"@,
        "unsafe_block"@ != "struct_item"@,
{
    reveal_strlit("function_item");
    reveal_strlit("function_signature_item");
    reveal_strlit("unsafe_block");
    reveal_strlit("struct_item");
    assert("function_item"@.len() == 13);
    assert("function_signature_item"@.len() == 23);
    assert("unsafe_block"@.len() == 12);
    assert("struct_item"@.len() == 11);
}

/// Extracts the FFI-relevant facts of the file at `path` whose text is
/// `source` and whose syntax tree is `tree`.
pub fn extract_file_info(path: &str, source: &str, tree: &SyntaxTree) -> (info: FileInfo)
    requires
        tree.wf(source.spec_bytes().len()),
    ensures
        info@ == file_info_of(path@, source.spec_bytes(), tree.nodes@),
{
    let src = source.as_bytes();
    let nodes = &tree.nodes;
    let mut extern_fns: Vec<ExternFn> = Vec::new();
    let mut unsafe_blocks: Vec<UnsafeBlock> = Vec::new();
    let mut repr_c_structs: Vec<ReprCStruct> = Vec::new();
    let mut i: usize = 0;
    while i < nodes.len()
        invariant
            nodes_wf(nodes@, src@.len()),
            0 <= i <= nodes.len(),
            extern_fns@.map_values(|e: ExternFn| e@) == extern_fns_upto(nodes@, src@, i as nat),
            unsafe_blocks@.map_values(|u: UnsafeBlock| u@) == unsafe_blocks_upto(
                nodes@,
                src@,
                i as nat,
            ),
            repr_c_structs@.map_values(|r: ReprCStruct| r@) == repr_c_structs_upto(
                nodes@,
                src@,
                i as nat,
            ),
        decreases nodes.len() - i,
    {
        let kind = nodes[i].kind.as_str();
        proof {
            lemma_item_kinds_distinct();
        }
        let ghost e0 = extern_fns@;
        let ghost u0 = unsafe_blocks@;
        let ghost r0 = repr_c_structs@;
        if crate::text::str_eq(kind, "function_item") || crate::text::str_eq(
            kind,
            "function_signature_item",
        ) {
            match extract_extern_fn(nodes, src, i) {
                Some(ef) => {
                    extern_fns.push(ef);
                },
                None => {},
            }
        } else if crate::text::str_eq(kind, "unsafe_block") {
            let ub = extract_unsafe_block(nodes, src, i);
            unsafe_blocks.push(ub);
        } else if crate::text::str_eq(kind, "struct_item") {
            match extract_repr_c_struct(nodes, src, i) {
                Some(s) => {
                    repr_c_structs.push(s);
                },
                None => {},
            }
        }
        assert(extern_fns@.map_values(|e: ExternFn| e@) =~= e0.map_values(|e: ExternFn| e@) + if is_fn_kind(
            nodes@[i as int].kind@,
        ) {
            opt_seq(extern_fn_at(nodes@, src@, i as int))
        } else {
            seq![]
        });
        assert(unsafe_blocks@.map_values(|u: UnsafeBlock| u@) =~= u0.map_values(
            |u: UnsafeBlock| u@,
        ) + if nodes@[i as int].kind@ == "unsafe_block"@ {
            seq![unsafe_block_at(nodes@, src@, i as int)]
        } else {
            seq![]
        });
        assert(repr_c_structs@.map_values(|r: ReprCStruct| r@) =~= r0.map_values(
            |r: ReprCStruct| r@,
        ) + if nodes@[i as int].kind@ == "struct_item"@ {
            opt_seq(repr_c_struct_at(nodes@, src@, i as int))
        } else {
            seq![]
        });
        i += 1;
    }
    let info = FileInfo {
        path: path.to_owned(),
        extern_fns,
        unsafe_blocks,
        repr_c_structs,
        ffi_typenames: Vec::new(),
    };
    assert(info@.ffi_typenames =~= Seq::<Seq<char>>::empty());
    info
}

// ---------------------------------------------------------------------------
// Checking a file
// ---------------------------------------------------------------------------

/// Some `extern` function of `info` takes a raw pointer.
pub open spec fn has_ffi_ptrs(info: FileInfo) -> bool {
    exists|k: int| 0 <= k < info.extern_fns@.len() && has_ptr_param(#[trigger] info.extern_fns@[k])
}

/// The findings for the first `k` `extern` functions: for each, its null-return
/// findings, then those of panics in its body.
pub open spec fn fn_issues_upto(fns: Seq<ExternFn>, k: nat, source: Seq<char>, path: Seq<char>) -> Seq<IssueView>
    decreases k,
{
    if k == 0 {
        seq![]
    } else {
        fn_issues_upto(fns, (k - 1) as nat, source, path) + null_return_issues(fns[k - 1], path)
            + body_panics_issues(fns[k - 1], source, path)
    }
}

/// The findings for the first `k` `#[repr(C)]` structs: missing-drop and
/// empty findings, then the transparent suggestion.
pub open spec fn struct_issues_upto(ss: Seq<ReprCStruct>, k: nat, path: Seq<char>) -> Seq<IssueView>
    decreases k,
{
    if k == 0 {
        seq![]
    } else {
        struct_issues_upto(ss, (k - 1) as nat, path) + repr_c_missing_issues(ss[k - 1], path)
            + transparent_issues(ss[k - 1], path)
    }
}

/// The findings for one unsafe block, in order: size, safety comment,
/// C strings unwrapped, slices from raw parts, unguarded dereferences.
pub open spec fn block_issues(ub: UnsafeBlock, path: Seq<char>, ptrs: bool) -> Seq<IssueView> {
    sprawl_issues(ub, path) + safety_doc_issues(ub, path) + cstring_issues(
        ub,
        ub.block_text@,
        path,
    ) + from_raw_parts_issues(ub, ub.block_text@, path, ptrs) + deref_issues(
        ub,
        ub.block_text@,
        path,
        ptrs,
    )
}

/// The findings for the first `k` unsafe blocks.
pub open spec fn block_issues_upto(ubs: Seq<UnsafeBlock>, k: nat, path: Seq<char>, ptrs: bool) -> Seq<IssueView>
    decreases k,
{
    if k == 0 {
        seq![]
    } else {
        block_issues_upto(ubs, (k - 1) as nat, path, ptrs) + block_issues(ubs[k - 1], path, ptrs)
    }
}

/// What [`Scanner::check_file`] reports, in order: callback types in the
/// source, the findings of each `extern` function, of each `#[repr(C)]`
/// struct, of each unsafe block, and the ownership findings.
pub open spec fn file_issues(info: FileInfo, source: Seq<char>) -> Seq<IssueView> {
    callback_types_issues(info.path@, source, contains_seq(source, "extern \"C\" fn"@))
        + fn_issues_upto(info.extern_fns@, info.extern_fns@.len(), source, info.path@)
        + struct_issues_upto(info.repr_c_structs@, info.repr_c_structs@.len(), info.path@)
        + block_issues_upto(
        info.unsafe_blocks@,
        info.unsafe_blocks@.len(),
        info.path@,
        has_ffi_ptrs(info),
    ) + ownership_issues_upto(info.extern_fns@, info.extern_fns@.len(), info.path@)
}

/// The line numbers of the lines of block `ub` fit in `usize`.
pub open spec fn block_lines_fit(ub: UnsafeBlock) -> bool {
    ub.line + lines(ub.block_text@).len() <= usize::MAX + 1
}

/// Each unsafe block that the line-by-line checks number fits in `usize`: those
/// that mention `CString::new`, and all of them when FFI pointers are about.
pub open spec fn blocks_numberable(info: FileInfo) -> bool {
    forall|k: int|
        0 <= k < info.unsafe_blocks@.len() ==> ((contains_seq(
            (#[trigger] info.unsafe_blocks@[k]).block_text@,
            "CString::new"@,
        ) || has_ffi_ptrs(info)) ==> block_lines_fit(info.unsafe_blocks@[k]))
}

/// Appends `more` to `issues`.
fn append_issues(issues: &mut Vec<Issue>, more: Vec<Issue>)
    ensures
        issue_views(final(issues)@) == issue_views(old(issues)@) + issue_views(more@),
{
    let mut more = more;
    let ghost a = issues@;
    let ghost b = more@;
    issues.append(&mut more);
    assert(issue_views(issues@) =~= issue_views(a) + issue_views(b));
}

/// Whether some `extern` function of `info` takes a raw pointer.
fn any_ffi_ptrs(info: &FileInfo) -> (r: bool)
    ensures
        r == has_ffi_ptrs(*info),
{
    let mut k: usize = 0;
    while k < info.extern_fns.len()
        invariant
            0 <= k <= info.extern_fns.len(),
            forall|j: int| 0 <= j < k ==> !has_ptr_param(#[trigger] info.extern_fns@[j]),
        decreases info.extern_fns.len() - k,
    {
        if takes_ptr_param(&info.extern_fns[k]) {
            assert(has_ptr_param(info.extern_fns@[k as int]));
            return true;
        }
        k += 1;
    }
    false
}

/// Run all safety checks on a parsed file whose text is `file_source`.
pub fn check_file_info(info: &FileInfo, file_source: &str) -> (r: Vec<Issue>)
    requires
        blocks_numberable(*info),
    ensures
        issue_views(r@) == file_issues(*info, file_source@),
{
    let path = info.path.as_str();
    let source = to_chars(file_source);
    let has_extern_c_types = contains_str(&source, "extern \"C\" fn");
    let mut issues = check_callback_types(path, file_source, has_extern_c_types);
    let ghost after_types = issues@;

    let mut k: usize = 0;
    assert(issue_views(issues@) =~= issue_views(after_types) + fn_issues_upto(
        info.extern_fns@,
        0,
        file_source@,
        info.path@,
    ));
    while k < info.extern_fns.len()
        invariant
            0 <= k <= info.extern_fns.len(),
            path@ == info.path@,
            issue_views(issues@) == issue_views(after_types) + fn_issues_upto(
                info.extern_fns@,
                k as nat,
                file_source@,
                info.path@,
            ),
        decreases info.extern_fns.len() - k,
    {
        let ef = &info.extern_fns[k];
        let ghost before = issues@;
        append_issues(&mut issues, check_extern_fn_null_return(ef, path));
        append_issues(&mut issues, check_callback_body_panics(ef, file_source, path));
        assert(issue_views(issues@) =~= issue_views(before) + null_return_issues(
            info.extern_fns@[k as int],
            info.path@,
        ) + body_panics_issues(info.extern_fns@[k as int], file_source@, info.path@));
        k += 1;
    }
    let ghost after_fns = issues@;

    let mut k: usize = 0;
    assert(issue_views(issues@) =~= issue_views(after_fns) + struct_issues_upto(
        info.repr_c_structs@,
        0,
        info.path@,
    ));
    while k < info.repr_c_structs.len()
        invariant
            0 <= k <= info.repr_c_structs.len(),
            path@ == info.path@,
            issue_views(issues@) == issue_views(after_fns) + struct_issues_upto(
                info.repr_c_structs@,
                k as nat,
                info.path@,
            ),
        decreases info.repr_c_structs.len() - k,
    {
        let s = &info.repr_c_structs[k];
        let ghost before = issues@;
        append_issues(&mut issues, check_repr_c_missing(s, path));
        append_issues(&mut issues, check_repr_transparent(s, path));
        assert(issue_views(issues@) =~= issue_views(before) + repr_c_missing_issues(
            info.repr_c_structs@[k as int],
            info.path@,
        ) + transparent_issues(info.repr_c_structs@[k as int], info.path@));
        k += 1;
    }
    let ghost after_structs = issues@;

    let ffi_ptrs = any_ffi_ptrs(info);
    let mut k: usize = 0;
    assert(issue_views(issues@) =~= issue_views(after_structs) + block_issues_upto(
        info.unsafe_blocks@,
        0,
        info.path@,
        ffi_ptrs,
    ));
    while k < info.unsafe_blocks.len()
        invariant
            0 <= k <= info.unsafe_blocks.len(),
            path@ == info.path@,
            blocks_numberable(*info),
            ffi_ptrs == has_ffi_ptrs(*info),
            issue_views(issues@) == issue_views(after_structs) + block_issues_upto(
                info.unsafe_blocks@,
                k as nat,
                info.path@,
                ffi_ptrs,
            ),
        decreases info.unsafe_blocks.len() - k,
    {
        let ub = &info.unsafe_blocks[k];
        assert(ub@ == info.unsafe_blocks@[k as int]@);
        let text = ub.block_text.as_str();
        let ghost before = issues@;
        append_issues(&mut issues, check_unsafe_sprawl(ub, path));
        append_issues(&mut issues, check_unsafe_without_safety_doc(ub, path));
        append_issues(&mut issues, check_cstring_unwrap(ub, text, path));
        append_issues(&mut issues, check_ffi_from_raw_parts(ub, text, path, ffi_ptrs));
        append_issues(&mut issues, check_ffi_ptr_deref(ub, text, path, ffi_ptrs));
        assert(issue_views(issues@) =~= issue_views(before) + block_issues(
            info.unsafe_blocks@[k as int],
            info.path@,
            ffi_ptrs,
        ));
        k += 1;
    }
    let ghost after_blocks = issues@;
    append_issues(&mut issues, check_ffi_ownership(info));
    assert(issue_views(issues@) =~= file_issues(*info, file_source@));
    issues
}

// ---------------------------------------------------------------------------
// Reports
// ---------------------------------------------------------------------------

/// The facts and findings of one scanned file.
#[derive(Debug)]
pub struct FileFindings {
    pub info: FileInfo,
    pub issues: Vec<Issue>,
}

#[verifier::external_type_specification]
#[verifier::external_body]
pub struct ExTomlError(toml::de::Error);

#[verifier::external_type_specification]
#[verifier::external_body]
pub struct ExTomlValue(toml::Value);

#[verifier::external_type_specification]
#[verifier::external_body]
#[verifier::reject_recursive_types(K)]
#[verifier::reject_recursive_types(V)]
pub struct ExTomlMap<K, V>(toml::map::Map<K, V>);

/// What stands here for a TOML value: a string, a table with its entries, or
/// a value of another kind.
pub enum TomlEntry {
    Str(Seq<char>),
    Table(Map<Seq<char>, TomlEntry>),
    Other,
}

/// The entries of a TOML table.
pub uninterp spec fn toml_entries(t: toml::Table) -> Map<Seq<char>, TomlEntry>;

/// The entries of the TOML table that `text` holds, or `None` when `text` is
/// not a valid TOML document.
pub uninterp spec fn toml_document(text: Seq<char>) -> Option<Map<Seq<char>, TomlEntry>>;

/// Parses `text` as a TOML table (`toml::from_str`): a table exactly when the
/// text is a valid TOML document, holding its entries.
#[verifier::external_body]
fn parse_toml_table(text: &str) -> (r: Result<toml::Table, toml::de::Error>)
    ensures
        r is Ok <==> toml_document(text@) is Some,
        r matches Ok(t) ==> toml_document(text@) == Some(toml_entries(t)),
{
    toml::from_str(text)
}

/// A TOML value as the lookup tells it apart.
pub enum TomlItem<'a> {
    Str(&'a str),
    Table(&'a toml::Table),
    Other,
}

/// The value that table `t` holds under `key` (`toml::map::Map::get`), told
/// apart as a string, a table or another kind of value.
#[verifier::external_body]
fn toml_get<'a>(t: &'a toml::Table, key: &str) -> (r: Option<TomlItem<'a>>)
    ensures
        r is Some <==> toml_entries(*t).dom().contains(key@),
        r matches Some(TomlItem::Str(s)) ==> toml_entries(*t)[key@] == TomlEntry::Str(s@),
        r matches Some(TomlItem::Table(u)) ==> toml_entries(*t)[key@] == TomlEntry::Table(
            toml_entries(*u),
        ),
        r matches Some(TomlItem::Other) ==> toml_entries(*t)[key@] == TomlEntry::Other,
{
    t.get(key).map(|v| match v {
        toml::Value::String(s) => TomlItem::Str(s.as_str()),
        toml::Value::Table(u) => TomlItem::Table(u),
        _ => TomlItem::Other,
    })
}

/// The string under `key` in `entries`, if there is one.
pub open spec fn string_entry(entries: Map<Seq<char>, TomlEntry>, key: Seq<char>) -> Option<Seq<char>> {
    if entries.dom().contains(key) {
        match entries[key] {
            TomlEntry::Str(s) => Some(s),
            _ => None,
        }
    } else {
        None
    }
}

/// The package name that a manifest's entries declare: the string
/// `package.name`, if there is one.
pub open spec fn package_name(doc: Map<Seq<char>, TomlEntry>) -> Option<Seq<char>> {
    if doc.dom().contains("package"@) {
        match doc["package"@] {
            TomlEntry::Table(p) => string_entry(p, "name"@),
            _ => None,
        }
    } else {
        None
    }
}

/// The name of the project rooted at `root` with manifest text `manifest`: its
/// package name, or the root itself when it declares none; `None` when the
/// manifest is not valid TOML.
pub open spec fn project_name(root: Seq<char>, manifest: Seq<char>) -> Option<Seq<char>> {
    match toml_document(manifest) {
        None => None,
        Some(doc) => Some(
            match package_name(doc) {
                Some(name) => name,
                None => root,
            },
        ),
    }
}

/// The name of the project rooted at `root` whose `Cargo.toml` reads `manifest`.
pub fn project_name_of(root: &str, manifest: &str) -> (r: Result<String, ScanError>)
    ensures
        match r {
            Ok(name) => project_name(root@, manifest@) == Some(name@),
            Err(e) => project_name(root@, manifest@) is None && e is Manifest,
        },
{
    let table = match parse_toml_table(manifest) {
        Ok(t) => t,
        Err(e) => return Err(ScanError::Manifest(e)),
    };
    let name = match toml_get(&table, "package") {
        Some(TomlItem::Table(p)) => match toml_get(p, "name") {
            Some(TomlItem::Str(n)) => Some(n.to_owned()),
            _ => None,
        },
        _ => None,
    };
    match name {
        Some(n) => Ok(n),
        None => Ok(root.to_owned()),
    }
}

/// Why a scan did not produce a report.
#[derive(Debug)]
pub enum ScanError {
    /// The Rust grammar could not be loaded into the parser.
    Language(tree_sitter::LanguageError),
    /// The project's `Cargo.toml` is not valid TOML.
    Manifest(toml::de::Error),
    /// A count or a line number would exceed `usize::MAX`.
    Overflow,
}

/// What a file adds to the report: its findings, then, if it has
/// `#[repr(C)]` structs, the findings of checking them against the headers.
pub open spec fn file_report_issues(f: FileFindings, headers: Option<CHeaders>) -> Seq<IssueView> {
    issue_views(f.issues@) + if f.info.repr_c_structs@.len() > 0 {
        layout_issues(f.info.repr_c_structs@, headers, f.info.path@)
    } else {
        seq![]
    }
}

/// What the first `k` files add to the report.
pub open spec fn report_issues_upto(files: Seq<FileFindings>, k: nat, headers: Option<CHeaders>) -> Seq<IssueView>
    decreases k,
{
    if k == 0 {
        seq![]
    } else {
        report_issues_upto(files, (k - 1) as nat, headers) + file_report_issues(files[k - 1], headers)
    }
}

/// The number of `extern` functions of the first `k` files.
pub open spec fn fns_total(files: Seq<FileFindings>, k: nat) -> nat
    decreases k,
{
    if k == 0 {
        0
    } else {
        fns_total(files, (k - 1) as nat) + files[k - 1].info.extern_fns@.len()
    }
}

/// The number of unsafe blocks of the first `k` files.
pub open spec fn blocks_total(files: Seq<FileFindings>, k: nat) -> nat
    decreases k,
{
    if k == 0 {
        0
    } else {
        blocks_total(files, (k - 1) as nat) + files[k - 1].info.unsafe_blocks@.len()
    }
}

/// The number of `#[repr(C)]` structs of the first `k` files.
pub open spec fn structs_total(files: Seq<FileFindings>, k: nat) -> nat
    decreases k,
{
    if k == 0 {
        0
    } else {
        structs_total(files, (k - 1) as nat) + files[k - 1].info.repr_c_structs@.len()
    }
}

/// Every count of a report built from `files` fits in `usize`.
pub open spec fn report_fits(files: Seq<FileFindings>, headers: Option<CHeaders>) -> bool {
    &&& fns_total(files, files.len()) <= usize::MAX
    &&& blocks_total(files, files.len()) <= usize::MAX
    &&& structs_total(files, files.len()) <= usize::MAX
    &&& report_issues_upto(files, files.len(), headers).len() <= usize::MAX
}

proof fn lemma_totals_monotone(files: Seq<FileFindings>, headers: Option<CHeaders>, k: nat, n: nat)
    requires
        k <= n,
    ensures
        fns_total(files, k) <= fns_total(files, n),
        blocks_total(files, k) <= blocks_total(files, n),
        structs_total(files, k) <= structs_total(files, n),
        report_issues_upto(files, k, headers).len() <= report_issues_upto(files, n, headers).len(),
    decreases n - k,
{
    if k < n {
        lemma_totals_monotone(files, headers, k, (n - 1) as nat);
    }
}

/// Adds `issue` to `report`, or answers `false` when a counter is full.
fn add_checked(report: &mut Report, issue: Issue) -> (ok: bool)
    requires
        old(report).wf(),
    ensures
        final(report).wf(),
        ok ==> final(report).issues@ == old(report).issues@.push(issue),
        !ok ==> final(report).issues@ == old(report).issues@,
        ok <==> old(report).issues@.len() < usize::MAX,
        final(report).project == old(report).project,
        final(report).stats.ffi_functions == old(report).stats.ffi_functions,
        final(report).stats.unsafe_blocks == old(report).stats.unsafe_blocks,
        final(report).stats.repr_c_structs == old(report).stats.repr_c_structs,
{
    if report.stats.total_issues == usize::MAX {
        return false;
    }
    proof {
        lemma_severity_counts_sum(report.issues@);
    }
    report.add(issue);
    true
}

/// Builds the report of `project` from the findings of its files: the counts
/// of functions, blocks and structs summed, and the findings of each file,
/// followed by those of its `#[repr(C)]` structs against `headers`, added in
/// order. Fails with [`ScanError::Overflow`] exactly when a count would not fit.
pub fn build_report(project: String, files: &Vec<FileFindings>, headers: Option<&CHeaders>) -> (r: Result<
    Report,
    ScanError,
>)
    ensures
        r is Ok <==> report_fits(
            files@,
            match headers {
                Some(h) => Some(*h),
                None => None,
            },
        ),
        r matches Err(e) ==> e is Overflow,
        r matches Ok(rep) ==> {
            let h = match headers {
                Some(h) => Some(*h),
                None => None,
            };
            &&& rep.wf()
            &&& rep.project@ == project@
            &&& issue_views(rep.issues@) == report_issues_upto(files@, files@.len(), h)
            &&& rep.stats.ffi_functions == fns_total(files@, files@.len())
            &&& rep.stats.unsafe_blocks == blocks_total(files@, files@.len())
            &&& rep.stats.repr_c_structs == structs_total(files@, files@.len())
        },
{
    let ghost h = match headers {
        Some(h) => Some(*h),
        None => None,
    };
    let ghost n = files@.len();
    let mut report = Report::new(project);
    let mut k: usize = 0;
    while k < files.len()
        invariant
            0 <= k <= files.len(),
            n == files@.len(),
            h == match headers {
                Some(h) => Some(*h),
                None => None,
            },
            report.wf(),
            report.project@ == project@,
            issue_views(report.issues@) == report_issues_upto(files@, k as nat, h),
            report.stats.ffi_functions == fns_total(files@, k as nat),
            report.stats.unsafe_blocks == blocks_total(files@, k as nat),
            report.stats.repr_c_structs == structs_total(files@, k as nat),
        decreases files.len() - k,
    {
        proof {
            lemma_totals_monotone(files@, h, (k + 1) as nat, n);
        }
        let f = &files[k];
        match report.stats.ffi_functions.checked_add(f.info.extern_fns.len()) {
            Some(v) => report.stats.ffi_functions = v,
            None => return Err(ScanError::Overflow),
        }
        match report.stats.unsafe_blocks.checked_add(f.info.unsafe_blocks.len()) {
            Some(v) => report.stats.unsafe_blocks = v,
            None => return Err(ScanError::Overflow),
        }
        match report.stats.repr_c_structs.checked_add(f.info.repr_c_structs.len()) {
            Some(v) => report.stats.repr_c_structs = v,
            None => return Err(ScanError::Overflow),
        }
        let ghost start = report.issues@;
        let mut j: usize = 0;
        while j < f.issues.len()
            invariant
                0 <= j <= f.issues.len(),
                k < files@.len(),
                n == files@.len(),
                issue_views(start) == report_issues_upto(files@, k as nat, h),
                report_issues_upto(files@, (k + 1) as nat, h).len() <= report_issues_upto(files@, n, h).len(),
                h == match headers {
                    Some(h) => Some(*h),
                    None => None,
                },
                files@[k as int] == *f,
                report.wf(),
                report.project@ == project@,
                issue_views(report.issues@) == issue_views(start) + issue_views(
                    f.issues@.take(j as int),
                ),
                report.stats.ffi_functions == fns_total(files@, (k + 1) as nat),
                report.stats.unsafe_blocks == blocks_total(files@, (k + 1) as nat),
                report.stats.repr_c_structs == structs_total(files@, (k + 1) as nat),
            decreases f.issues.len() - j,
        {
            let ghost before = report.issues@;
            if !add_checked(&mut report, copy_issue(&f.issues[j])) {
                proof {
                    let fr = file_report_issues(files@[k as int], h);
                    assert(report_issues_upto(files@, (k + 1) as nat, h) == report_issues_upto(
                        files@,
                        k as nat,
                        h,
                    ) + fr);
                    assert(issue_views(f.issues@).len() == f.issues@.len());
                    assert(fr.len() >= f.issues@.len());
                    assert(issue_views(start).len() == start.len());
                    assert(report.issues@.len() == usize::MAX);
                    assert(issue_views(report.issues@).len() == report.issues@.len());
                    assert(issue_views(f.issues@.take(j as int)).len() == j);
                    assert(report_issues_upto(files@, (k + 1) as nat, h).len() > usize::MAX);
                }
                return Err(ScanError::Overflow);
            }
            assert(issue_views(f.issues@.take(j + 1)) =~= issue_views(f.issues@.take(j as int)).push(
                f.issues@[j as int]@,
            ));
            assert(issue_views(report.issues@) =~= issue_views(before).push(f.issues@[j as int]@));
            j += 1;
        }
        assert(f.issues@.take(f.issues.len() as int) =~= f.issues@);
        if f.info.repr_c_structs.len() > 0 {
            let layout = check_repr_c_layout(f.info.repr_c_structs.as_slice(), headers, f.info.path.as_str());
            let ghost mid = report.issues@;
            let mut j: usize = 0;
            while j < layout.len()
                invariant
                    0 <= j <= layout.len(),
                    k < files@.len(),
                    n == files@.len(),
                    issue_views(start) == report_issues_upto(files@, k as nat, h),
                    report_issues_upto(files@, (k + 1) as nat, h).len() <= report_issues_upto(files@, n, h).len(),
                    h == match headers {
                        Some(h) => Some(*h),
                        None => None,
                    },
                    files@[k as int] == *f,
                    f.info.repr_c_structs@.len() > 0,
                    issue_views(layout@) == layout_issues(f.info.repr_c_structs@, h, f.info.path@),
                    issue_views(mid) == issue_views(start) + issue_views(f.issues@),
                    report.wf(),
                    report.project@ == project@,
                    issue_views(report.issues@) == issue_views(mid) + issue_views(
                        layout@.take(j as int),
                    ),
                    report.stats.ffi_functions == fns_total(files@, (k + 1) as nat),
                    report.stats.unsafe_blocks == blocks_total(files@, (k + 1) as nat),
                    report.stats.repr_c_structs == structs_total(files@, (k + 1) as nat),
                decreases layout.len() - j,
            {
                let ghost before = report.issues@;
                if !add_checked(&mut report, copy_issue(&layout[j])) {
                    proof {
                        let fr = file_report_issues(files@[k as int], h);
                        assert(report_issues_upto(files@, (k + 1) as nat, h)
                            == report_issues_upto(files@, k as nat, h) + fr);
                        assert(fr == issue_views(f.issues@) + layout_issues(
                            f.info.repr_c_structs@,
                            h,
                            f.info.path@,
                        ));
                        assert(report.issues@.len() == usize::MAX);
                        assert(issue_views(report.issues@).len() == report.issues@.len());
                        assert(issue_views(layout@.take(j as int)).len() == j);
                        assert(issue_views(mid).len() == mid.len());
                        assert(report_issues_upto(files@, (k + 1) as nat, h).len() > usize::MAX);
                    }
                    return Err(ScanError::Overflow);
                }
                assert(issue_views(layout@.take(j + 1)) =~= issue_views(layout@.take(j as int)).push(
                    layout@[j as int]@,
                ));
                assert(issue_views(report.issues@) =~= issue_views(before).push(layout@[j as int]@));
                j += 1;
            }
            assert(layout@.take(layout.len() as int) =~= layout@);
        }
        assert(issue_views(report.issues@) =~= report_issues_upto(files@, (k + 1) as nat, h));
        k += 1;
    }
    Ok(report)
}

/// `info` holds the facts of `source`, read out of the syntax tree that
/// tree-sitter-rust parses from its text.
pub open spec fn parsed_from(info: FileInfo, source: SourceFile) -> bool {
    facts_of_text(info, source.path@, source.text@)
}

/// `info` holds the facts that [`extract_file_info`] reads, for the file at
/// `path` with text `text`, out of the syntax tree that tree-sitter-rust
/// parses from that text. (The facts read only the contents of the nodes, so
/// every tree with those contents gives the same facts.)
pub open spec fn facts_of_text(info: FileInfo, path: Seq<char>, text: Seq<char>) -> bool {
    &&& info.path@ == path
    &&& exists|t: SyntaxTree|
        t.wf(encode_utf8(text).len()) && node_views(t.nodes@) == flat_tree(
            rust_syntax(text),
            encode_utf8(text).len() as usize,
        ) && info@ == file_info_of(path, encode_utf8(text), t.nodes@)
}

/// `f` is what scanning `source` gives: the facts parsed from it, whose
/// unsafe blocks can all be numbered, and the findings of checking them.
pub open spec fn scanned_from(f: FileFindings, source: SourceFile) -> bool {
    &&& parsed_from(f.info, source)
    &&& blocks_numberable(f.info)
    &&& issue_views(f.issues@) == file_issues(f.info, source.text@)
}

/// A scan of `sources` stops on a count too large for `usize` after the
/// findings `fs` of the sources before the one where it stops: either the
/// facts parsed from the next source have an unsafe block whose lines cannot
/// be numbered, or all sources were scanned and the report's counts do not fit.
pub open spec fn overflows_after(fs: Seq<FileFindings>, sources: Seq<SourceFile>, headers: Option<CHeaders>) -> bool {
    &&& fs.len() <= sources.len()
    &&& forall|k: int| 0 <= k < fs.len() ==> scanned_from(#[trigger] fs[k], sources[k])
    &&& if fs.len() < sources.len() {
        exists|info: FileInfo| #[trigger] parsed_from(info, sources[fs.len() as int]) && !blocks_numberable(info)
    } else {
        !report_fits(fs, headers)
    }
}

/// The headers behind an optional reference.
pub open spec fn headers_view(headers: Option<&CHeaders>) -> Option<CHeaders> {
    match headers {
        Some(h) => Some(*h),
        None => None,
    }
}

/// `rep` is the report of `project` built from the findings `fs` of `sources`,
/// one for each source in order, with `headers` for the layout checks.
pub open spec fn report_of(
    rep: Report,
    project: Seq<char>,
    fs: Seq<FileFindings>,
    sources: Seq<SourceFile>,
    headers: Option<CHeaders>,
) -> bool {
    &&& fs.len() == sources.len()
    &&& forall|k: int| 0 <= k < fs.len() ==> scanned_from(#[trigger] fs[k], sources[k])
    &&& rep.wf()
    &&& rep.project@ == project
    &&& issue_views(rep.issues@) == report_issues_upto(fs, fs.len(), headers)
    &&& rep.stats.ffi_functions == fns_total(fs, fs.len())
    &&& rep.stats.unsafe_blocks == blocks_total(fs, fs.len())
    &&& rep.stats.repr_c_structs == structs_total(fs, fs.len())
}

// ---------------------------------------------------------------------------
// The scanner
// ---------------------------------------------------------------------------

/// Whether the line-by-line checks can number the lines of every unsafe block of `info`
/// (the condition under which [`Scanner::check_file`] may be called).
pub fn numberable(info: &FileInfo) -> (r: bool)
    ensures
        r == blocks_numberable(*info),
{
    let ffi_ptrs = any_ffi_ptrs(info);
    let mut k: usize = 0;
    while k < info.unsafe_blocks.len()
        invariant
            0 <= k <= info.unsafe_blocks.len(),
            ffi_ptrs == has_ffi_ptrs(*info),
            forall|j: int|
                0 <= j < k ==> ((contains_seq(
                    (#[trigger] info.unsafe_blocks@[j]).block_text@,
                    "CString::new"@,
                ) || has_ffi_ptrs(*info)) ==> block_lines_fit(info.unsafe_blocks@[j])),
        decreases info.unsafe_blocks.len() - k,
    {
        let ub = &info.unsafe_blocks[k];
        let text = to_chars(ub.block_text.as_str());
        if ffi_ptrs || contains_str(&text, "CString::new") {
            let count = split_lines(&text).len();
            if count > 0 && count - 1 > usize::MAX - ub.line {
                return false;
            }
        }
        k += 1;
    }
    true
}

/// Parses Rust source files and checks them for FFI boundary issues.
pub struct Scanner {
    parser: RustParser,
}

impl Scanner {
    /// A scanner with the Rust grammar loaded; loading it does not fail.
    pub fn new() -> (r: Result<Self, ScanError>)
        ensures
            r is Ok,
    {
        match RustParser::new() {
            Ok(parser) => Ok(Self { parser }),
            Err(e) => Err(ScanError::Language(e)),
        }
    }

    /// Parse a single Rust source file with tree-sitter, extracting FFI-relevant info:
    /// the facts of [`extract_file_info`] for the syntax tree tree-sitter-rust
    /// parses from `source`.
    pub fn parse_file(&mut self, path: &str, source: &str) -> (info: FileInfo)
        ensures
            facts_of_text(info, path@, source@),
    {
        let tree = match parse_rust(&mut self.parser, source) {
            Some(ts_tree) => syntax_tree_of(&ts_tree, source.len()),
            None => SyntaxTree { nodes: Vec::new() },
        };
        let info = extract_file_info(path, source, &tree);
        assert(tree.wf(encode_utf8(source@).len()) && node_views(tree.nodes@) == flat_tree(
            rust_syntax(source@),
            encode_utf8(source@).len() as usize,
        ) && info@ == file_info_of(path@, encode_utf8(source@), tree.nodes@));
        info
    }

    /// Run all safety checks on a parsed file.
    pub fn check_file(&self, info: &FileInfo, file_source: &str) -> (r: Vec<Issue>)
        requires
            blocks_numberable(*info),
        ensures
            issue_views(r@) == file_issues(*info, file_source@),
    {
        check_file_info(info, file_source)
    }

    /// Scan the Rust sources of the project rooted at `project_root`, whose
    /// `Cargo.toml` reads `manifest`; with `headers`, also validate
    /// #[repr(C)] structs against the C struct definitions found there.
    pub fn scan_with_headers(
        &mut self,
        project_root: &str,
        manifest: &str,
        sources: &Vec<SourceFile>,
        headers: Option<&CHeaders>,
    ) -> (r: Result<Report, ScanError>)
        ensures
            r matches Err(e) && e is Manifest <==> project_name(project_root@, manifest@) is None,
            r matches Err(e) ==> e is Manifest || e is Overflow,
            r matches Ok(rep) ==> project_name(project_root@, manifest@) == Some(rep.project@)
                && exists|fs: Seq<FileFindings>|
                #[trigger] report_of(rep, rep.project@, fs, sources@, headers_view(headers)),
            r matches Err(e) && e is Overflow ==> project_name(project_root@, manifest@) is Some
                && exists|fs: Seq<FileFindings>| #[trigger] overflows_after(fs, sources@, headers_view(headers)),
    {
        let project = project_name_of(project_root, manifest)?;
        let mut files: Vec<FileFindings> = Vec::new();
        let mut k: usize = 0;
        while k < sources.len()
            invariant
                0 <= k <= sources.len(),
                files@.len() == k,
                forall|j: int| 0 <= j < k ==> scanned_from(#[trigger] files@[j], sources@[j]),
                project_name(project_root@, manifest@) == Some(project@),
            decreases sources.len() - k,
        {
            let source = &sources[k];
            let info = self.parse_file(source.path.as_str(), source.text.as_str());
            if !numberable(&info) {
                assert(parsed_from(info, sources@[k as int]));
                assert(overflows_after(files@, sources@, headers_view(headers)));
                return Err(ScanError::Overflow);
            }
            let issues = self.check_file(&info, source.text.as_str());
            let ghost before = files@;
            files.push(FileFindings { info, issues });
            assert(scanned_from(files@[k as int], sources@[k as int]));
            assert forall|j: int| 0 <= j <= k implies scanned_from(#[trigger] files@[j], sources@[j]) by {
                if j < k {
                    assert(files@[j] == before[j]);
                }
            }
            k += 1;
        }
        let ghost project_view = project@;
        let r = build_report(project, &files, headers);
        proof {
            if r is Ok {
                let rep = r->Ok_0;
                assert(report_of(rep, rep.project@, files@, sources@, headers_view(headers)));
                assert(rep.project@ == project_view);
            } else {
                assert(overflows_after(files@, sources@, headers_view(headers)));
            }
        }
        r
    }

    /// Backward-compatible scan without header validation.
    pub fn scan(&mut self, project_root: &str, manifest: &str, sources: &Vec<SourceFile>) -> (r: Result<
        Report,
        ScanError,
    >)
        ensures
            r matches Err(e) && e is Manifest <==> project_name(project_root@, manifest@) is None,
            r matches Err(e) ==> e is Manifest || e is Overflow,
            r matches Ok(rep) ==> project_name(project_root@, manifest@) == Some(rep.project@)
                && exists|fs: Seq<FileFindings>| #[trigger] report_of(rep, rep.project@, fs, sources@, None),
            r matches Err(e) && e is Overflow ==> project_name(project_root@, manifest@) is Some
                && exists|fs: Seq<FileFindings>| #[trigger] overflows_after(fs, sources@, None),
    {
        self.scan_with_headers(project_root, manifest, sources, None)
    }
}

} // verus!
