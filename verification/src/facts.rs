//! The facts read out of a syntax tree depend only on what its nodes hold:
//! two trees whose nodes have the same contents give the same facts. So the
//! facts of a text are one value, whichever tree with the parsed contents
//! they were read from.

use crate::scanner::{
    abi_from, abi_of, attrs_mark_repr_c, children_in, decl_count, decl_name, decl_names, drop_impl_at,
    extern_fn_at, extern_fns_upto, extern_from, facts_of_text, file_info_of, first_of_kind,
    first_quoted, first_with_field, has_drop_impl_for, has_unsafe_modifier, own_extern_modifier,
    param_at, params_of, repr_c_marked, repr_c_struct_at, repr_c_structs_upto, struct_scan,
    tuple_field_count, unsafe_block_at, unsafe_blocks_upto, FileInfo,
};
use crate::checks::repr_c_layout::{
    c_field_at, c_fields_of, c_node_searched, c_struct_at, c_structs_upto, fields_of_last_list,
    header_structs, is_struct_typedef, last_of_kind, struct_spec_name, typedef_scan, CStructView,
};
use crate::scanner::{report_of, scanned_from, FileFindings, SourceFile};
use crate::report::Report;
use crate::syntax::{node_view, node_views, node_wf, nodes_wf, SyntaxNode, SyntaxTree};
use vstd::prelude::*;

verus! {

/// `a` and `b` hold nodes with the same contents, position by position.
pub open spec fn same_nodes(a: Seq<SyntaxNode>, b: Seq<SyntaxNode>) -> bool {
    &&& a.len() == b.len()
    &&& forall|i: int| 0 <= i < a.len() ==> node_view(#[trigger] a[i]) == node_view(b[i])
}

proof fn lemma_same_nodes(a: Seq<SyntaxNode>, b: Seq<SyntaxNode>)
    requires
        node_views(a) == node_views(b),
    ensures
        same_nodes(a, b),
{
    assert(node_views(a).len() == a.len());
    assert(node_views(b).len() == b.len());
    assert forall|i: int| 0 <= i < a.len() implies node_view(#[trigger] a[i]) == node_view(b[i]) by {
        assert(node_views(a)[i] == node_view(a[i]));
        assert(node_views(b)[i] == node_view(b[i]));
    }
}

proof fn lemma_children_of(a: Seq<SyntaxNode>, len: nat, i: int)
    requires
        nodes_wf(a, len),
        0 <= i < a.len(),
    ensures
        children_in(a, a[i].children@),
{
    assert(node_wf(a[i], i, a.len(), len));
}

proof fn lemma_children_drop_first(a: Seq<SyntaxNode>, cs: Seq<usize>)
    requires
        children_in(a, cs),
        cs.len() > 0,
    ensures
        children_in(a, cs.drop_first()),
{
    assert forall|j: int| 0 <= j < cs.drop_first().len() implies #[trigger] cs.drop_first()[j] < a.len() by {
        assert(cs.drop_first()[j] == cs[j + 1]);
    }
}

proof fn lemma_children_drop_last(a: Seq<SyntaxNode>, cs: Seq<usize>)
    requires
        children_in(a, cs),
        cs.len() > 0,
    ensures
        children_in(a, cs.drop_last()),
{
    assert forall|j: int| 0 <= j < cs.drop_last().len() implies #[trigger] cs.drop_last()[j] < a.len() by {
        assert(cs.drop_last()[j] == cs[j]);
    }
}

proof fn lemma_first_of_kind(a: Seq<SyntaxNode>, b: Seq<SyntaxNode>, cs: Seq<usize>, k: Seq<char>)
    requires
        same_nodes(a, b),
        children_in(a, cs),
    ensures
        first_of_kind(a, cs, k) == first_of_kind(b, cs, k),
        first_of_kind(a, cs, k) matches Some(c) ==> c < a.len(),
    decreases cs.len(),
{
    if cs.len() > 0 {
        assert(node_view(a[cs[0] as int]) == node_view(b[cs[0] as int]));
        lemma_children_drop_first(a, cs);
        lemma_first_of_kind(a, b, cs.drop_first(), k);
    }
}

proof fn lemma_first_with_field(a: Seq<SyntaxNode>, b: Seq<SyntaxNode>, cs: Seq<usize>, f: Seq<char>)
    requires
        same_nodes(a, b),
        children_in(a, cs),
    ensures
        first_with_field(a, cs, f) == first_with_field(b, cs, f),
        first_with_field(a, cs, f) matches Some(c) ==> c < a.len(),
    decreases cs.len(),
{
    if cs.len() > 0 {
        assert(node_view(a[cs[0] as int]) == node_view(b[cs[0] as int]));
        lemma_children_drop_first(a, cs);
        lemma_first_with_field(a, b, cs.drop_first(), f);
    }
}

proof fn lemma_first_quoted(a: Seq<SyntaxNode>, b: Seq<SyntaxNode>, src: Seq<u8>, cs: Seq<usize>)
    requires
        same_nodes(a, b),
        children_in(a, cs),
    ensures
        first_quoted(a, src, cs) == first_quoted(b, src, cs),
    decreases cs.len(),
{
    if cs.len() > 0 {
        assert(node_view(a[cs[0] as int]) == node_view(b[cs[0] as int]));
        lemma_children_drop_first(a, cs);
        lemma_first_quoted(a, b, src, cs.drop_first());
    }
}

proof fn lemma_extern_from(a: Seq<SyntaxNode>, b: Seq<SyntaxNode>, len: nat, x: int)
    requires
        same_nodes(a, b),
        nodes_wf(a, len),
    ensures
        extern_from(a, x) == extern_from(b, x),
    decreases x + 1,
{
    if 0 <= x < a.len() {
        assert(node_view(a[x]) == node_view(b[x]));
        match a[x].parent {
            Some(q) => {
                if q < x {
                    lemma_extern_from(a, b, len, q as int);
                }
            },
            None => {},
        }
    }
}

proof fn lemma_abi_from(a: Seq<SyntaxNode>, b: Seq<SyntaxNode>, len: nat, src: Seq<u8>, x: int)
    requires
        same_nodes(a, b),
        nodes_wf(a, len),
    ensures
        abi_from(a, src, x) == abi_from(b, src, x),
    decreases x + 1,
{
    if 0 <= x < a.len() {
        assert(node_view(a[x]) == node_view(b[x]));
        lemma_children_of(a, len, x);
        lemma_first_quoted(a, b, src, a[x].children@);
        match a[x].parent {
            Some(q) => {
                if q < x {
                    lemma_abi_from(a, b, len, src, q as int);
                }
            },
            None => {},
        }
    }
}

proof fn lemma_params_of(a: Seq<SyntaxNode>, b: Seq<SyntaxNode>, len: nat, src: Seq<u8>, cs: Seq<usize>)
    requires
        same_nodes(a, b),
        nodes_wf(a, len),
        children_in(a, cs),
    ensures
        params_of(a, src, cs) == params_of(b, src, cs),
    decreases cs.len(),
{
    if cs.len() > 0 {
        let c = cs.last() as int;
        assert(node_view(a[c]) == node_view(b[c]));
        lemma_children_of(a, len, c);
        lemma_first_of_kind(a, b, a[c].children@, "identifier"@);
        match first_of_kind(a, a[c].children@, "identifier"@) {
            Some(d) => {
                assert(node_view(a[d as int]) == node_view(b[d as int]));
            },
            None => {},
        }
        assert(param_at(a, src, c) == param_at(b, src, c));
        lemma_children_drop_last(a, cs);
        lemma_params_of(a, b, len, src, cs.drop_last());
    }
}

proof fn lemma_has_unsafe_modifier(a: Seq<SyntaxNode>, b: Seq<SyntaxNode>, src: Seq<u8>, cs: Seq<usize>)
    requires
        same_nodes(a, b),
        children_in(a, cs),
    ensures
        has_unsafe_modifier(a, src, cs) == has_unsafe_modifier(b, src, cs),
{
    assert forall|j: int| 0 <= j < cs.len() implies node_view(a[#[trigger] cs[j] as int]) == node_view(
        b[cs[j] as int],
    ) by {}
}

proof fn lemma_extern_fn_at(a: Seq<SyntaxNode>, b: Seq<SyntaxNode>, len: nat, src: Seq<u8>, i: int)
    requires
        same_nodes(a, b),
        nodes_wf(a, len),
        0 <= i < a.len(),
    ensures
        extern_fn_at(a, src, i) == extern_fn_at(b, src, i),
{
    assert(node_view(a[i]) == node_view(b[i]));
    assert(node_wf(a[i], i, a.len(), len));
    let cs = a[i].children@;
    lemma_children_of(a, len, i);
    lemma_extern_from(a, b, len, crate::scanner::parent_index(a[i].parent));
    lemma_first_of_kind(a, b, cs, "extern_modifier"@);
    lemma_first_of_kind(a, b, cs, "function_modifiers"@);
    match first_of_kind(a, cs, "function_modifiers"@) {
        Some(m) => {
            assert(node_view(a[m as int]) == node_view(b[m as int]));
            lemma_children_of(a, len, m as int);
            lemma_first_of_kind(a, b, a[m as int].children@, "extern_modifier"@);
        },
        None => {},
    }
    assert(own_extern_modifier(a, cs) == own_extern_modifier(b, cs));
    match own_extern_modifier(a, cs) {
        Some(c) => {
            if first_of_kind(a, cs, "extern_modifier"@) is None {
                let m = first_of_kind(a, cs, "function_modifiers"@)->Some_0;
                lemma_children_of(a, len, m as int);
            }
            assert(c < a.len());
            assert(node_view(a[c as int]) == node_view(b[c as int]));
        },
        None => {},
    }
    lemma_abi_from(a, b, len, src, crate::scanner::parent_index(a[i].parent));
    assert(abi_of(a, src, i) == abi_of(b, src, i));
    lemma_first_with_field(a, b, cs, "name"@);
    match first_with_field(a, cs, "name"@) {
        Some(c) => {
            assert(node_view(a[c as int]) == node_view(b[c as int]));
        },
        None => {},
    }
    lemma_first_with_field(a, b, cs, "parameters"@);
    match first_with_field(a, cs, "parameters"@) {
        Some(p) => {
            assert(node_view(a[p as int]) == node_view(b[p as int]));
            lemma_children_of(a, len, p as int);
            lemma_params_of(a, b, len, src, a[p as int].children@);
        },
        None => {},
    }
    lemma_first_with_field(a, b, cs, "return_type"@);
    match first_with_field(a, cs, "return_type"@) {
        Some(c) => {
            assert(node_view(a[c as int]) == node_view(b[c as int]));
        },
        None => {},
    }
    lemma_has_unsafe_modifier(a, b, src, cs);
}

proof fn lemma_attrs_mark(a: Seq<SyntaxNode>, b: Seq<SyntaxNode>, src: Seq<u8>, cs: Seq<usize>, j: nat)
    requires
        same_nodes(a, b),
        children_in(a, cs),
    ensures
        attrs_mark_repr_c(a, src, cs, j) == attrs_mark_repr_c(b, src, cs, j),
    decreases j,
{
    if j > 0 && j <= cs.len() {
        assert(node_view(a[cs[j - 1] as int]) == node_view(b[cs[j - 1] as int]));
        lemma_attrs_mark(a, b, src, cs, (j - 1) as nat);
    }
}

proof fn lemma_decl_counts(a: Seq<SyntaxNode>, b: Seq<SyntaxNode>, len: nat, src: Seq<u8>, cs: Seq<usize>)
    requires
        same_nodes(a, b),
        nodes_wf(a, len),
        children_in(a, cs),
    ensures
        decl_count(a, cs) == decl_count(b, cs),
        tuple_field_count(a, cs) == tuple_field_count(b, cs),
        decl_names(a, src, cs) == decl_names(b, src, cs),
    decreases cs.len(),
{
    if cs.len() > 0 {
        let c = cs.last() as int;
        assert(node_view(a[c]) == node_view(b[c]));
        lemma_children_of(a, len, c);
        lemma_first_of_kind(a, b, a[c].children@, "field_identifier"@);
        match first_of_kind(a, a[c].children@, "field_identifier"@) {
            Some(d) => {
                assert(node_view(a[d as int]) == node_view(b[d as int]));
            },
            None => {},
        }
        assert(decl_name(a, src, c) == decl_name(b, src, c));
        lemma_children_drop_last(a, cs);
        lemma_decl_counts(a, b, len, src, cs.drop_last());
    }
}

proof fn lemma_struct_scan(a: Seq<SyntaxNode>, b: Seq<SyntaxNode>, len: nat, src: Seq<u8>, cs: Seq<usize>)
    requires
        same_nodes(a, b),
        nodes_wf(a, len),
        children_in(a, cs),
    ensures
        struct_scan(a, src, cs) == struct_scan(b, src, cs),
    decreases cs.len(),
{
    if cs.len() > 0 {
        let c = cs.last() as int;
        assert(node_view(a[c]) == node_view(b[c]));
        lemma_children_of(a, len, c);
        lemma_decl_counts(a, b, len, src, a[c].children@);
        lemma_children_drop_last(a, cs);
        lemma_struct_scan(a, b, len, src, cs.drop_last());
    }
}

proof fn lemma_has_drop_impl(a: Seq<SyntaxNode>, b: Seq<SyntaxNode>, len: nat, src: Seq<u8>, name: Seq<char>)
    requires
        same_nodes(a, b),
        nodes_wf(a, len),
    ensures
        has_drop_impl_for(a, src, name) == has_drop_impl_for(b, src, name),
{
    assert forall|k: int| 0 <= k < a.len() implies #[trigger] drop_impl_at(a, src, k, name) == drop_impl_at(
        b,
        src,
        k,
        name,
    ) by {
        assert(node_view(a[k]) == node_view(b[k]));
        lemma_children_of(a, len, k);
        lemma_first_with_field(a, b, a[k].children@, "trait"@);
        lemma_first_with_field(a, b, a[k].children@, "type"@);
        match first_with_field(a, a[k].children@, "trait"@) {
            Some(c) => {
                assert(node_view(a[c as int]) == node_view(b[c as int]));
            },
            None => {},
        }
        match first_with_field(a, a[k].children@, "type"@) {
            Some(c) => {
                assert(node_view(a[c as int]) == node_view(b[c as int]));
            },
            None => {},
        }
    }
    if has_drop_impl_for(a, src, name) {
        let k = choose|k: int| 0 <= k < a.len() && #[trigger] drop_impl_at(a, src, k, name);
        assert(drop_impl_at(b, src, k, name));
    }
    if has_drop_impl_for(b, src, name) {
        let k = choose|k: int| 0 <= k < b.len() && #[trigger] drop_impl_at(b, src, k, name);
        assert(drop_impl_at(a, src, k, name) == drop_impl_at(b, src, k, name));
    }
}

proof fn lemma_repr_c_struct_at(a: Seq<SyntaxNode>, b: Seq<SyntaxNode>, len: nat, src: Seq<u8>, i: int)
    requires
        same_nodes(a, b),
        nodes_wf(a, len),
        0 <= i < a.len(),
    ensures
        repr_c_struct_at(a, src, i) == repr_c_struct_at(b, src, i),
{
    assert(node_view(a[i]) == node_view(b[i]));
    assert(node_wf(a[i], i, a.len(), len));
    match a[i].parent {
        Some(p) => {
            assert(node_view(a[p as int]) == node_view(b[p as int]));
            lemma_children_of(a, len, p as int);
            match crate::scanner::child_pos(a[p as int].children@, i as usize) {
                Some(j) => {
                    lemma_attrs_mark(a, b, src, a[p as int].children@, j);
                },
                None => {},
            }
        },
        None => {},
    }
    assert(repr_c_marked(a, src, i) == repr_c_marked(b, src, i));
    lemma_children_of(a, len, i);
    lemma_struct_scan(a, b, len, src, a[i].children@);
    lemma_has_drop_impl(a, b, len, src, struct_scan(a, src, a[i].children@).name);
}

proof fn lemma_uptos(a: Seq<SyntaxNode>, b: Seq<SyntaxNode>, len: nat, src: Seq<u8>, k: nat)
    requires
        same_nodes(a, b),
        nodes_wf(a, len),
        k <= a.len(),
    ensures
        extern_fns_upto(a, src, k) == extern_fns_upto(b, src, k),
        unsafe_blocks_upto(a, src, k) == unsafe_blocks_upto(b, src, k),
        repr_c_structs_upto(a, src, k) == repr_c_structs_upto(b, src, k),
    decreases k,
{
    if k > 0 {
        let i = k - 1;
        lemma_uptos(a, b, len, src, (k - 1) as nat);
        assert(node_view(a[i]) == node_view(b[i]));
        lemma_extern_fn_at(a, b, len, src, i);
        assert(unsafe_block_at(a, src, i) == unsafe_block_at(b, src, i));
        lemma_repr_c_struct_at(a, b, len, src, i);
    }
}

/// Two well-formed syntax trees whose nodes hold the same contents give the same facts.
pub proof fn lemma_facts_by_contents(path: Seq<char>, src: Seq<u8>, a: Seq<SyntaxNode>, b: Seq<SyntaxNode>, len: nat)
    requires
        nodes_wf(a, len),
        node_views(a) == node_views(b),
    ensures
        file_info_of(path, src, a) == file_info_of(path, src, b),
{
    lemma_same_nodes(a, b);
    lemma_uptos(a, b, len, src, a.len());
}

/// The facts of a text are one value: two facts read from a file's text,
/// as [`crate::Scanner::parse_file`] and a scan read them, agree.
pub proof fn law_facts_of_text_are_unique(x: FileInfo, y: FileInfo, path: Seq<char>, text: Seq<char>)
    requires
        facts_of_text(x, path, text),
        facts_of_text(y, path, text),
    ensures
        x@ == y@,
{
    let bytes = vstd::utf8::encode_utf8(text);
    let tx = choose|t: SyntaxTree|
        t.wf(bytes.len()) && node_views(t.nodes@) == crate::syntax::flat_tree(
            crate::syntax::rust_syntax(text),
            bytes.len() as usize,
        ) && x@ == file_info_of(path, bytes, t.nodes@);
    let ty = choose|t: SyntaxTree|
        t.wf(bytes.len()) && node_views(t.nodes@) == crate::syntax::flat_tree(
            crate::syntax::rust_syntax(text),
            bytes.len() as usize,
        ) && y@ == file_info_of(path, bytes, t.nodes@);
    lemma_facts_by_contents(path, bytes, tx.nodes@, ty.nodes@, bytes.len());
}


/// A scan reads each file as [`crate::Scanner::parse_file`] does: the facts a
/// report was built from for source `k` are those that parsing that source gives.
pub proof fn law_scan_reads_what_parse_file_reads(
    rep: Report,
    project: Seq<char>,
    fs: Seq<FileFindings>,
    sources: Seq<SourceFile>,
    headers: Option<crate::checks::CHeaders>,
    k: int,
    parsed: FileInfo,
)
    requires
        report_of(rep, project, fs, sources, headers),
        0 <= k < sources.len(),
        facts_of_text(parsed, sources[k].path@, sources[k].text@),
    ensures
        fs[k].info@ == parsed@,
{
    assert(scanned_from(fs[k], sources[k]));
    law_facts_of_text_are_unique(fs[k].info, parsed, sources[k].path@, sources[k].text@);
}

proof fn lemma_c_fields_of(a: Seq<SyntaxNode>, b: Seq<SyntaxNode>, src: Seq<u8>, cs: Seq<usize>)
    requires
        same_nodes(a, b),
        children_in(a, cs),
    ensures
        c_fields_of(a, src, cs) == c_fields_of(b, src, cs),
    decreases cs.len(),
{
    if cs.len() > 0 {
        let c = cs.last() as int;
        assert(node_view(a[c]) == node_view(b[c]));
        assert(c_field_at(a, src, c) == c_field_at(b, src, c));
        lemma_children_drop_last(a, cs);
        lemma_c_fields_of(a, b, src, cs.drop_last());
    }
}

proof fn lemma_last_of_kind(a: Seq<SyntaxNode>, b: Seq<SyntaxNode>, cs: Seq<usize>, k: Seq<char>)
    requires
        same_nodes(a, b),
        children_in(a, cs),
    ensures
        last_of_kind(a, cs, k) == last_of_kind(b, cs, k),
        last_of_kind(a, cs, k) matches Some(c) ==> c < a.len(),
    decreases cs.len(),
{
    if cs.len() > 0 {
        assert(node_view(a[cs.last() as int]) == node_view(b[cs.last() as int]));
        lemma_children_drop_last(a, cs);
        lemma_last_of_kind(a, b, cs.drop_last(), k);
    }
}

proof fn lemma_fields_of_last_list(
    a: Seq<SyntaxNode>,
    b: Seq<SyntaxNode>,
    len: nat,
    src: Seq<u8>,
    cs: Seq<usize>,
    prev: Seq<crate::checks::repr_c_layout::CFieldView>,
)
    requires
        same_nodes(a, b),
        nodes_wf(a, len),
        children_in(a, cs),
    ensures
        fields_of_last_list(a, src, cs, prev) == fields_of_last_list(b, src, cs, prev),
{
    lemma_last_of_kind(a, b, cs, "field_declaration_list"@);
    match last_of_kind(a, cs, "field_declaration_list"@) {
        Some(f) => {
            assert(node_view(a[f as int]) == node_view(b[f as int]));
            lemma_children_of(a, len, f as int);
            lemma_c_fields_of(a, b, src, a[f as int].children@);
        },
        None => {},
    }
}

proof fn lemma_typedef_scan(a: Seq<SyntaxNode>, b: Seq<SyntaxNode>, len: nat, src: Seq<u8>, cs: Seq<usize>)
    requires
        same_nodes(a, b),
        nodes_wf(a, len),
        children_in(a, cs),
    ensures
        typedef_scan(a, src, cs) == typedef_scan(b, src, cs),
        struct_spec_name(a, src, cs) == struct_spec_name(b, src, cs),
    decreases cs.len(),
{
    if cs.len() > 0 {
        let c = cs.last() as int;
        assert(node_view(a[c]) == node_view(b[c]));
        lemma_children_drop_last(a, cs);
        lemma_typedef_scan(a, b, len, src, cs.drop_last());
        lemma_children_of(a, len, c);
        lemma_fields_of_last_list(a, b, len, src, a[c].children@, typedef_scan(a, src, cs.drop_last()).fields);
    }
}

proof fn lemma_c_node_searched(a: Seq<SyntaxNode>, b: Seq<SyntaxNode>, len: nat, src: Seq<u8>, i: int)
    requires
        same_nodes(a, b),
        nodes_wf(a, len),
        i < a.len(),
    ensures
        c_node_searched(a, src, i) == c_node_searched(b, src, i),
    decreases i,
{
    if i >= 0 {
        assert(node_view(a[i]) == node_view(b[i]));
        match a[i].parent {
            Some(p) => {
                if p < i {
                    lemma_c_node_searched(a, b, len, src, p as int);
                    assert(node_view(a[p as int]) == node_view(b[p as int]));
                    lemma_children_of(a, len, p as int);
                    lemma_typedef_scan(a, b, len, src, a[p as int].children@);
                    assert(is_struct_typedef(a, src, p as int) == is_struct_typedef(b, src, p as int));
                }
            },
            None => {},
        }
    }
}

proof fn lemma_c_structs_upto(a: Seq<SyntaxNode>, b: Seq<SyntaxNode>, len: nat, src: Seq<u8>, file: Seq<char>, k: nat)
    requires
        same_nodes(a, b),
        nodes_wf(a, len),
        k <= a.len(),
    ensures
        c_structs_upto(a, src, file, k) == c_structs_upto(b, src, file, k),
    decreases k,
{
    if k > 0 {
        let i = k - 1;
        lemma_c_structs_upto(a, b, len, src, file, (k - 1) as nat);
        assert(node_view(a[i]) == node_view(b[i]));
        lemma_c_node_searched(a, b, len, src, i);
        lemma_children_of(a, len, i);
        lemma_typedef_scan(a, b, len, src, a[i].children@);
        lemma_last_of_kind(a, b, a[i].children@, "field_declaration_list"@);
        lemma_fields_of_last_list(a, b, len, src, a[i].children@, seq![]);
        assert(c_struct_at(a, src, file, i) == c_struct_at(b, src, file, i));
    }
}

/// The structs a header's text gives are one value, whichever tree with the
/// parsed contents they were read from.
pub proof fn law_header_structs_are_unique(x: Seq<CStructView>, y: Seq<CStructView>, file: SourceFile)
    requires
        header_structs(x, file),
        header_structs(y, file),
    ensures
        x == y,
{
    let bytes = vstd::utf8::encode_utf8(file.text@);
    let tx = choose|t: SyntaxTree|
        t.wf(bytes.len()) && node_views(t.nodes@) == crate::syntax::flat_tree(
            crate::syntax::c_syntax(file.text@),
            bytes.len() as usize,
        ) && x == c_structs_upto(t.nodes@, bytes, file.path@, t.nodes@.len());
    let ty = choose|t: SyntaxTree|
        t.wf(bytes.len()) && node_views(t.nodes@) == crate::syntax::flat_tree(
            crate::syntax::c_syntax(file.text@),
            bytes.len() as usize,
        ) && y == c_structs_upto(t.nodes@, bytes, file.path@, t.nodes@.len());
    lemma_same_nodes(tx.nodes@, ty.nodes@);
    assert(node_views(tx.nodes@).len() == tx.nodes@.len());
    assert(node_views(ty.nodes@).len() == ty.nodes@.len());
    lemma_c_structs_upto(tx.nodes@, ty.nodes@, bytes.len(), bytes, file.path@, tx.nodes@.len());
}

} // verus!
