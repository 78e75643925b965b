//! Syntax trees as the checks read them, and their construction from the
//! trees that tree-sitter builds.
//!
//! A [`SyntaxTree`] lists the named nodes of a parse tree in preorder. Each
//! node records its kind, the field under which its parent holds it, its
//! parent, its named children in order, its byte range in the parsed text and
//! the row and column where it starts.

use vstd::prelude::*;
use vstd::utf8::{decode_utf8, valid_utf8};

verus! {

/// One named node of a syntax tree.
#[derive(Debug, Clone)]
pub struct SyntaxNode {
    pub kind: String,
    pub field: Option<String>,
    pub parent: Option<usize>,
    pub children: Vec<usize>,
    pub start_byte: usize,
    pub end_byte: usize,
    pub start_row: usize,
    pub start_column: usize,
}

/// The named nodes of a parse tree, in preorder; the root comes first.
#[derive(Debug, Clone)]
pub struct SyntaxTree {
    pub nodes: Vec<SyntaxNode>,
}

impl SyntaxTree {
    /// Parents come before their children, children are nodes of the tree,
    /// byte ranges lie inside a text of `text_len` bytes, and rows and columns
    /// leave room for the one-based numbers reported.
    pub open spec fn wf(&self, text_len: nat) -> bool {
        nodes_wf(self.nodes@, text_len)
    }
}

/// Every node of `ns` meets [`node_wf`].
pub open spec fn nodes_wf(ns: Seq<SyntaxNode>, text_len: nat) -> bool {
    forall|i: int| 0 <= i < ns.len() ==> node_wf(#[trigger] ns[i], i, ns.len(), text_len)
}

/// The conditions on node `n` at position `i` of a tree of `count` nodes.
pub open spec fn node_wf(n: SyntaxNode, i: int, count: nat, text_len: nat) -> bool {
    &&& n.parent matches Some(p) ==> p < i
    &&& forall|j: int| 0 <= j < n.children@.len() ==> #[trigger] n.children@[j] < count
    &&& n.start_byte <= n.end_byte <= text_len
    &&& n.start_row < usize::MAX
    &&& n.start_column < usize::MAX
}

/// The text of `n` in the bytes `src`: the bytes of its range decoded as
/// UTF-8, or `default` where they are not valid UTF-8.
pub open spec fn node_text_or(src: Seq<u8>, n: SyntaxNode, default: Seq<char>) -> Seq<char> {
    let b = src.subrange(n.start_byte as int, n.end_byte as int);
    if valid_utf8(b) {
        decode_utf8(b)
    } else {
        default
    }
}

/// The text of `n` in `src`, or the empty text where it is not valid UTF-8.
pub open spec fn node_text(src: Seq<u8>, n: SyntaxNode) -> Seq<char> {
    node_text_or(src, n, Seq::empty())
}

/// The bytes decoded as UTF-8 (`std::str::from_utf8`), when they are valid UTF-8.
#[verifier::external_body]
fn utf8_to_string(bytes: &[u8]) -> (r: Option<String>)
    ensures
        r is Some <==> valid_utf8(bytes@),
        r matches Some(s) ==> s@ == decode_utf8(bytes@),
{
    std::str::from_utf8(bytes).ok().map(|s| s.to_string())
}

/// The text of `n` in `src`, or `default` where its bytes are not valid UTF-8.
pub fn text_of_or(src: &[u8], n: &SyntaxNode, default: &str) -> (r: String)
    requires
        n.start_byte <= n.end_byte <= src@.len(),
    ensures
        r@ == node_text_or(src@, *n, default@),
{
    let bytes = &src[n.start_byte..n.end_byte];
    match utf8_to_string(bytes) {
        Some(s) => s,
        None => default.to_owned(),
    }
}

/// The text of `n` in `src`, or the empty text where its bytes are not valid UTF-8.
pub fn text_of(src: &[u8], n: &SyntaxNode) -> (r: String)
    requires
        n.start_byte <= n.end_byte <= src@.len(),
    ensures
        r@ == node_text(src@, *n),
{
    proof {
        reveal_strlit("");
        assert(""@ =~= Seq::<char>::empty());
    }
    text_of_or(src, n, "")
}

/// The text of `n` in `src`, where its bytes are valid UTF-8.
pub fn text_of_opt(src: &[u8], n: &SyntaxNode) -> (r: Option<String>)
    requires
        n.start_byte <= n.end_byte <= src@.len(),
    ensures
        r is Some <==> valid_utf8(src@.subrange(n.start_byte as int, n.end_byte as int)),
        r matches Some(s) ==> s@ == node_text(src@, *n),
{
    let bytes = &src[n.start_byte..n.end_byte];
    utf8_to_string(bytes)
}

// ---------------------------------------------------------------------------
// The views of syntax nodes
// ---------------------------------------------------------------------------

/// The content of a [`SyntaxNode`].
pub struct SyntaxNodeView {
    pub kind: Seq<char>,
    pub field: Option<Seq<char>>,
    pub parent: Option<usize>,
    pub children: Seq<usize>,
    pub start_byte: usize,
    pub end_byte: usize,
    pub start_row: usize,
    pub start_column: usize,
}

/// The view of an optional string.
pub open spec fn opt_string_view(o: Option<String>) -> Option<Seq<char>> {
    match o {
        Some(s) => Some(s@),
        None => None,
    }
}

/// The view of an optional string slice.
pub open spec fn opt_str_view(o: Option<&str>) -> Option<Seq<char>> {
    match o {
        Some(s) => Some(s@),
        None => None,
    }
}

/// The content of `n`.
pub open spec fn node_view(n: SyntaxNode) -> SyntaxNodeView {
    SyntaxNodeView {
        kind: n.kind@,
        field: opt_string_view(n.field),
        parent: n.parent,
        children: n.children@,
        start_byte: n.start_byte,
        end_byte: n.end_byte,
        start_row: n.start_row,
        start_column: n.start_column,
    }
}

/// The contents of the nodes `ns`.
pub open spec fn node_views(ns: Seq<SyntaxNode>) -> Seq<SyntaxNodeView> {
    ns.map_values(|n: SyntaxNode| node_view(n))
}

// ---------------------------------------------------------------------------
// Parse trees as tree-sitter builds them
// ---------------------------------------------------------------------------

/// A named node of a tree-sitter parse tree, as plain values: its kind, its
/// byte range, the zero-based row and column where it starts, its named
/// children in order, and, for each of them, the field name under which this
/// node holds it (`fields` is as long as `children`).
pub struct TsNode {
    pub kind: Seq<char>,
    pub start_byte: usize,
    pub end_byte: usize,
    pub row: usize,
    pub column: usize,
    pub children: Seq<TsNode>,
    pub fields: Seq<Option<Seq<char>>>,
}

/// What a tree-sitter tree holds: its root node, with every named node under it.
pub uninterp spec fn tree_contents(t: tree_sitter::Tree) -> TsNode;

/// What a node of a tree-sitter tree holds: the node, with every named node under it.
pub uninterp spec fn node_contents(n: tree_sitter::Node) -> TsNode;

/// The tree that tree-sitter-rust parses from `text`.
pub uninterp spec fn rust_syntax(text: Seq<char>) -> TsNode;

/// The tree that tree-sitter-c parses from `text`.
pub uninterp spec fn c_syntax(text: Seq<char>) -> TsNode;

/// The ABI version a tree-sitter grammar was generated for (`Language::abi_version`).
pub uninterp spec fn grammar_abi(l: tree_sitter::Language) -> usize;

/// The smaller of `a` and `b`.
pub open spec fn clamp(a: usize, b: usize) -> usize {
    if a <= b {
        a
    } else {
        b
    }
}

/// The record of node `t` under `parent`, held under `field`, with children
/// at `children`: its range clamped into a text of `text_len` bytes, its row
/// and column below `usize::MAX`.
pub open spec fn record_view(
    t: TsNode,
    parent: Option<usize>,
    field: Option<Seq<char>>,
    children: Seq<usize>,
    text_len: usize,
) -> SyntaxNodeView {
    let end = clamp(t.end_byte, text_len);
    SyntaxNodeView {
        kind: t.kind,
        field: field,
        parent: parent,
        children: children,
        start_byte: clamp(t.start_byte, end),
        end_byte: end,
        start_row: clamp(t.row, (usize::MAX - 1) as usize),
        start_column: clamp(t.column, (usize::MAX - 1) as usize),
    }
}

/// The field under which `t` holds its child `k`, as read through a `u32` position.
pub open spec fn child_field(t: TsNode, k: int) -> Option<Seq<char>> {
    if k <= u32::MAX {
        t.fields[k]
    } else {
        None
    }
}

/// The records of the subtrees of the first `k` children of `t`, laid out from
/// position `next` on, each child under `me`; and the positions of the children.
pub open spec fn flat_forest(t: TsNode, k: nat, me: usize, next: nat, text_len: usize) -> (
    Seq<SyntaxNodeView>,
    Seq<usize>,
)
    decreases t, k,
{
    if k == 0 || k > t.children.len() {
        (seq![], seq![])
    } else {
        let prev = flat_forest(t, (k - 1) as nat, me, next, text_len);
        let at = next + prev.0.len();
        proof {
            assert(decreases_to!(t => t.children));
            assert(decreases_to!(t.children => t.children[k - 1]));
        }
        let sub = flat_node(t.children[k - 1], Some(me), child_field(t, k - 1), at, text_len);
        (prev.0 + sub, prev.1.push(at as usize))
    }
}

/// The records of the subtree of `t` in preorder, `t` at position `base`
/// under `parent` and held under `field`.
pub open spec fn flat_node(t: TsNode, parent: Option<usize>, field: Option<Seq<char>>, base: nat, text_len: usize) -> Seq<
    SyntaxNodeView,
>
    decreases t, t.children.len() + 1,
{
    let f = flat_forest(t, t.children.len(), base as usize, base + 1, text_len);
    seq![record_view(t, parent, field, f.1, text_len)] + f.0
}

/// The records of the named nodes of the tree `t` in preorder, the root first,
/// for a text of `text_len` bytes.
pub open spec fn flat_tree(t: TsNode, text_len: usize) -> Seq<SyntaxNodeView> {
    flat_node(t, None, None, 0, text_len)
}

// ---------------------------------------------------------------------------
// tree-sitter
// ---------------------------------------------------------------------------

#[verifier::external_type_specification]
#[verifier::external_body]
pub struct ExParser(tree_sitter::Parser);

#[verifier::external_type_specification]
#[verifier::external_body]
pub struct ExTree(tree_sitter::Tree);

#[verifier::external_type_specification]
#[verifier::external_body]
pub struct ExNode<'tree>(tree_sitter::Node<'tree>);

#[verifier::external_type_specification]
#[verifier::external_body]
pub struct ExLanguage(tree_sitter::Language);

#[verifier::external_type_specification]
#[verifier::external_body]
pub struct ExLanguageError(tree_sitter::LanguageError);

/// A parser with no language yet (`tree_sitter::Parser::new`).
#[verifier::external_body]
fn new_parser() -> tree_sitter::Parser {
    tree_sitter::Parser::new()
}

/// The Rust grammar (`tree_sitter_rust::LANGUAGE`), generated for ABI 15.
#[verifier::external_body]
fn rust_language() -> (r: tree_sitter::Language)
    ensures
        grammar_abi(r) == 15,
{
    tree_sitter_rust::LANGUAGE.into()
}

/// The C grammar (`tree_sitter_c::LANGUAGE`), generated for ABI 15.
#[verifier::external_body]
fn c_language() -> (r: tree_sitter::Language)
    ensures
        grammar_abi(r) == 15,
{
    tree_sitter_c::LANGUAGE.into()
}

/// Gives `parser` a grammar (`tree_sitter::Parser::set_language`): it succeeds
/// exactly when the grammar's ABI version lies between tree-sitter's minimum
/// compatible version, 13, and its own, 15.
#[verifier::external_body]
fn set_language(
    parser: &mut tree_sitter::Parser,
    language: &tree_sitter::Language,
) -> (r: Result<(), tree_sitter::LanguageError>)
    ensures
        r is Ok <==> 13 <= grammar_abi(*language) <= 15,
{
    parser.set_language(language)
}

/// A parser that holds the Rust grammar: [`RustParser::new`], the only way
/// to make one, loads it.
pub struct RustParser {
    parser: tree_sitter::Parser,
}

/// A parser that holds the C grammar: [`CParser::new`], the only way to make
/// one, loads it.
pub struct CParser {
    parser: tree_sitter::Parser,
}

impl RustParser {
    /// A parser with the Rust grammar loaded; loading it does not fail.
    pub fn new() -> (r: Result<RustParser, tree_sitter::LanguageError>)
        ensures
            r is Ok,
    {
        let mut parser = new_parser();
        let language = rust_language();
        match set_language(&mut parser, &language) {
            Ok(()) => Ok(RustParser { parser }),
            Err(e) => Err(e),
        }
    }
}

impl CParser {
    /// A parser with the C grammar loaded; loading it does not fail.
    pub fn new() -> (r: Result<CParser, tree_sitter::LanguageError>)
        ensures
            r is Ok,
    {
        let mut parser = new_parser();
        let language = c_language();
        match set_language(&mut parser, &language) {
            Ok(()) => Ok(CParser { parser }),
            Err(e) => Err(e),
        }
    }
}

/// Parses the whole of `text` with the Rust grammar (`tree_sitter::Parser::parse`
/// with no old tree). tree-sitter gives no tree only to a parser without a
/// language, or after a timeout or cancellation, none of which is set here.
#[verifier::external_body]
pub(crate) fn parse_rust(p: &mut RustParser, text: &str) -> (r: Option<tree_sitter::Tree>)
    ensures
        r is Some,
        tree_contents(r->Some_0) == rust_syntax(text@),
{
    p.parser.parse(text, None)
}

/// Parses the whole of `text` with the C grammar (`tree_sitter::Parser::parse`
/// with no old tree), which gives a tree for the same reasons.
#[verifier::external_body]
pub(crate) fn parse_c(p: &mut CParser, text: &str) -> (r: Option<tree_sitter::Tree>)
    ensures
        r is Some,
        tree_contents(r->Some_0) == c_syntax(text@),
{
    p.parser.parse(text, None)
}

/// The root node of `tree` (`tree_sitter::Tree::root_node`).
#[verifier::external_body]
fn tree_root<'a>(tree: &'a tree_sitter::Tree) -> (r: tree_sitter::Node<'a>)
    ensures
        node_contents(r) == tree_contents(*tree),
{
    tree.root_node()
}

/// The grammar's name for the kind of `node` (`tree_sitter::Node::kind`).
#[verifier::external_body]
fn node_kind(node: &tree_sitter::Node) -> (r: &'static str)
    ensures
        r@ == node_contents(*node).kind,
{
    node.kind()
}

/// The number of named children of `node` (`tree_sitter::Node::named_child_count`),
/// a `u32` in tree-sitter.
#[verifier::external_body]
fn node_named_child_count(node: &tree_sitter::Node) -> (r: usize)
    ensures
        r == node_contents(*node).children.len(),
        r <= u32::MAX,
{
    node.named_child_count()
}

/// The named child of `node` at position `i` (`tree_sitter::Node::named_child`).
#[verifier::external_body]
fn node_named_child<'a>(node: &tree_sitter::Node<'a>, i: usize) -> (r: Option<tree_sitter::Node<'a>>)
    ensures
        i < node_contents(*node).children.len() ==> r is Some && node_contents(r->Some_0)
            == node_contents(*node).children[i as int],
{
    node.named_child(i)
}

/// The field name under which `node` holds its named child at position `i`
/// (`tree_sitter::Node::field_name_for_named_child`).
#[verifier::external_body]
fn node_field_name_for_named_child(node: &tree_sitter::Node, i: u32) -> (r: Option<&'static str>)
    ensures
        i < node_contents(*node).children.len() ==> opt_str_view(r) == node_contents(*node).fields[i as int],
{
    node.field_name_for_named_child(i)
}

/// The byte offset where `node` starts (`tree_sitter::Node::start_byte`).
#[verifier::external_body]
fn node_start_byte(node: &tree_sitter::Node) -> (r: usize)
    ensures
        r == node_contents(*node).start_byte,
{
    node.start_byte()
}

/// The byte offset where `node` ends (`tree_sitter::Node::end_byte`).
#[verifier::external_body]
fn node_end_byte(node: &tree_sitter::Node) -> (r: usize)
    ensures
        r == node_contents(*node).end_byte,
{
    node.end_byte()
}

/// The zero-based row and column where `node` starts (`tree_sitter::Node::start_position`).
#[verifier::external_body]
fn node_start_point(node: &tree_sitter::Node) -> (r: (usize, usize))
    ensures
        r.0 == node_contents(*node).row,
        r.1 == node_contents(*node).column,
{
    let p = node.start_position();
    (p.row, p.column)
}

/// The smaller of two numbers.
fn min_usize(a: usize, b: usize) -> (r: usize)
    ensures
        r == clamp(a, b),
{
    if a <= b {
        a
    } else {
        b
    }
}

/// The record of `node` under `parent`, held under `field`, with no children
/// yet: its range clamped into a text of `text_len` bytes and its row and
/// column below `usize::MAX`.
fn record_node(
    node: &tree_sitter::Node,
    parent: Option<usize>,
    field: Option<&'static str>,
    text_len: usize,
) -> (r: SyntaxNode)
    ensures
        node_view(r) == record_view(node_contents(*node), parent, opt_str_view(field), seq![], text_len),
{
    let end_byte = min_usize(node_end_byte(node), text_len);
    let start_byte = min_usize(node_start_byte(node), end_byte);
    let (row, column) = node_start_point(node);
    let field = match field {
        Some(f) => Some(f.to_owned()),
        None => None,
    };
    let r = SyntaxNode {
        kind: node_kind(node).to_owned(),
        field,
        parent,
        children: Vec::new(),
        start_byte,
        end_byte,
        start_row: min_usize(row, usize::MAX - 1),
        start_column: min_usize(column, usize::MAX - 1),
    };
    assert(node_view(r).children =~= Seq::<usize>::empty());
    r
}

/// Appends the records of the subtree of `node`, in preorder, `node` under
/// `parent` and held under `field`.
fn walk(
    node: &tree_sitter::Node,
    parent: Option<usize>,
    field: Option<&'static str>,
    text_len: usize,
    nodes: &mut Vec<SyntaxNode>,
)
    requires
        nodes_wf(old(nodes)@, text_len as nat),
        parent matches Some(p) ==> p < old(nodes)@.len(),
    ensures
        nodes_wf(final(nodes)@, text_len as nat),
        final(nodes)@.len() > old(nodes)@.len(),
        final(nodes)@.take(old(nodes)@.len() as int) == old(nodes)@,
        node_views(final(nodes)@.skip(old(nodes)@.len() as int)) == flat_node(
            node_contents(*node),
            parent,
            opt_str_view(field),
            old(nodes)@.len() as nat,
            text_len,
        ),
    decreases node_contents(*node),
{
    let ghost t = node_contents(*node);
    let ghost start = nodes@;
    let base = nodes.len();
    let rec = record_node(node, parent, field, text_len);
    nodes.push(rec);
    proof {
        assert forall|i: int| 0 <= i < nodes@.len() implies node_wf(
            #[trigger] nodes@[i],
            i,
            nodes@.len(),
            text_len as nat,
        ) by {
            if i < base {
                assert(nodes@[i] == start[i]);
                assert(node_wf(start[i], i, start.len(), text_len as nat));
            }
        }
        assert(node_views(nodes@.skip(base + 1)) =~= Seq::<SyntaxNodeView>::empty());
        assert(nodes@.take(base as int) =~= start);
    }
    let count = node_named_child_count(node);
    let mut k: usize = 0;
    while k < count
        invariant
            t == node_contents(*node),
            count == t.children.len(),
            count <= u32::MAX,
            0 <= k <= count,
            base == start.len(),
            base < nodes@.len(),
            parent matches Some(p) ==> p < base,
            nodes_wf(nodes@, text_len as nat),
            nodes@.take(base as int) == start,
            node_views(nodes@.skip(base + 1)) == flat_forest(t, k as nat, base, (base + 1) as nat, text_len).0,
            node_view(nodes@[base as int]) == record_view(
                t,
                parent,
                opt_str_view(field),
                flat_forest(t, k as nat, base, (base + 1) as nat, text_len).1,
                text_len,
            ),
        decreases count - k,
    {
        let child = match node_named_child(node, k) {
            Some(c) => c,
            None => {
                assert(false);
                return;
            },
        };
        let f = if k <= u32::MAX as usize {
            node_field_name_for_named_child(node, k as u32)
        } else {
            None
        };
        let at = nodes.len();
        let ghost before = nodes@;
        let ghost prev = flat_forest(t, k as nat, base, (base + 1) as nat, text_len);
        proof {
            assert(node_views(before.skip(base + 1)).len() == before.skip(base + 1).len());
            assert(at == base + 1 + prev.0.len());
            assert(opt_str_view(f) == child_field(t, k as int));
            assert(decreases_to!(t => t.children));
            assert(decreases_to!(t.children => t.children[k as int]));
        }
        walk(&child, Some(base), f, text_len, nodes);
        let ghost after = nodes@;
        nodes[base].children.push(at);
        proof {
            let sub = flat_node(t.children[k as int], Some(base), child_field(t, k as int), at as nat, text_len);
            assert(flat_forest(t, (k + 1) as nat, base, (base + 1) as nat, text_len) == (prev.0 + sub, prev.1.push(at)));
            assert(after.take(at as int) == before);
            assert(nodes@[base as int].children@ == before[base as int].children@.push(at));
            assert forall|i: int| 0 <= i < nodes@.len() && i != base implies nodes@[i] == after[i] by {}
            assert(nodes@.skip(base + 1) =~= after.skip(base + 1));
            assert(after.skip(base + 1) =~= before.skip(base + 1) + after.skip(at as int));
            assert(node_views(nodes@.skip(base + 1)) =~= node_views(before.skip(base + 1)) + node_views(after.skip(at as int)));
            assert(nodes@.take(base as int) =~= start) by {
                assert forall|i: int| 0 <= i < base implies nodes@[i] == start[i] by {
                    assert(after[i] == before[i]);
                    assert(before.take(base as int)[i] == start[i]);
                }
            }
            assert forall|i: int| 0 <= i < nodes@.len() implies node_wf(
                #[trigger] nodes@[i],
                i,
                nodes@.len(),
                text_len as nat,
            ) by {
                assert(node_wf(after[i], i, after.len(), text_len as nat));
                if i == base {
                    let n = nodes@[i];
                    assert forall|j: int| 0 <= j < n.children@.len() implies #[trigger] n.children@[j]
                        < nodes@.len() by {
                        if j < after[i].children@.len() {
                            assert(n.children@[j] == after[i].children@[j]);
                        }
                    }
                }
            }
            assert(before[base as int] == after[base as int]);
        }
        k += 1;
    }
    proof {
        let f = flat_forest(t, t.children.len(), base, (base + 1) as nat, text_len);
        assert(nodes@.skip(base as int) =~= seq![nodes@[base as int]] + nodes@.skip(base + 1));
        assert(node_views(nodes@.skip(base as int)) =~= seq![node_view(nodes@[base as int])] + node_views(
            nodes@.skip(base + 1),
        ));
    }
}

/// The named nodes of `tree`, parsed from a text of `text_len` bytes, in
/// preorder: exactly the records of what the tree holds.
pub fn syntax_tree_of(tree: &tree_sitter::Tree, text_len: usize) -> (t: SyntaxTree)
    ensures
        t.wf(text_len as nat),
        node_views(t.nodes@) == flat_tree(tree_contents(*tree), text_len),
{
    let root = tree_root(tree);
    let mut nodes: Vec<SyntaxNode> = Vec::new();
    walk(&root, None, None, text_len, &mut nodes);
    proof {
        assert(nodes@.skip(0) =~= nodes@);
    }
    SyntaxTree { nodes }
}

} // verus!
