//! The concrete syntax tree that the analyses walk, and how it is obtained
//! from tree-sitter.
//!
//! tree-sitter hands over the nodes of a parse as a preorder list of
//! records, each with its depth; `build_tree` turns that list into a tree of
//! `SyntaxNode`s, and its contract says that flattening the tree again gives
//! back exactly the list.

use vstd::prelude::*;
use crate::tree::{height, lemma_child_bounds, lemma_height_below_size, size, size_upto};

verus! {

/// The grammars the analyzers parse with.
#[derive(Clone, Copy, PartialEq, Eq, Debug)]
pub enum Grammar {
    Rust,
    Python,
    JavaScript,
    TypeScript,
    C,
    Go,
    Java,
}

/// One node of a parse, as tree-sitter reports it, in preorder.
pub struct NodeRecord {
    /// The node's kind (its grammar symbol, or the token text of an anonymous node).
    pub kind: String,
    /// Whether the node is named (as opposed to an anonymous token).
    pub named: bool,
    /// The field under which the node stands in its parent, if any.
    pub field: Option<String>,
    /// Distance from the root (the root has depth 0).
    pub depth: usize,
    pub start_byte: usize,
    pub end_byte: usize,
    /// Zero-based row on which the node starts.
    pub start_row: usize,
    /// Zero-based row on which the node ends.
    pub end_row: usize,
    /// Whether the node is, or contains, a syntax error.
    pub has_error: bool,
}

/// A node of a concrete syntax tree together with its children.
pub struct SyntaxNode {
    pub kind: String,
    pub named: bool,
    pub field: Option<String>,
    pub start_byte: usize,
    pub end_byte: usize,
    pub start_row: usize,
    pub end_row: usize,
    pub has_error: bool,
    pub children: Vec<SyntaxNode>,
}

/// What parsing a source text gives.
pub enum ParseOutcome {
    /// The grammar could not be loaded into the parser (the message says why).
    LanguageRejected(String),
    /// The parser produced no tree.
    NoTree,
    /// The nodes of the tree, in preorder.
    Parsed(Vec<NodeRecord>),
}

/// The outcome of parsing `source` with `grammar`: tree-sitter's parse,
/// which depends on nothing but the grammar and the text.
pub uninterp spec fn parse_outcome(grammar: Grammar, source: Seq<char>) -> ParseOutcome;

/// The record that describes `n` at depth `depth`.
pub open spec fn record_of(n: SyntaxNode, depth: int) -> NodeRecord {
    NodeRecord {
        kind: n.kind,
        named: n.named,
        field: n.field,
        depth: depth as usize,
        start_byte: n.start_byte,
        end_byte: n.end_byte,
        start_row: n.start_row,
        end_row: n.end_row,
        has_error: n.has_error,
    }
}

/// The preorder list of the records of `n` and its descendants, `n` at depth `depth`.
pub open spec fn flatten(n: SyntaxNode, depth: int) -> Seq<NodeRecord>
    decreases n, 0int,
{
    seq![record_of(n, depth)] + flatten_all(n.children@, depth + 1, n.children@.len() as int)
}

/// The concatenated preorder lists of the first `k` nodes of `cs`, all at depth `depth`.
pub open spec fn flatten_all(cs: Seq<SyntaxNode>, depth: int, k: int) -> Seq<NodeRecord>
    decreases cs, k,
{
    if k <= 0 || k > cs.len() {
        seq![]
    } else {
        flatten_all(cs, depth, k - 1) + flatten(cs[k - 1], depth)
    }
}

/// Each record is at most one level deeper than the one before it.
pub open spec fn depth_steps(s: Seq<NodeRecord>) -> bool {
    forall|i: int| 1 <= i < s.len() ==> #[trigger] s[i].depth <= s[i - 1].depth + 1
}

/// The depths of a preorder listing of one tree: the root at depth 0 first,
/// then every record at depth 1 or more and at most one level deeper than
/// the record before it.
pub open spec fn preorder_depths(s: Seq<NodeRecord>) -> bool {
    &&& s.len() > 0
    &&& s[0].depth == 0
    &&& depth_steps(s)
    &&& forall|i: int| 1 <= i < s.len() ==> #[trigger] s[i].depth >= 1
}

/// `s` lists one subtree whose root is at depth `d`.
spec fn listing_at(s: Seq<NodeRecord>, d: int) -> bool {
    &&& s.len() > 0
    &&& s[0].depth == d
    &&& depth_steps(s)
    &&& forall|i: int| 1 <= i < s.len() ==> #[trigger] s[i].depth >= d + 1
}

/// `s` lists a sequence of subtrees whose roots are at depth `d`.
spec fn listings_at(s: Seq<NodeRecord>, d: int) -> bool {
    &&& s.len() > 0 ==> s[0].depth == d
    &&& depth_steps(s)
    &&& forall|i: int| 0 <= i < s.len() ==> #[trigger] s[i].depth >= d
}

proof fn lemma_flatten_listing(n: SyntaxNode, d: int)
    requires
        0 <= d,
        d + height(n) <= usize::MAX,
    ensures
        listing_at(flatten(n, d), d),
    decreases n, n.children@.len() + 1,
{
    let k = n.children@.len() as int;
    lemma_flatten_all_listing(n, d + 1, k);
    let f = flatten_all(n.children@, d + 1, k);
    let s = flatten(n, d);
    assert(s == seq![record_of(n, d)] + f);
    assert forall|i: int| 1 <= i < s.len() implies #[trigger] s[i].depth <= s[i - 1].depth + 1 by {
        assert(s[i] == f[i - 1]);
        if i >= 2 {
            assert(s[i - 1] == f[i - 2]);
        }
    }
    assert forall|i: int| 1 <= i < s.len() implies #[trigger] s[i].depth >= d + 1 by {
        assert(s[i] == f[i - 1]);
    }
}

#[verifier::rlimit(30)]
proof fn lemma_flatten_all_listing(n: SyntaxNode, d: int, k: int)
    requires
        1 <= d,
        0 <= k <= n.children@.len(),
        d - 1 + height(n) <= usize::MAX,
    ensures
        listings_at(flatten_all(n.children@, d, k), d),
    decreases n, k,
{
    if k > 0 {
        lemma_flatten_all_listing(n, d, k - 1);
        let c = n.children@[k - 1];
        lemma_child_bounds(n, k - 1);
        lemma_flatten_listing(c, d);
        let a = flatten_all(n.children@, d, k - 1);
        let b = flatten(c, d);
        let s = a + b;
        assert(flatten_all(n.children@, d, k) == s);
        assert forall|i: int| 1 <= i < s.len() implies #[trigger] s[i].depth <= s[i - 1].depth + 1 by {
            if i < a.len() {
                assert(s[i] == a[i] && s[i - 1] == a[i - 1]);
            } else if i == a.len() {
                assert(s[i] == b[0] && s[i - 1] == a[i - 1]);
            } else {
                assert(s[i] == b[i - a.len()] && s[i - 1] == b[i - 1 - a.len()]);
            }
        }
        assert forall|i: int| 0 <= i < s.len() implies #[trigger] s[i].depth >= d by {
            if i < a.len() {
                assert(s[i] == a[i]);
            } else {
                assert(s[i] == b[i - a.len()]);
            }
        }
        if a.len() > 0 {
            assert(s[0] == a[0]);
        } else {
            assert(s[0] == b[0]);
        }
    }
}

/// A subtree lists one record per node.
pub proof fn lemma_flatten_len(n: SyntaxNode, d: int)
    ensures
        flatten(n, d).len() == size(n),
    decreases n, n.children@.len() + 1,
{
    lemma_flatten_all_len(n, d + 1, n.children@.len() as int);
}

proof fn lemma_flatten_all_len(n: SyntaxNode, d: int, k: int)
    requires
        0 <= k <= n.children@.len(),
    ensures
        flatten_all(n.children@, d, k).len() == size_upto(n, k),
    decreases n, k,
{
    if k > 0 {
        lemma_flatten_all_len(n, d, k - 1);
        lemma_flatten_len(n.children@[k - 1], d);
    }
}

/// The listing of a tree, its root at depth 0, has the depths of a preorder
/// listing.
pub proof fn lemma_flatten_is_preorder(t: SyntaxNode)
    requires
        flatten(t, 0).len() <= usize::MAX,
    ensures
        preorder_depths(flatten(t, 0)),
{
    lemma_height_below_size(t);
    lemma_flatten_len(t, 0);
    lemma_flatten_listing(t, 0);
}

/// `a` and `b` carry the same record data (all but their children).
pub open spec fn same_node(a: SyntaxNode, b: SyntaxNode) -> bool {
    &&& a.kind == b.kind
    &&& a.named == b.named
    &&& a.field == b.field
    &&& a.start_byte == b.start_byte
    &&& a.end_byte == b.end_byte
    &&& a.start_row == b.start_row
    &&& a.end_row == b.end_row
    &&& a.has_error == b.has_error
}

/// `a` and `b` are the same tree: the same node data, and as many children,
/// pairwise the same trees.
pub open spec fn same_tree(a: SyntaxNode, b: SyntaxNode) -> bool
    decreases a, a.children@.len() + 1,
{
    &&& same_node(a, b)
    &&& a.children@.len() == b.children@.len()
    &&& same_children_upto(a, b, a.children@.len() as int)
}

/// The first `k` children of `a` and `b` are pairwise the same trees.
pub open spec fn same_children_upto(a: SyntaxNode, b: SyntaxNode, k: int) -> bool
    decreases a, k,
{
    if k <= 0 || k > a.children@.len() {
        true
    } else {
        same_children_upto(a, b, k - 1) && k <= b.children@.len() && same_tree(
            a.children@[k - 1],
            b.children@[k - 1],
        )
    }
}

/// Children of the same trees are the same trees.
pub proof fn lemma_same_child(a: SyntaxNode, b: SyntaxNode, i: int)
    requires
        same_tree(a, b),
        0 <= i < a.children@.len(),
    ensures
        same_tree(a.children@[i], b.children@[i]),
{
    lemma_same_children_upto(a, b, a.children@.len() as int, i);
}

proof fn lemma_same_children_upto(a: SyntaxNode, b: SyntaxNode, k: int, i: int)
    requires
        0 <= i < k <= a.children@.len(),
        same_children_upto(a, b, k),
    ensures
        same_tree(a.children@[i], b.children@[i]),
    decreases k,
{
    if i < k - 1 {
        lemma_same_children_upto(a, b, k - 1, i);
    }
}

/// In a listing of subtrees at depth `d` that ends with the listing of one
/// subtree, that subtree starts at the last record of depth `d`.
proof fn lemma_last_root(a1: Seq<NodeRecord>, b1: Seq<NodeRecord>, a2: Seq<NodeRecord>, b2: Seq<NodeRecord>, d: int)
    requires
        a1 + b1 == a2 + b2,
        listing_at(b1, d),
        listing_at(b2, d),
    ensures
        a1 == a2,
        b1 == b2,
{
    let s = a1 + b1;
    let t = a2 + b2;
    assert(b1.len() > 0 && b2.len() > 0);
    assert(s.len() == a1.len() + b1.len());
    assert(t.len() == a2.len() + b2.len());
    if a1.len() < a2.len() {
        let j = a2.len() as int;
        assert(t[j] == b2[0]);
        assert(s[j] == b1[j - a1.len()]);
        assert(b1[j - a1.len()].depth >= d + 1);
        assert(false);
    } else if a2.len() < a1.len() {
        let j = a1.len() as int;
        assert(s[j] == b1[0]);
        assert(t[j] == b2[j - a2.len()]);
        assert(b2[j - a2.len()].depth >= d + 1);
        assert(false);
    }
    assert(a1 =~= s.subrange(0, a1.len() as int));
    assert(a2 =~= s.subrange(0, a2.len() as int));
    assert(b1 =~= s.subrange(a1.len() as int, s.len() as int));
    assert(b2 =~= s.subrange(a2.len() as int, s.len() as int));
}

/// A listing determines its tree: trees with the same listing are the same.
pub proof fn lemma_flatten_determines(a: SyntaxNode, b: SyntaxNode, d: int)
    requires
        0 <= d,
        d + height(a) <= usize::MAX,
        d + height(b) <= usize::MAX,
        flatten(a, d) == flatten(b, d),
    ensures
        same_tree(a, b),
    decreases a, a.children@.len() + 1,
{
    let fa = flatten_all(a.children@, d + 1, a.children@.len() as int);
    let fb = flatten_all(b.children@, d + 1, b.children@.len() as int);
    assert(flatten(a, d) == seq![record_of(a, d)] + fa);
    assert(flatten(b, d) == seq![record_of(b, d)] + fb);
    assert(flatten(a, d)[0] == record_of(a, d));
    assert(flatten(b, d)[0] == record_of(b, d));
    assert(fa =~= flatten(a, d).drop_first());
    assert(fb =~= flatten(b, d).drop_first());
    lemma_flatten_all_determines(a, b, d + 1, a.children@.len() as int, b.children@.len() as int);
}

#[verifier::rlimit(40)]
proof fn lemma_flatten_all_determines(a: SyntaxNode, b: SyntaxNode, d: int, ka: int, kb: int)
    requires
        1 <= d,
        0 <= ka <= a.children@.len(),
        0 <= kb <= b.children@.len(),
        d - 1 + height(a) <= usize::MAX,
        d - 1 + height(b) <= usize::MAX,
        flatten_all(a.children@, d, ka) == flatten_all(b.children@, d, kb),
    ensures
        ka == kb,
        same_children_upto(a, b, ka),
    decreases a, ka,
{
    if ka == 0 || kb == 0 {
        if ka > 0 {
            lemma_flatten_len(a.children@[ka - 1], d);
            lemma_size_positive(a.children@[ka - 1]);
        }
        if kb > 0 {
            lemma_flatten_len(b.children@[kb - 1], d);
            lemma_size_positive(b.children@[kb - 1]);
        }
    } else {
        let ca = a.children@[ka - 1];
        let cb = b.children@[kb - 1];
        lemma_child_bounds(a, ka - 1);
        lemma_child_bounds(b, kb - 1);
        lemma_flatten_listing(ca, d);
        lemma_flatten_listing(cb, d);
        lemma_last_root(
            flatten_all(a.children@, d, ka - 1),
            flatten(ca, d),
            flatten_all(b.children@, d, kb - 1),
            flatten(cb, d),
            d,
        );
        lemma_flatten_all_determines(a, b, d, ka - 1, kb - 1);
        lemma_flatten_determines(ca, cb, d);
    }
}

proof fn lemma_size_positive(n: SyntaxNode)
    ensures
        size(n) >= 1,
{
}

/// In a preorder listing no record is deeper than its position.
proof fn lemma_depth_below_position(s: Seq<NodeRecord>, i: int)
    requires
        preorder_depths(s),
        0 <= i < s.len(),
    ensures
        s[i].depth <= i,
    decreases i,
{
    if i > 0 {
        lemma_depth_below_position(s, i - 1);
    }
}

fn copy_field(field: &Option<String>) -> (r: Option<String>)
    ensures
        r == *field,
{
    match field {
        Some(f) => Some(f.clone()),
        None => None,
    }
}

/// Builds the subtree whose root is `records[pos]`: the node, and as its
/// children the subtrees that follow it one level deeper. `None` when the
/// records are not a preorder listing (a depth that jumps by more than one).
fn build_subtree(records: &Vec<NodeRecord>, pos: usize) -> (r: Option<(SyntaxNode, usize)>)
    requires
        pos < records@.len(),
    ensures
        r matches Some((n, next)) ==> {
            &&& pos < next <= records@.len()
            &&& flatten(n, records@[pos as int].depth as int) == records@.subrange(pos as int, next as int)
            &&& next < records@.len() ==> records@[next as int].depth <= records@[pos as int].depth
        },
        depth_steps(records@) && (forall|i: int| 0 <= i < records@.len() ==> #[trigger] records@[i].depth
            < usize::MAX) ==> r is Some,
    decreases records@.len() - pos,
{
    let depth = records[pos].depth;
    if depth == usize::MAX {
        return None;
    }
    assert(pos < records.len());
    let mut children: Vec<SyntaxNode> = Vec::new();
    let mut next = pos + 1;
    while next < records.len() && records[next].depth > depth
        invariant
            pos < next <= records@.len(),
            depth == records@[pos as int].depth,
            depth < usize::MAX,
            flatten_all(children@, depth + 1, children@.len() as int)
                == records@.subrange(pos + 1, next as int),
            depth_steps(records@) ==> (next < records@.len() ==> records@[next as int].depth <= depth + 1),
        decreases records@.len() - next,
    {
        if records[next].depth != depth + 1 {
            return None;
        }
        match build_subtree(records, next) {
            Some((child, after)) => {
                let ghost before = children@;
                children.push(child);
                proof {
                    lemma_flatten_all_agree(children@, before, depth + 1, before.len() as int);
                    assert(flatten_all(children@, depth + 1, children@.len() as int)
                        == flatten_all(before, depth + 1, before.len() as int) + flatten(child, depth + 1));
                    assert(records@.subrange(pos + 1, after as int) =~= records@.subrange(pos + 1, next as int)
                        + records@.subrange(next as int, after as int));
                }
                next = after;
            },
            None => {
                return None;
            },
        }
    }
    let r = &records[pos];
    let node = SyntaxNode {
        kind: r.kind.clone(),
        named: r.named,
        field: copy_field(&r.field),
        start_byte: r.start_byte,
        end_byte: r.end_byte,
        start_row: r.start_row,
        end_row: r.end_row,
        has_error: r.has_error,
        children,
    };
    proof {
        assert(record_of(node, depth as int) == records@[pos as int]);
        assert(records@.subrange(pos as int, next as int) =~= seq![records@[pos as int]]
            + records@.subrange(pos + 1, next as int));
    }
    Some((node, next))
}

/// `flatten_all` over the first `k` nodes only looks at those nodes.
proof fn lemma_flatten_all_agree(cs1: Seq<SyntaxNode>, cs2: Seq<SyntaxNode>, depth: int, k: int)
    requires
        0 <= k <= cs1.len(),
        k <= cs2.len(),
        forall|i: int| 0 <= i < k ==> cs1[i] == cs2[i],
    ensures
        flatten_all(cs1, depth, k) == flatten_all(cs2, depth, k),
    decreases k,
{
    if k > 0 {
        lemma_flatten_all_agree(cs1, cs2, depth, k - 1);
    }
}

/// The tree whose preorder listing is `records`, the first record being its
/// root at depth 0; `None` when `records` is not such a listing.
pub fn build_tree(records: &Vec<NodeRecord>) -> (r: Option<SyntaxNode>)
    ensures
        r is Some <==> preorder_depths(records@),
        r matches Some(t) ==> flatten(t, 0) == records@,
{
    if records.len() == 0 || records[0].depth != 0 {
        return None;
    }
    proof {
        if preorder_depths(records@) {
            assert forall|i: int| 0 <= i < records@.len() implies #[trigger] records@[i].depth < usize::MAX by {
                lemma_depth_below_position(records@, i);
            }
        }
    }
    match build_subtree(records, 0) {
        Some((t, next)) => {
            if next == records.len() {
                assert(records@.subrange(0, next as int) =~= records@);
                proof {
                    lemma_flatten_is_preorder(t);
                }
                Some(t)
            } else {
                proof {
                    if preorder_depths(records@) {
                        assert(records@[next as int].depth >= 1);
                    }
                }
                None
            }
        },
        None => None,
    }
}

#[verifier::external_type_specification]
#[verifier::external_body]
pub struct ExLanguage(tree_sitter::Language);

#[verifier::external_type_specification]
#[verifier::external_body]
pub struct ExTree(tree_sitter::Tree);

/// The tree-sitter grammar of `grammar`: the `LANGUAGE` constant of the
/// grammar's crate (the TSX dialect for TypeScript), converted into a
/// `tree_sitter::Language`. Nothing is claimed of the value.
#[verifier::external_body]
fn grammar_language(grammar: Grammar) -> tree_sitter::Language {
    match grammar {
        Grammar::Rust => tree_sitter_rust::LANGUAGE.into(),
        Grammar::Python => tree_sitter_python::LANGUAGE.into(),
        Grammar::JavaScript => tree_sitter_javascript::LANGUAGE.into(),
        Grammar::TypeScript => tree_sitter_typescript::LANGUAGE_TSX.into(),
        Grammar::C => tree_sitter_c::LANGUAGE.into(),
        Grammar::Go => tree_sitter_go::LANGUAGE.into(),
        Grammar::Java => tree_sitter_java::LANGUAGE.into(),
    }
}

/// Every node of `tree`, in preorder: `TreeCursor::goto_descendant` visits
/// the descendants of the root by their preorder index, and each is copied
/// into a record (kind, `is_named`, the cursor's `field_name`, the cursor's
/// `depth`, byte range, start and end rows, `has_error`). Nothing is claimed
/// of the result.
#[verifier::external_body]
fn syntax_records(tree: &tree_sitter::Tree) -> Vec<NodeRecord> {
    let mut cursor = tree.walk();
    (0..tree.root_node().descendant_count()).map(|i| {
        cursor.goto_descendant(i);
        let node = cursor.node();
        NodeRecord {
            kind: node.kind().to_string(), named: node.is_named(),
            field: cursor.field_name().map(String::from), depth: cursor.depth() as usize,
            start_byte: node.start_byte(), end_byte: node.end_byte(),
            start_row: node.start_position().row, end_row: node.end_position().row,
            has_error: node.has_error(),
        }
    }).collect()
}

/// Parses `source` with tree-sitter (`Parser::new`, `Parser::set_language`
/// with the grammar's language, `Parser::parse`). The contract claims only
/// that the outcome is `parse_outcome(grammar, source@)`: a failed
/// `set_language` gives its error's `Debug` text, a missing tree gives
/// `NoTree`, and a tree gives its nodes in preorder.
#[verifier::external_body]
pub(crate) fn parse_source(grammar: Grammar, source: &str) -> (outcome: ParseOutcome)
    ensures
        outcome == parse_outcome(grammar, source@),
{
    let mut parser = tree_sitter::Parser::new();
    if let Err(e) = parser.set_language(&grammar_language(grammar)) {
        return ParseOutcome::LanguageRejected(format!("{e:?}"));
    }
    match parser.parse(source, None) {
        Some(tree) => ParseOutcome::Parsed(syntax_records(&tree)),
        None => ParseOutcome::NoTree,
    }
}

/// The syntax tree of `source` parsed with `grammar`: the tree that
/// tree-sitter's listing of nodes describes, or `None` when the grammar is
/// rejected, no tree comes back, or the listing is not a preorder listing.
pub fn syntax_tree(grammar: Grammar, source: &str) -> (r: Option<SyntaxNode>)
    ensures
        r is Some <==> (parse_outcome(grammar, source@) matches ParseOutcome::Parsed(records) && preorder_depths(
            records@,
        )),
        r matches Some(t) ==> (parse_outcome(grammar, source@) matches ParseOutcome::Parsed(records) && flatten(t, 0)
            == records@),
{
    match parse_source(grammar, source) {
        ParseOutcome::Parsed(records) => build_tree(&records),
        _ => None,
    }
}

} // verus!
