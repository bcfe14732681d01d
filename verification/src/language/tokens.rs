//! Normalized token sequences of function bodies, for clone detection: the
//! body is walked in preorder over its named nodes; call and method target
//! names are kept verbatim, other identifiers become `<ID>`, literals become
//! `<LIT>`, and every other node contributes its kind.

use vstd::prelude::*;
use crate::cognitive::texts;
use crate::language::node_text;
use crate::syntax::SyntaxNode;
use crate::text::{text_eq, text_slice};
use crate::tree::{fits_source, lemma_fits_source_upto_child};

verus! {

/// How a language's nodes are tokenized.
#[derive(Clone, Copy, PartialEq, Eq, Debug)]
pub enum TokenStyle {
    Rust,
    Python,
    JavaScriptLike,
}

/// What a node contributes to a token sequence.
#[derive(Clone, Copy, PartialEq, Eq, Debug)]
pub enum TokenRole {
    /// Its source text, verbatim (call and method targets).
    Preserve,
    /// The placeholder, in place of its text (local identifiers, literals).
    Normalize(&'static str),
    /// Its kind, followed by the tokens of its children.
    Shape,
}

/// Child `c` stands in field `f` of its parent.
pub open spec fn field_is(c: SyntaxNode, f: Seq<char>) -> bool {
    c.field matches Some(s) && s@ == f
}

/// Child `i` is the first child of `p` in field `f` (the one that
/// tree-sitter's `child_by_field_name` gives).
pub open spec fn first_with_field(p: SyntaxNode, i: int, f: Seq<char>) -> bool {
    &&& 0 <= i < p.children@.len()
    &&& field_is(p.children@[i], f)
    &&& forall|j: int| 0 <= j < i ==> !field_is(#[trigger] p.children@[j], f)
}

/// Child `i` of `p` is the function that a call calls, directly or (Rust
/// turbofish, TypeScript type arguments) through a generic wrapper that is
/// itself the called function; `p_callee` says whether `p` is.
pub open spec fn callee_link(style: TokenStyle, p: SyntaxNode, i: int, p_callee: bool) -> bool {
    let function = first_with_field(p, i, "function"@);
    match style {
        TokenStyle::Rust => (p.kind@ == "call_expression"@ && function) || (p.kind@ == "generic_function"@
            && function && p_callee),
        TokenStyle::Python => p.kind@ == "call"@ && function,
        TokenStyle::JavaScriptLike => (p.kind@ == "call_expression"@ && function) || (p.kind@
            == "instantiation_expression"@ && function && p_callee),
    }
}

/// The literal kinds of a style.
pub open spec fn literal_kind(style: TokenStyle, k: Seq<char>) -> bool {
    match style {
        TokenStyle::Rust => k == "integer_literal"@ || k == "float_literal"@ || k == "string_literal"@
            || k == "char_literal"@ || k == "boolean_literal"@,
        TokenStyle::Python => k == "integer"@ || k == "float"@ || k == "string"@ || k == "true"@
            || k == "false"@ || k == "none"@,
        TokenStyle::JavaScriptLike => k == "number"@ || k == "string"@ || k == "true"@ || k == "false"@
            || k == "null"@ || k == "undefined"@,
    }
}

/// The role of child `i` of `p`, given whether `p` and the child are called functions.
pub open spec fn token_role(style: TokenStyle, p: SyntaxNode, i: int, p_callee: bool, c_callee: bool) -> TokenRole {
    let k = p.children@[i].kind@;
    match style {
        TokenStyle::Rust => if k == "identifier"@ {
            if (p.kind@ == "call_expression"@ && first_with_field(p, i, "function"@)) || (p.kind@
                == "scoped_identifier"@ && first_with_field(p, i, "name"@) && p_callee) {
                TokenRole::Preserve
            } else {
                TokenRole::Normalize("<ID>")
            }
        } else if k == "field_identifier"@ {
            if p.kind@ == "field_expression"@ && first_with_field(p, i, "field"@) && p_callee {
                TokenRole::Preserve
            } else {
                TokenRole::Normalize("<ID>")
            }
        } else if literal_kind(style, k) {
            TokenRole::Normalize("<LIT>")
        } else {
            TokenRole::Shape
        },
        TokenStyle::Python => if k == "identifier"@ {
            if (p.kind@ == "call"@ && first_with_field(p, i, "function"@)) || (p.kind@ == "attribute"@
                && first_with_field(p, i, "attribute"@) && p_callee) {
                TokenRole::Preserve
            } else {
                TokenRole::Normalize("<ID>")
            }
        } else if literal_kind(style, k) {
            TokenRole::Normalize("<LIT>")
        } else {
            TokenRole::Shape
        },
        TokenStyle::JavaScriptLike => if k == "identifier"@ {
            if c_callee {
                TokenRole::Preserve
            } else {
                TokenRole::Normalize("<ID>")
            }
        } else if k == "property_identifier"@ {
            if p.kind@ == "member_expression"@ && first_with_field(p, i, "property"@) && p_callee {
                TokenRole::Preserve
            } else {
                TokenRole::Normalize("<ID>")
            }
        } else if literal_kind(style, k) {
            TokenRole::Normalize("<LIT>")
        } else {
            TokenRole::Shape
        },
    }
}

/// The tokens of child `i` of `p` and its descendants.
pub open spec fn node_tokens(style: TokenStyle, p: SyntaxNode, i: int, p_callee: bool, src: Seq<char>) -> Seq<Seq<char>>
    decreases p.children@[i], p.children@[i].children@.len() + 1,
{
    if i < 0 || i >= p.children@.len() {
        seq![]
    } else {
        let c = p.children@[i];
        if !c.named {
            seq![]
        } else {
            let c_callee = callee_link(style, p, i, p_callee);
            match token_role(style, p, i, p_callee, c_callee) {
                TokenRole::Preserve => seq![node_text(c, src)],
                TokenRole::Normalize(placeholder) => seq![placeholder@],
                TokenRole::Shape => seq![c.kind@] + child_tokens(style, c, c_callee, src, c.children@.len() as int),
            }
        }
    }
}

/// The tokens of the first `k` children of `n`, concatenated.
pub open spec fn child_tokens(style: TokenStyle, n: SyntaxNode, n_callee: bool, src: Seq<char>, k: int) -> Seq<Seq<char>>
    decreases n, k,
{
    if k <= 0 || k > n.children@.len() {
        seq![]
    } else {
        child_tokens(style, n, n_callee, src, k - 1) + node_tokens(style, n, k - 1, n_callee, src)
    }
}

/// The token sequence of function `n`'s body (the child in field `body`);
/// empty when it has none.
pub open spec fn body_tokens(style: TokenStyle, n: SyntaxNode, src: Seq<char>) -> Seq<Seq<char>> {
    if exists|b: int| first_with_field(n, b, "body"@) {
        node_tokens(style, n, choose|b: int| first_with_field(n, b, "body"@), false, src)
    } else {
        seq![]
    }
}

/// The index of the first child of `p` in field `f`.
pub fn first_field_index(p: &SyntaxNode, f: &str) -> (r: Option<usize>)
    ensures
        match r {
            Some(i) => first_with_field(*p, i as int, f@),
            None => forall|j: int| 0 <= j < p.children@.len() ==> !field_is(#[trigger] p.children@[j], f@),
        },
{
    let mut i: usize = 0;
    while i < p.children.len()
        invariant
            i <= p.children@.len(),
            forall|j: int| 0 <= j < i ==> !field_is(#[trigger] p.children@[j], f@),
        decreases p.children@.len() - i,
    {
        let here = match &p.children[i].field {
            Some(g) => text_eq(g.as_str(), f),
            None => false,
        };
        if here {
            return Some(i);
        }
        i += 1;
    }
    None
}

/// Whether child `i` is the first child of `p` in field `f`.
fn is_first_field(p: &SyntaxNode, i: usize, f: &str) -> (r: bool)
    requires
        i < p.children@.len(),
    ensures
        r == first_with_field(*p, i as int, f@),
{
    match first_field_index(p, f) {
        Some(j) => {
            if j < i {
                assert(!first_with_field(*p, i as int, f@)) by {
                    assert(field_is(p.children@[j as int], f@));
                }
            }
            j == i
        },
        None => false,
    }
}

fn callee_link_of(style: TokenStyle, p: &SyntaxNode, i: usize, p_callee: bool) -> (r: bool)
    requires
        i < p.children@.len(),
    ensures
        r == callee_link(style, *p, i as int, p_callee),
{
    let function = is_first_field(p, i, "function");
    let k = p.kind.as_str();
    match style {
        TokenStyle::Rust => (text_eq(k, "call_expression") && function) || (text_eq(k, "generic_function")
            && function && p_callee),
        TokenStyle::Python => text_eq(k, "call") && function,
        TokenStyle::JavaScriptLike => (text_eq(k, "call_expression") && function) || (text_eq(
            k,
            "instantiation_expression",
        ) && function && p_callee),
    }
}

fn is_literal_kind(style: TokenStyle, k: &str) -> (r: bool)
    ensures
        r == literal_kind(style, k@),
{
    match style {
        TokenStyle::Rust => text_eq(k, "integer_literal") || text_eq(k, "float_literal") || text_eq(
            k,
            "string_literal",
        ) || text_eq(k, "char_literal") || text_eq(k, "boolean_literal"),
        TokenStyle::Python => text_eq(k, "integer") || text_eq(k, "float") || text_eq(k, "string")
            || text_eq(k, "true") || text_eq(k, "false") || text_eq(k, "none"),
        TokenStyle::JavaScriptLike => text_eq(k, "number") || text_eq(k, "string") || text_eq(k, "true")
            || text_eq(k, "false") || text_eq(k, "null") || text_eq(k, "undefined"),
    }
}

/// The role of child `i` of `p` (see `token_role`).
pub fn classify_token(style: TokenStyle, p: &SyntaxNode, i: usize, p_callee: bool, c_callee: bool) -> (r: TokenRole)
    requires
        i < p.children@.len(),
    ensures
        r == token_role(style, *p, i as int, p_callee, c_callee),
{
    let k = p.children[i].kind.as_str();
    let pk = p.kind.as_str();
    match style {
        TokenStyle::Rust => {
            if text_eq(k, "identifier") {
                if (text_eq(pk, "call_expression") && is_first_field(p, i, "function")) || (text_eq(
                    pk,
                    "scoped_identifier",
                ) && is_first_field(p, i, "name") && p_callee) {
                    TokenRole::Preserve
                } else {
                    TokenRole::Normalize("<ID>")
                }
            } else if text_eq(k, "field_identifier") {
                if text_eq(pk, "field_expression") && is_first_field(p, i, "field") && p_callee {
                    TokenRole::Preserve
                } else {
                    TokenRole::Normalize("<ID>")
                }
            } else if is_literal_kind(style, k) {
                TokenRole::Normalize("<LIT>")
            } else {
                TokenRole::Shape
            }
        },
        TokenStyle::Python => {
            if text_eq(k, "identifier") {
                if (text_eq(pk, "call") && is_first_field(p, i, "function")) || (text_eq(pk, "attribute")
                    && is_first_field(p, i, "attribute") && p_callee) {
                    TokenRole::Preserve
                } else {
                    TokenRole::Normalize("<ID>")
                }
            } else if is_literal_kind(style, k) {
                TokenRole::Normalize("<LIT>")
            } else {
                TokenRole::Shape
            }
        },
        TokenStyle::JavaScriptLike => {
            if text_eq(k, "identifier") {
                if c_callee {
                    TokenRole::Preserve
                } else {
                    TokenRole::Normalize("<ID>")
                }
            } else if text_eq(k, "property_identifier") {
                if text_eq(pk, "member_expression") && is_first_field(p, i, "property") && p_callee {
                    TokenRole::Preserve
                } else {
                    TokenRole::Normalize("<ID>")
                }
            } else if is_literal_kind(style, k) {
                TokenRole::Normalize("<LIT>")
            } else {
                TokenRole::Shape
            }
        },
    }
}

/// Appends the tokens of child `i` of `p` (see `node_tokens`) to `out`.
fn push_node_tokens(
    style: TokenStyle,
    p: &SyntaxNode,
    i: usize,
    p_callee: bool,
    source: &str,
    out: &mut Vec<String>,
)
    requires
        i < p.children@.len(),
        fits_source(p.children@[i as int], source@),
    ensures
        texts(final(out)@) == texts(old(out)@) + node_tokens(style, *p, i as int, p_callee, source@),
    decreases p.children@[i as int], 0int,
{
    let c = &p.children[i];
    if !c.named {
        assert(texts(out@) =~= texts(out@) + Seq::<Seq<char>>::empty());
        return;
    }
    let c_callee = callee_link_of(style, p, i, p_callee);
    match classify_token(style, p, i, p_callee, c_callee) {
        TokenRole::Preserve => {
            match text_slice(source, c.start_byte, c.end_byte) {
                Some(t) => {
                    out.push(t);
                },
                None => {
                    assert(false);
                },
            }
            assert(texts(out@) =~= texts(old(out)@) + node_tokens(style, *p, i as int, p_callee, source@));
        },
        TokenRole::Normalize(placeholder) => {
            out.push(placeholder.to_owned());
            assert(texts(out@) =~= texts(old(out)@) + node_tokens(style, *p, i as int, p_callee, source@));
        },
        TokenRole::Shape => {
            out.push(c.kind.clone());
            let ghost start = texts(old(out)@) + seq![c.kind@];
            assert(texts(out@) =~= start);
            let mut j: usize = 0;
            while j < c.children.len()
                invariant
                    j <= c.children@.len(),
                    i < p.children@.len(),
                    *c == p.children@[i as int],
                    fits_source(*c, source@),
                    texts(out@) == start + child_tokens(style, *c, c_callee, source@, j as int),
                decreases c.children@.len() - j,
            {
                proof {
                    lemma_fits_source_upto_child(*c, source@, c.children@.len() as int, j as int);
                }
                push_node_tokens(style, c, j, c_callee, source, out);
                assert(texts(out@) =~= start + child_tokens(style, *c, c_callee, source@, j + 1));
                j += 1;
            }
            assert(texts(out@) =~= texts(old(out)@) + node_tokens(style, *p, i as int, p_callee, source@));
        },
    }
}

/// The token sequence of function `node`'s body (see `body_tokens`).
pub fn function_clone_tokens(node: &SyntaxNode, source: &str, style: TokenStyle) -> (r: Vec<String>)
    requires
        fits_source(*node, source@),
    ensures
        texts(r@) == body_tokens(style, *node, source@),
{
    let mut out: Vec<String> = Vec::new();
    match first_field_index(node, "body") {
        Some(b) => {
            proof {
                lemma_fits_source_upto_child(*node, source@, node.children@.len() as int, b as int);
                assert(first_with_field(*node, b as int, "body"@));
                let c = choose|x: int| first_with_field(*node, x, "body"@);
                assert(c == b) by {
                    if c < b {
                        assert(field_is(node.children@[c], "body"@));
                    } else if c > b {
                        assert(field_is(node.children@[b as int], "body"@));
                    }
                }
            }
            push_node_tokens(style, node, b, false, source, &mut out);
            assert(texts(out@) =~= body_tokens(style, *node, source@));
        },
        None => {
            assert(texts(out@) =~= Seq::<Seq<char>>::empty());
        },
    }
    out
}

} // verus!
