//! The same tree gives the same analysis: every measure of a tree depends
//! only on its nodes' data and the shape of its children.

use vstd::prelude::*;
use crate::cognitive::{nesting, nesting_upto, operand_seq, operand_seq_upto, operator_seq, operator_seq_upto};
use crate::complexity::{
    case_decisions, decisions, decisions_upto, descendants_of_kind, descendants_of_kind_upto,
    is_boolean_operator_spec,
};
use crate::language::tokens::{body_tokens, callee_link, child_tokens, field_is, first_with_field, node_tokens, token_role, TokenStyle};
use crate::language::{
    declarator_name, declarator_name_from, function_view, functions_in, functions_in_upto, limits_ok, limits_ok_upto,
    name_from, tree_analysis, ConfigView,
};
use crate::syntax::{lemma_same_child, same_node, same_tree, SyntaxNode};
use crate::tree::{fits_source, fits_source_upto, size, size_upto};

verus! {

/// The children of the same trees carry the same node data, pairwise.
pub proof fn lemma_same_children_nodes(a: SyntaxNode, b: SyntaxNode)
    requires
        same_tree(a, b),
    ensures
        a.children@.len() == b.children@.len(),
        forall|i: int| 0 <= i < a.children@.len() ==> same_node(#[trigger] a.children@[i], b.children@[i]),
{
    assert forall|i: int| 0 <= i < a.children@.len() implies same_node(#[trigger] a.children@[i], b.children@[i]) by {
        lemma_same_child(a, b, i);
    }
}

proof fn lemma_same_size(a: SyntaxNode, b: SyntaxNode)
    requires
        same_tree(a, b),
    ensures
        size(a) == size(b),
    decreases a, a.children@.len() + 1,
{
    lemma_same_size_upto(a, b, a.children@.len() as int);
}

proof fn lemma_same_size_upto(a: SyntaxNode, b: SyntaxNode, k: int)
    requires
        same_tree(a, b),
        0 <= k <= a.children@.len(),
    ensures
        size_upto(a, k) == size_upto(b, k),
    decreases a, k,
{
    if k > 0 {
        lemma_same_size_upto(a, b, k - 1);
        lemma_same_child(a, b, k - 1);
        lemma_same_size(a.children@[k - 1], b.children@[k - 1]);
    }
}

proof fn lemma_same_fits(a: SyntaxNode, b: SyntaxNode, src: Seq<char>)
    requires
        same_tree(a, b),
    ensures
        fits_source(a, src) == fits_source(b, src),
    decreases a, a.children@.len() + 1,
{
    lemma_same_fits_upto(a, b, src, a.children@.len() as int);
}

proof fn lemma_same_fits_upto(a: SyntaxNode, b: SyntaxNode, src: Seq<char>, k: int)
    requires
        same_tree(a, b),
        0 <= k <= a.children@.len(),
    ensures
        fits_source_upto(a, src, k) == fits_source_upto(b, src, k),
    decreases a, k,
{
    if k > 0 {
        lemma_same_fits_upto(a, b, src, k - 1);
        lemma_same_child(a, b, k - 1);
        lemma_same_fits(a.children@[k - 1], b.children@[k - 1], src);
    }
}

proof fn lemma_same_boolean_operator(a: SyntaxNode, b: SyntaxNode)
    requires
        same_tree(a, b),
    ensures
        is_boolean_operator_spec(a) == is_boolean_operator_spec(b),
{
    lemma_same_children_nodes(a, b);
    if is_boolean_operator_spec(a) {
        let i = choose|i: int|
            #![trigger a.children@[i]]
            0 <= i < a.children@.len() && (a.children@[i].field matches Some(f) && f@ == "operator"@)
                && crate::complexity::is_boolean_token(a.children@[i].kind@);
        assert(same_node(a.children@[i], b.children@[i]));
        assert(b.children@[i].field == a.children@[i].field);
    }
    if is_boolean_operator_spec(b) {
        let i = choose|i: int|
            #![trigger b.children@[i]]
            0 <= i < b.children@.len() && (b.children@[i].field matches Some(f) && f@ == "operator"@)
                && crate::complexity::is_boolean_token(b.children@[i].kind@);
        assert(same_node(a.children@[i], b.children@[i]));
        assert(a.children@[i].field == b.children@[i].field);
    }
}

proof fn lemma_same_descendants(a: SyntaxNode, b: SyntaxNode, kinds: Seq<&str>, function_kinds: Seq<&str>)
    requires
        same_tree(a, b),
    ensures
        descendants_of_kind(a, kinds, function_kinds) == descendants_of_kind(b, kinds, function_kinds),
    decreases a, a.children@.len() + 1,
{
    lemma_same_descendants_upto(a, b, kinds, function_kinds, a.children@.len() as int);
}

proof fn lemma_same_descendants_upto(a: SyntaxNode, b: SyntaxNode, kinds: Seq<&str>, function_kinds: Seq<&str>, k: int)
    requires
        same_tree(a, b),
        0 <= k <= a.children@.len(),
    ensures
        descendants_of_kind_upto(a, kinds, function_kinds, k) == descendants_of_kind_upto(b, kinds, function_kinds, k),
    decreases a, k,
{
    if k > 0 {
        lemma_same_descendants_upto(a, b, kinds, function_kinds, k - 1);
        lemma_same_child(a, b, k - 1);
        lemma_same_descendants(a.children@[k - 1], b.children@[k - 1], kinds, function_kinds);
    }
}

proof fn lemma_same_case_decisions(
    a: SyntaxNode,
    b: SyntaxNode,
    match_case_kinds: Seq<(&str, &str)>,
    function_kinds: Seq<&str>,
    j: int,
)
    requires
        same_tree(a, b),
    ensures
        case_decisions(a, match_case_kinds, function_kinds, j) == case_decisions(b, match_case_kinds, function_kinds, j),
    decreases j,
{
    if j > 0 && j <= match_case_kinds.len() {
        lemma_same_case_decisions(a, b, match_case_kinds, function_kinds, j - 1);
        lemma_same_descendants(a, b, seq![match_case_kinds[j - 1].1], function_kinds);
    }
}

pub proof fn lemma_same_decisions(
    a: SyntaxNode,
    b: SyntaxNode,
    decision_kinds: Seq<&str>,
    function_kinds: Seq<&str>,
    match_case_kinds: Seq<(&str, &str)>,
)
    requires
        same_tree(a, b),
    ensures
        decisions(a, decision_kinds, function_kinds, match_case_kinds) == decisions(
            b,
            decision_kinds,
            function_kinds,
            match_case_kinds,
        ),
    decreases a, a.children@.len() + 1,
{
    lemma_same_decisions_upto(a, b, decision_kinds, function_kinds, match_case_kinds, a.children@.len() as int);
}

proof fn lemma_same_decisions_upto(
    a: SyntaxNode,
    b: SyntaxNode,
    decision_kinds: Seq<&str>,
    function_kinds: Seq<&str>,
    match_case_kinds: Seq<(&str, &str)>,
    k: int,
)
    requires
        same_tree(a, b),
        0 <= k <= a.children@.len(),
    ensures
        decisions_upto(a, decision_kinds, function_kinds, match_case_kinds, k) == decisions_upto(
            b,
            decision_kinds,
            function_kinds,
            match_case_kinds,
            k,
        ),
    decreases a, k,
{
    if k > 0 {
        lemma_same_decisions_upto(a, b, decision_kinds, function_kinds, match_case_kinds, k - 1);
        lemma_same_child(a, b, k - 1);
        let ca = a.children@[k - 1];
        let cb = b.children@[k - 1];
        lemma_same_boolean_operator(ca, cb);
        lemma_same_case_decisions(ca, cb, match_case_kinds, function_kinds, match_case_kinds.len() as int);
        lemma_same_decisions(ca, cb, decision_kinds, function_kinds, match_case_kinds);
    }
}

proof fn lemma_same_nesting(a: SyntaxNode, b: SyntaxNode, decision_kinds: Seq<&str>, function_kinds: Seq<&str>, current: int)
    requires
        same_tree(a, b),
    ensures
        nesting(a, decision_kinds, function_kinds, current) == nesting(b, decision_kinds, function_kinds, current),
    decreases a, a.children@.len() + 1,
{
    lemma_same_nesting_upto(a, b, decision_kinds, function_kinds, current, a.children@.len() as int);
}

proof fn lemma_same_nesting_upto(
    a: SyntaxNode,
    b: SyntaxNode,
    decision_kinds: Seq<&str>,
    function_kinds: Seq<&str>,
    current: int,
    k: int,
)
    requires
        same_tree(a, b),
        0 <= k <= a.children@.len(),
    ensures
        nesting_upto(a, decision_kinds, function_kinds, current, k) == nesting_upto(
            b,
            decision_kinds,
            function_kinds,
            current,
            k,
        ),
    decreases a, k,
{
    if k > 0 {
        lemma_same_nesting_upto(a, b, decision_kinds, function_kinds, current, k - 1);
        lemma_same_child(a, b, k - 1);
        let ca = a.children@[k - 1];
        let cb = b.children@[k - 1];
        lemma_same_nesting(
            ca,
            cb,
            decision_kinds,
            function_kinds,
            current + crate::complexity::one_if(crate::complexity::listed(decision_kinds, ca.kind@)),
        );
    }
}

proof fn lemma_same_operators(a: SyntaxNode, b: SyntaxNode, operator_kinds: Seq<&str>, function_kinds: Seq<&str>)
    requires
        same_tree(a, b),
    ensures
        operator_seq(a, operator_kinds, function_kinds) == operator_seq(b, operator_kinds, function_kinds),
    decreases a, a.children@.len() + 1,
{
    lemma_same_operators_upto(a, b, operator_kinds, function_kinds, a.children@.len() as int);
}

proof fn lemma_same_operators_upto(a: SyntaxNode, b: SyntaxNode, operator_kinds: Seq<&str>, function_kinds: Seq<&str>, k: int)
    requires
        same_tree(a, b),
        0 <= k <= a.children@.len(),
    ensures
        operator_seq_upto(a, operator_kinds, function_kinds, k) == operator_seq_upto(b, operator_kinds, function_kinds, k),
    decreases a, k,
{
    if k > 0 {
        lemma_same_operators_upto(a, b, operator_kinds, function_kinds, k - 1);
        lemma_same_child(a, b, k - 1);
        lemma_same_operators(a.children@[k - 1], b.children@[k - 1], operator_kinds, function_kinds);
    }
}

proof fn lemma_same_operands(
    a: SyntaxNode,
    b: SyntaxNode,
    src: Seq<char>,
    operator_kinds: Seq<&str>,
    operand_kinds: Seq<&str>,
    function_kinds: Seq<&str>,
)
    requires
        same_tree(a, b),
    ensures
        operand_seq(a, src, operator_kinds, operand_kinds, function_kinds) == operand_seq(
            b,
            src,
            operator_kinds,
            operand_kinds,
            function_kinds,
        ),
    decreases a, a.children@.len() + 1,
{
    lemma_same_operands_upto(a, b, src, operator_kinds, operand_kinds, function_kinds, a.children@.len() as int);
}

proof fn lemma_same_operands_upto(
    a: SyntaxNode,
    b: SyntaxNode,
    src: Seq<char>,
    operator_kinds: Seq<&str>,
    operand_kinds: Seq<&str>,
    function_kinds: Seq<&str>,
    k: int,
)
    requires
        same_tree(a, b),
        0 <= k <= a.children@.len(),
    ensures
        operand_seq_upto(a, src, operator_kinds, operand_kinds, function_kinds, k) == operand_seq_upto(
            b,
            src,
            operator_kinds,
            operand_kinds,
            function_kinds,
            k,
        ),
    decreases a, k,
{
    if k > 0 {
        lemma_same_operands_upto(a, b, src, operator_kinds, operand_kinds, function_kinds, k - 1);
        lemma_same_child(a, b, k - 1);
        lemma_same_operands(a.children@[k - 1], b.children@[k - 1], src, operator_kinds, operand_kinds, function_kinds);
    }
}

proof fn lemma_same_declarator(a: SyntaxNode, b: SyntaxNode, src: Seq<char>)
    requires
        same_tree(a, b),
    ensures
        declarator_name(a, src) == declarator_name(b, src),
    decreases a, a.children@.len() + 1,
{
    lemma_same_declarator_from(a, b, src, 0);
}

proof fn lemma_same_declarator_from(a: SyntaxNode, b: SyntaxNode, src: Seq<char>, i: int)
    requires
        same_tree(a, b),
        0 <= i,
    ensures
        declarator_name_from(a, src, i) == declarator_name_from(b, src, i),
    decreases a, a.children@.len() - i,
{
    if i < a.children@.len() {
        lemma_same_child(a, b, i);
        lemma_same_declarator(a.children@[i], b.children@[i], src);
        lemma_same_declarator_from(a, b, src, i + 1);
    }
}

proof fn lemma_same_name_from(a: SyntaxNode, b: SyntaxNode, src: Seq<char>, cfg: ConfigView, i: int)
    requires
        same_tree(a, b),
        0 <= i,
    ensures
        name_from(a, src, cfg, i) == name_from(b, src, cfg, i),
    decreases a.children@.len() - i,
{
    if i < a.children@.len() {
        lemma_same_child(a, b, i);
        lemma_same_declarator(a.children@[i], b.children@[i], src);
        lemma_same_name_from(a, b, src, cfg, i + 1);
    }
}

proof fn lemma_same_first_with_field(a: SyntaxNode, b: SyntaxNode, i: int, f: Seq<char>)
    requires
        same_tree(a, b),
    ensures
        first_with_field(a, i, f) == first_with_field(b, i, f),
{
    lemma_same_children_nodes(a, b);
    if 0 <= i < a.children@.len() {
        assert(same_node(a.children@[i], b.children@[i]));
        assert forall|j: int| 0 <= j < i implies field_is(#[trigger] a.children@[j], f) == field_is(b.children@[j], f) by {
            assert(same_node(a.children@[j], b.children@[j]));
        }
        if first_with_field(b, i, f) {
            assert forall|j: int| 0 <= j < i implies !field_is(#[trigger] a.children@[j], f) by {
                assert(same_node(a.children@[j], b.children@[j]));
                assert(!field_is(b.children@[j], f));
            }
        }
        if first_with_field(a, i, f) {
            assert forall|j: int| 0 <= j < i implies !field_is(#[trigger] b.children@[j], f) by {
                assert(same_node(a.children@[j], b.children@[j]));
                assert(!field_is(a.children@[j], f));
            }
        }
    }
}

proof fn lemma_first_with_field_unique(p: SyntaxNode, i: int, j: int, f: Seq<char>)
    requires
        first_with_field(p, i, f),
        first_with_field(p, j, f),
    ensures
        i == j,
{
    if i < j {
        assert(!field_is(p.children@[i], f));
    } else if j < i {
        assert(!field_is(p.children@[j], f));
    }
}

proof fn lemma_same_node_tokens(style: TokenStyle, a: SyntaxNode, b: SyntaxNode, i: int, p_callee: bool, src: Seq<char>)
    requires
        same_tree(a, b),
    ensures
        node_tokens(style, a, i, p_callee, src) == node_tokens(style, b, i, p_callee, src),
    decreases a.children@[i], a.children@[i].children@.len() + 1,
{
    if 0 <= i < a.children@.len() {
        lemma_same_child(a, b, i);
        let ca = a.children@[i];
        let cb = b.children@[i];
        lemma_same_first_with_field(a, b, i, "function"@);
        lemma_same_first_with_field(a, b, i, "name"@);
        lemma_same_first_with_field(a, b, i, "field"@);
        lemma_same_first_with_field(a, b, i, "attribute"@);
        lemma_same_first_with_field(a, b, i, "property"@);
        let callee = callee_link(style, a, i, p_callee);
        assert(callee == callee_link(style, b, i, p_callee));
        assert(token_role(style, a, i, p_callee, callee) == token_role(style, b, i, p_callee, callee));
        lemma_same_child_tokens(style, ca, cb, callee, src, ca.children@.len() as int);
    }
}

proof fn lemma_same_child_tokens(style: TokenStyle, a: SyntaxNode, b: SyntaxNode, n_callee: bool, src: Seq<char>, k: int)
    requires
        same_tree(a, b),
        k <= a.children@.len(),
    ensures
        child_tokens(style, a, n_callee, src, k) == child_tokens(style, b, n_callee, src, k),
    decreases a, k,
{
    if k > 0 {
        lemma_same_child_tokens(style, a, b, n_callee, src, k - 1);
        lemma_same_node_tokens(style, a, b, k - 1, n_callee, src);
    }
}

proof fn lemma_same_body_tokens(style: TokenStyle, a: SyntaxNode, b: SyntaxNode, src: Seq<char>)
    requires
        same_tree(a, b),
    ensures
        body_tokens(style, a, src) == body_tokens(style, b, src),
{
    if exists|x: int| first_with_field(a, x, "body"@) {
        let ia = choose|x: int| first_with_field(a, x, "body"@);
        lemma_same_first_with_field(a, b, ia, "body"@);
        let ib = choose|x: int| first_with_field(b, x, "body"@);
        lemma_same_first_with_field(a, b, ib, "body"@);
        lemma_first_with_field_unique(a, ia, ib, "body"@);
        lemma_same_node_tokens(style, a, b, ia, false, src);
    } else if exists|x: int| first_with_field(b, x, "body"@) {
        let ib = choose|x: int| first_with_field(b, x, "body"@);
        lemma_same_first_with_field(a, b, ib, "body"@);
    }
}

/// The same functions give the same measures.
pub proof fn lemma_same_view(a: SyntaxNode, b: SyntaxNode, src: Seq<char>, cfg: ConfigView, compute_tokens: bool)
    requires
        same_tree(a, b),
    ensures
        function_view(a, src, cfg, compute_tokens) == function_view(b, src, cfg, compute_tokens),
{
    lemma_same_name_from(a, b, src, cfg, 0);
    lemma_same_decisions(a, b, cfg.decision_kinds, cfg.function_kinds, cfg.match_case_kinds);
    lemma_same_nesting(a, b, cfg.decision_kinds, cfg.function_kinds, 0);
    lemma_same_operators(a, b, cfg.operator_kinds, cfg.function_kinds);
    lemma_same_operands(a, b, src, cfg.operator_kinds, cfg.operand_kinds, cfg.function_kinds);
    match cfg.token_style {
        Some(style) => lemma_same_body_tokens(style, a, b, src),
        None => {},
    }
}

proof fn lemma_same_functions(a: SyntaxNode, b: SyntaxNode, src: Seq<char>, cfg: ConfigView, include_closures: bool, compute_tokens: bool)
    requires
        same_tree(a, b),
    ensures
        functions_in(a, src, cfg, include_closures, compute_tokens) == functions_in(b, src, cfg, include_closures, compute_tokens),
    decreases a, a.children@.len() + 1,
{
    lemma_same_view(a, b, src, cfg, compute_tokens);
    lemma_same_functions_upto(a, b, src, cfg, include_closures, compute_tokens, a.children@.len() as int);
}

proof fn lemma_same_functions_upto(
    a: SyntaxNode,
    b: SyntaxNode,
    src: Seq<char>,
    cfg: ConfigView,
    include_closures: bool,
    compute_tokens: bool,
    k: int,
)
    requires
        same_tree(a, b),
        0 <= k <= a.children@.len(),
    ensures
        functions_in_upto(a, src, cfg, include_closures, compute_tokens, k) == functions_in_upto(
            b,
            src,
            cfg,
            include_closures,
            compute_tokens,
            k,
        ),
    decreases a, k,
{
    if k > 0 {
        lemma_same_functions_upto(a, b, src, cfg, include_closures, compute_tokens, k - 1);
        lemma_same_child(a, b, k - 1);
        lemma_same_functions(a.children@[k - 1], b.children@[k - 1], src, cfg, include_closures, compute_tokens);
    }
}

proof fn lemma_same_limits(a: SyntaxNode, b: SyntaxNode, cfg: ConfigView)
    requires
        same_tree(a, b),
    ensures
        limits_ok(a, cfg) == limits_ok(b, cfg),
    decreases a, a.children@.len() + 1,
{
    lemma_same_size(a, b);
    lemma_same_decisions(a, b, cfg.decision_kinds, cfg.function_kinds, cfg.match_case_kinds);
    lemma_same_limits_upto(a, b, cfg, a.children@.len() as int);
}

proof fn lemma_same_limits_upto(a: SyntaxNode, b: SyntaxNode, cfg: ConfigView, k: int)
    requires
        same_tree(a, b),
        0 <= k <= a.children@.len(),
    ensures
        limits_ok_upto(a, cfg, k) == limits_ok_upto(b, cfg, k),
    decreases a, k,
{
    if k > 0 {
        lemma_same_limits_upto(a, b, cfg, k - 1);
        lemma_same_child(a, b, k - 1);
        lemma_same_limits(a.children@[k - 1], b.children@[k - 1], cfg);
    }
}

/// The same tree gives the same analysis.
pub proof fn lemma_same_analysis(a: SyntaxNode, b: SyntaxNode, src: Seq<char>, cfg: ConfigView, include_closures: bool, compute_tokens: bool)
    requires
        same_tree(a, b),
    ensures
        tree_analysis(a, src, cfg, include_closures, compute_tokens) == tree_analysis(
            b,
            src,
            cfg,
            include_closures,
            compute_tokens,
        ),
{
    lemma_same_fits(a, b, src);
    lemma_same_limits(a, b, cfg);
    lemma_same_functions(a, b, src, cfg, include_closures, compute_tokens);
}

} // verus!
