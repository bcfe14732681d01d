//! Decision points: which nodes count toward cyclomatic complexity.

use vstd::prelude::*;
use crate::syntax::SyntaxNode;
use crate::text::text_eq;
use crate::tree::sat;

verus! {

/// `k` is one of the strings of `kinds`.
pub open spec fn listed(kinds: Seq<&str>, k: Seq<char>) -> bool {
    exists|i: int| 0 <= i < kinds.len() && kinds[i]@ == k
}

/// 1 for true, 0 for false.
pub open spec fn one_if(b: bool) -> nat {
    if b { 1 } else { 0 }
}

/// Whether `kind` is one of `kinds`.
pub fn kind_listed(kinds: &[&str], kind: &str) -> (r: bool)
    ensures
        r == listed(kinds@, kind@),
{
    let mut i: usize = 0;
    while i < kinds.len()
        invariant
            i <= kinds@.len(),
            forall|j: int| 0 <= j < i ==> kinds@[j]@ != kind@,
        decreases kinds@.len() - i,
    {
        if text_eq(kinds[i], kind) {
            return true;
        }
        i += 1;
    }
    false
}

/// The token kinds of the short-circuit boolean operators (`&&`, `||`, and
/// Python's `and`, `or`).
pub open spec fn is_boolean_token(k: Seq<char>) -> bool {
    k == "&&"@ || k == "||"@ || k == "and"@ || k == "or"@
}

/// `n` is a binary expression (`binary_expression`, or Python's
/// `boolean_operator`) whose `operator` child is a short-circuit boolean
/// operator.
pub open spec fn is_boolean_operator_spec(n: SyntaxNode) -> bool {
    &&& (n.kind@ == "binary_expression"@ || n.kind@ == "boolean_operator"@)
    &&& exists|i: int|
        #![trigger n.children@[i]]
        0 <= i < n.children@.len() && (n.children@[i].field matches Some(f) && f@ == "operator"@)
            && is_boolean_token(n.children@[i].kind@)
}

/// Whether `node` is a short-circuit boolean operation (see
/// `is_boolean_operator_spec`); each one is a decision point.
pub fn is_boolean_operator(node: &SyntaxNode) -> (r: bool)
    ensures
        r == is_boolean_operator_spec(*node),
{
    if !(text_eq(node.kind.as_str(), "binary_expression") || text_eq(node.kind.as_str(), "boolean_operator")) {
        return false;
    }
    let mut i: usize = 0;
    while i < node.children.len()
        invariant
            i <= node.children@.len(),
            node.kind@ == "binary_expression"@ || node.kind@ == "boolean_operator"@,
            forall|j: int|
                #![trigger node.children@[j]]
                0 <= j < i ==> !((node.children@[j].field matches Some(f) && f@ == "operator"@)
                    && is_boolean_token(node.children@[j].kind@)),
        decreases node.children@.len() - i,
    {
        let c = &node.children[i];
        let in_operator_field = match &c.field {
            Some(f) => text_eq(f.as_str(), "operator"),
            None => false,
        };
        if in_operator_field {
            let k = c.kind.as_str();
            if text_eq(k, "&&") || text_eq(k, "||") || text_eq(k, "and") || text_eq(k, "or") {
                assert(node.children@[i as int] == *c);
                return true;
            }
        }
        i += 1;
    }
    false
}

/// Number of proper descendants of `n` whose kind is in `kinds`, not
/// looking inside children whose kind is in `function_kinds` (nor counting them).
pub open spec fn descendants_of_kind(n: SyntaxNode, kinds: Seq<&str>, function_kinds: Seq<&str>) -> nat
    decreases n, n.children@.len() + 1,
{
    descendants_of_kind_upto(n, kinds, function_kinds, n.children@.len() as int)
}

/// `descendants_of_kind` restricted to the first `k` children of `n`.
pub open spec fn descendants_of_kind_upto(
    n: SyntaxNode,
    kinds: Seq<&str>,
    function_kinds: Seq<&str>,
    k: int,
) -> nat
    decreases n, k,
{
    if k <= 0 || k > n.children@.len() {
        0
    } else {
        let c = n.children@[k - 1];
        descendants_of_kind_upto(n, kinds, function_kinds, k - 1) + if listed(function_kinds, c.kind@) {
            0
        } else {
            one_if(listed(kinds, c.kind@)) + descendants_of_kind(c, kinds, function_kinds)
        }
    }
}

/// `descendants_of_kind(node, kinds, function_kinds)`, capped at `u64::MAX`.
pub fn count_descendants_of_kind(node: &SyntaxNode, kinds: &[&str], function_kinds: &[&str]) -> (r: u64)
    ensures
        r == sat(descendants_of_kind(*node, kinds@, function_kinds@)),
    decreases node,
{
    let mut count: u64 = 0;
    let mut i: usize = 0;
    while i < node.children.len()
        invariant
            i <= node.children@.len(),
            count == sat(descendants_of_kind_upto(*node, kinds@, function_kinds@, i as int)),
        decreases node.children@.len() - i,
    {
        let c = &node.children[i];
        if !kind_listed(function_kinds, c.kind.as_str()) {
            let here: u64 = if kind_listed(kinds, c.kind.as_str()) { 1 } else { 0 };
            let below = count_descendants_of_kind(c, kinds, function_kinds);
            count = count.saturating_add(here.saturating_add(below));
        }
        i += 1;
    }
    count
}

/// Decision points that the case kinds of `match_case_kinds` contribute for
/// a child `c` (first `j` pairs): for each `(container, case)` pair with
/// `container` equal to `c`'s kind, the number of `case` descendants of `c`.
pub open spec fn case_decisions(
    c: SyntaxNode,
    match_case_kinds: Seq<(&str, &str)>,
    function_kinds: Seq<&str>,
    j: int,
) -> nat
    decreases j,
{
    if j <= 0 || j > match_case_kinds.len() {
        0
    } else {
        case_decisions(c, match_case_kinds, function_kinds, j - 1) + if c.kind@
            == match_case_kinds[j - 1].0@ {
            descendants_of_kind(c, seq![match_case_kinds[j - 1].1], function_kinds)
        } else {
            0
        }
    }
}

/// The decision points below `n`: over each child that is not itself a
/// function, 1 if its kind is a decision kind, 1 if it is a short-circuit
/// boolean operation, its case decisions, and the decision points below it.
pub open spec fn decisions(
    n: SyntaxNode,
    decision_kinds: Seq<&str>,
    function_kinds: Seq<&str>,
    match_case_kinds: Seq<(&str, &str)>,
) -> nat
    decreases n, n.children@.len() + 1,
{
    decisions_upto(n, decision_kinds, function_kinds, match_case_kinds, n.children@.len() as int)
}

/// `decisions` restricted to the first `k` children of `n`.
pub open spec fn decisions_upto(
    n: SyntaxNode,
    decision_kinds: Seq<&str>,
    function_kinds: Seq<&str>,
    match_case_kinds: Seq<(&str, &str)>,
    k: int,
) -> nat
    decreases n, k,
{
    if k <= 0 || k > n.children@.len() {
        0
    } else {
        let c = n.children@[k - 1];
        decisions_upto(n, decision_kinds, function_kinds, match_case_kinds, k - 1) + if listed(
            function_kinds,
            c.kind@,
        ) {
            0
        } else {
            one_if(listed(decision_kinds, c.kind@)) + one_if(is_boolean_operator_spec(c))
                + case_decisions(c, match_case_kinds, function_kinds, match_case_kinds.len() as int)
                + decisions(c, decision_kinds, function_kinds, match_case_kinds)
        }
    }
}

/// `case_decisions` of `c` over all of `match_case_kinds`, capped at `u64::MAX`.
fn count_case_decisions(c: &SyntaxNode, match_case_kinds: &[(&str, &str)], function_kinds: &[&str]) -> (r: u64)
    ensures
        r == sat(case_decisions(*c, match_case_kinds@, function_kinds@, match_case_kinds@.len() as int)),
{
    let mut count: u64 = 0;
    let mut j: usize = 0;
    while j < match_case_kinds.len()
        invariant
            j <= match_case_kinds@.len(),
            count == sat(case_decisions(*c, match_case_kinds@, function_kinds@, j as int)),
        decreases match_case_kinds@.len() - j,
    {
        let (container, case_kind) = match_case_kinds[j];
        if text_eq(c.kind.as_str(), container) {
            let one = vec![case_kind];
            assert(one@ =~= seq![match_case_kinds@[j as int].1]);
            let n = count_descendants_of_kind(c, one.as_slice(), function_kinds);
            count = count.saturating_add(n);
        }
        j += 1;
    }
    count
}

/// `decisions(node, ...)`, capped at `u64::MAX`.
pub fn count_decisions_capped(
    node: &SyntaxNode,
    decision_kinds: &[&str],
    function_kinds: &[&str],
    match_case_kinds: &[(&str, &str)],
) -> (r: u64)
    ensures
        r == sat(decisions(*node, decision_kinds@, function_kinds@, match_case_kinds@)),
    decreases node,
{
    let mut count: u64 = 0;
    let mut i: usize = 0;
    while i < node.children.len()
        invariant
            i <= node.children@.len(),
            count == sat(
                decisions_upto(*node, decision_kinds@, function_kinds@, match_case_kinds@, i as int),
            ),
        decreases node.children@.len() - i,
    {
        let c = &node.children[i];
        if !kind_listed(function_kinds, c.kind.as_str()) {
            let d: u64 = if kind_listed(decision_kinds, c.kind.as_str()) { 1 } else { 0 };
            let b: u64 = if is_boolean_operator(c) { 1 } else { 0 };
            let cases = count_case_decisions(c, match_case_kinds, function_kinds);
            let below = count_decisions_capped(c, decision_kinds, function_kinds, match_case_kinds);
            count = count.saturating_add(d.saturating_add(b).saturating_add(cases).saturating_add(below));
        }
        i += 1;
    }
    count
}

/// Each short-circuit operator makes its binary expression a decision point:
/// a `binary_expression` or Python `boolean_operator` whose `operator`
/// child is `&&`, `||`, `and` or `or` is a boolean operation, whichever of
/// the four it is; and an expression of another kind never is.
pub proof fn lemma_short_circuit_operators_count(n: SyntaxNode, i: int)
    requires
        0 <= i < n.children@.len(),
        n.children@[i].field matches Some(f) && f@ == "operator"@,
    ensures
        (n.kind@ == "binary_expression"@ || n.kind@ == "boolean_operator"@) ==> (
            (n.children@[i].kind@ == "&&"@ || n.children@[i].kind@ == "||"@ || n.children@[i].kind@ == "and"@
                || n.children@[i].kind@ == "or"@) ==> is_boolean_operator_spec(n)),
        !(n.kind@ == "binary_expression"@ || n.kind@ == "boolean_operator"@) ==> !is_boolean_operator_spec(n),
{
    if (n.kind@ == "binary_expression"@ || n.kind@ == "boolean_operator"@) && (n.children@[i].kind@ == "&&"@
        || n.children@[i].kind@ == "||"@ || n.children@[i].kind@ == "and"@ || n.children@[i].kind@ == "or"@) {
        assert(is_boolean_token(n.children@[i].kind@));
    }
}

/// Every child of `n` that is not a function contributes its own decision
/// points to those of `n`: one if its kind is a decision kind, one if it is
/// a short-circuit boolean operation, and all the decision points below it.
pub proof fn lemma_child_decisions(
    n: SyntaxNode,
    decision_kinds: Seq<&str>,
    function_kinds: Seq<&str>,
    match_case_kinds: Seq<(&str, &str)>,
    i: int,
)
    requires
        0 <= i < n.children@.len(),
        !listed(function_kinds, n.children@[i].kind@),
    ensures
        decisions(n, decision_kinds, function_kinds, match_case_kinds) >= one_if(
            listed(decision_kinds, n.children@[i].kind@),
        ) + one_if(is_boolean_operator_spec(n.children@[i])) + decisions(
            n.children@[i],
            decision_kinds,
            function_kinds,
            match_case_kinds,
        ),
{
    lemma_decisions_upto_grows(n, decision_kinds, function_kinds, match_case_kinds, i + 1, n.children@.len() as int);
}

proof fn lemma_decisions_upto_grows(
    n: SyntaxNode,
    decision_kinds: Seq<&str>,
    function_kinds: Seq<&str>,
    match_case_kinds: Seq<(&str, &str)>,
    k: int,
    m: int,
)
    requires
        0 <= k <= m <= n.children@.len(),
    ensures
        decisions_upto(n, decision_kinds, function_kinds, match_case_kinds, k) <= decisions_upto(
            n,
            decision_kinds,
            function_kinds,
            match_case_kinds,
            m,
        ),
    decreases m - k,
{
    if k < m {
        lemma_decisions_upto_grows(n, decision_kinds, function_kinds, match_case_kinds, k, m - 1);
    }
}

} // verus!
