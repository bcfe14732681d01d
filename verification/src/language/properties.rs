//! Properties of the function analysis that hold for every tree.

use vstd::prelude::*;
use crate::cognitive::lemma_halstead_below_size;
use crate::complexity::listed;
use crate::language::{
    function_view, functions_in, functions_in_upto, is_target, lemma_limits_ok_upto_child, limits_ok,
    limits_ok_upto, source_analysis, tree_analysis, ConfigView,
};
use crate::language::sameness::lemma_same_analysis;
use crate::syntax::{
    flatten, lemma_flatten_determines, lemma_flatten_is_preorder, lemma_flatten_len, parse_outcome, same_tree, Grammar,
    ParseOutcome, SyntaxNode,
};
use crate::tree::{fits_source, fits_source_upto, lemma_fits_source_upto_child, lemma_height_below_size};
use crate::{function_views, FunctionComplexity, FunctionView};

verus! {

/// The measures of a function are consistent: complexity at least one, a
/// line range that starts at line one or later and spans `lines` lines, and
/// no more distinct operators or operands than occurrences.
pub open spec fn well_measured(f: FunctionView) -> bool {
    &&& f.complexity >= 1
    &&& 1 <= f.line_start <= f.line_end
    &&& f.lines == f.line_end - f.line_start + 1
    &&& f.halstead.distinct_operators <= f.halstead.total_operators
    &&& f.halstead.distinct_operands <= f.halstead.total_operands
}

proof fn lemma_view_measured(n: SyntaxNode, src: Seq<char>, cfg: ConfigView, compute_tokens: bool)
    requires
        listed(cfg.function_kinds, n.kind@),
        fits_source(n, src),
        limits_ok(n, cfg),
    ensures
        well_measured(function_view(n, src, cfg, compute_tokens)),
{
    let ops = crate::cognitive::operator_seq(n, cfg.operator_kinds, cfg.function_kinds);
    let opnds = crate::cognitive::operand_seq(n, src, cfg.operator_kinds, cfg.operand_kinds, cfg.function_kinds);
    lemma_halstead_below_size(n, src, cfg.operator_kinds, cfg.operand_kinds, cfg.function_kinds);
    ops.lemma_cardinality_of_set();
    opnds.lemma_cardinality_of_set();
}

/// Every function that the analysis of a subtree reports is well measured.
pub proof fn lemma_functions_well_measured(
    n: SyntaxNode,
    src: Seq<char>,
    cfg: ConfigView,
    include_closures: bool,
    compute_tokens: bool,
)
    requires
        fits_source(n, src),
        limits_ok(n, cfg),
    ensures
        forall|i: int|
            0 <= i < functions_in(n, src, cfg, include_closures, compute_tokens).len() ==> well_measured(
                #[trigger] functions_in(n, src, cfg, include_closures, compute_tokens)[i],
            ),
    decreases n, n.children@.len() + 1,
{
    lemma_upto_well_measured(n, src, cfg, include_closures, compute_tokens, n.children@.len() as int);
    if is_target(n, cfg, include_closures) {
        lemma_view_measured(n, src, cfg, compute_tokens);
    }
    let head: Seq<FunctionView> = if is_target(n, cfg, include_closures) {
        seq![function_view(n, src, cfg, compute_tokens)]
    } else {
        seq![]
    };
    let rest = functions_in_upto(n, src, cfg, include_closures, compute_tokens, n.children@.len() as int);
    assert(functions_in(n, src, cfg, include_closures, compute_tokens) == head + rest);
    assert forall|i: int| 0 <= i < (head + rest).len() implies well_measured(#[trigger] (head + rest)[i]) by {
        if i >= head.len() {
            assert((head + rest)[i] == rest[i - head.len()]);
        }
    }
}

proof fn lemma_upto_well_measured(
    n: SyntaxNode,
    src: Seq<char>,
    cfg: ConfigView,
    include_closures: bool,
    compute_tokens: bool,
    k: int,
)
    requires
        0 <= k <= n.children@.len(),
        fits_source_upto(n, src, n.children@.len() as int),
        limits_ok_upto(n, cfg, n.children@.len() as int),
    ensures
        forall|i: int|
            0 <= i < functions_in_upto(n, src, cfg, include_closures, compute_tokens, k).len() ==> well_measured(
                #[trigger] functions_in_upto(n, src, cfg, include_closures, compute_tokens, k)[i],
            ),
    decreases n, k,
{
    if k > 0 {
        lemma_upto_well_measured(n, src, cfg, include_closures, compute_tokens, k - 1);
        let len = n.children@.len() as int;
        lemma_fits_source_upto_child(n, src, len, k - 1);
        lemma_limits_ok_upto_child(n, cfg, len, k - 1);
        let child = n.children@[k - 1];
        lemma_functions_well_measured(child, src, cfg, include_closures, compute_tokens);
        let a = functions_in_upto(n, src, cfg, include_closures, compute_tokens, k - 1);
        let b = functions_in(child, src, cfg, include_closures, compute_tokens);
        assert(functions_in_upto(n, src, cfg, include_closures, compute_tokens, k) == a + b);
        assert forall|i: int| 0 <= i < (a + b).len() implies well_measured(#[trigger] (a + b)[i]) by {
            if i < a.len() {
                assert((a + b)[i] == a[i]);
            } else {
                assert((a + b)[i] == b[i - a.len()]);
            }
        }
    }
}

/// Every function of a successful analysis is well measured.
pub proof fn lemma_analysis_well_measured(
    t: SyntaxNode,
    src: Seq<char>,
    cfg: ConfigView,
    include_closures: bool,
    compute_tokens: bool,
)
    requires
        tree_analysis(t, src, cfg, include_closures, compute_tokens) is Some,
    ensures
        forall|i: int|
            0 <= i < tree_analysis(t, src, cfg, include_closures, compute_tokens)->0.len() ==> well_measured(
                #[trigger] tree_analysis(t, src, cfg, include_closures, compute_tokens)->0[i],
            ),
{
    lemma_functions_well_measured(t, src, cfg, include_closures, compute_tokens);
}

/// A function's measures without its clone-detection tokens.
pub open spec fn without_tokens(f: FunctionView) -> FunctionView {
    FunctionView { clone_tokens: seq![], ..f }
}

/// Asking for clone-detection tokens changes no other measure: the analysis
/// without them is the analysis with them, tokens dropped.
pub proof fn lemma_tokens_change_nothing_else(
    n: SyntaxNode,
    src: Seq<char>,
    cfg: ConfigView,
    include_closures: bool,
)
    ensures
        functions_in(n, src, cfg, include_closures, false) == functions_in(
            n,
            src,
            cfg,
            include_closures,
            true,
        ).map_values(|f: FunctionView| without_tokens(f)),
    decreases n, n.children@.len() + 1,
{
    let k = n.children@.len() as int;
    lemma_upto_tokens_change_nothing_else(n, src, cfg, include_closures, k);
    let ht: Seq<FunctionView> = if is_target(n, cfg, include_closures) {
        seq![function_view(n, src, cfg, true)]
    } else {
        seq![]
    };
    let hf: Seq<FunctionView> = if is_target(n, cfg, include_closures) {
        seq![function_view(n, src, cfg, false)]
    } else {
        seq![]
    };
    let rt = functions_in_upto(n, src, cfg, include_closures, true, k);
    let rf = functions_in_upto(n, src, cfg, include_closures, false, k);
    assert(hf =~= ht.map_values(|f: FunctionView| without_tokens(f)));
    assert((ht + rt).map_values(|f: FunctionView| without_tokens(f)) =~= ht.map_values(
        |f: FunctionView| without_tokens(f),
    ) + rt.map_values(|f: FunctionView| without_tokens(f)));
}

proof fn lemma_upto_tokens_change_nothing_else(
    n: SyntaxNode,
    src: Seq<char>,
    cfg: ConfigView,
    include_closures: bool,
    k: int,
)
    requires
        0 <= k <= n.children@.len(),
    ensures
        functions_in_upto(n, src, cfg, include_closures, false, k) == functions_in_upto(
            n,
            src,
            cfg,
            include_closures,
            true,
            k,
        ).map_values(|f: FunctionView| without_tokens(f)),
    decreases n, k,
{
    if k > 0 {
        lemma_upto_tokens_change_nothing_else(n, src, cfg, include_closures, k - 1);
        let child = n.children@[k - 1];
        lemma_tokens_change_nothing_else(child, src, cfg, include_closures);
        let at = functions_in_upto(n, src, cfg, include_closures, true, k - 1);
        let bt = functions_in(child, src, cfg, include_closures, true);
        assert((at + bt).map_values(|f: FunctionView| without_tokens(f)) =~= at.map_values(
            |f: FunctionView| without_tokens(f),
        ) + bt.map_values(|f: FunctionView| without_tokens(f)));
    }
}

/// Without clone detection asked for, no function carries tokens.
pub proof fn lemma_no_tokens_unless_asked(n: SyntaxNode, src: Seq<char>, cfg: ConfigView, include_closures: bool)
    ensures
        forall|i: int|
            0 <= i < functions_in(n, src, cfg, include_closures, false).len() ==> (#[trigger] functions_in(
                n,
                src,
                cfg,
                include_closures,
                false,
            )[i]).clone_tokens.len() == 0,
{
    lemma_tokens_change_nothing_else(n, src, cfg, include_closures);
}

/// Including closures only adds functions: the analysis without them
/// reports at most as many.
pub proof fn lemma_closures_only_add(n: SyntaxNode, src: Seq<char>, cfg: ConfigView, compute_tokens: bool)
    ensures
        functions_in(n, src, cfg, false, compute_tokens).len() <= functions_in(
            n,
            src,
            cfg,
            true,
            compute_tokens,
        ).len(),
        cfg.closure_kinds.len() == 0 ==> functions_in(n, src, cfg, false, compute_tokens) == functions_in(
            n,
            src,
            cfg,
            true,
            compute_tokens,
        ),
    decreases n, n.children@.len() + 1,
{
    lemma_upto_closures_only_add(n, src, cfg, compute_tokens, n.children@.len() as int);
}

proof fn lemma_upto_closures_only_add(n: SyntaxNode, src: Seq<char>, cfg: ConfigView, compute_tokens: bool, k: int)
    requires
        0 <= k <= n.children@.len(),
    ensures
        functions_in_upto(n, src, cfg, false, compute_tokens, k).len() <= functions_in_upto(
            n,
            src,
            cfg,
            true,
            compute_tokens,
            k,
        ).len(),
        cfg.closure_kinds.len() == 0 ==> functions_in_upto(n, src, cfg, false, compute_tokens, k)
            == functions_in_upto(n, src, cfg, true, compute_tokens, k),
    decreases n, k,
{
    if k > 0 {
        lemma_upto_closures_only_add(n, src, cfg, compute_tokens, k - 1);
        lemma_closures_only_add(n.children@[k - 1], src, cfg, compute_tokens);
    }
}

/// For each function that the analysis with closures reports, in the same
/// order, whether the analysis without closures keeps it: whether its kind
/// is no closure kind.
pub open spec fn kept_without_closures(n: SyntaxNode, cfg: ConfigView) -> Seq<bool>
    decreases n, n.children@.len() + 1,
{
    (if is_target(n, cfg, true) {
        seq![!listed(cfg.closure_kinds, n.kind@)]
    } else {
        seq![]
    }) + kept_without_closures_upto(n, cfg, n.children@.len() as int)
}

/// `kept_without_closures` of the first `k` children of `n`, concatenated.
pub open spec fn kept_without_closures_upto(n: SyntaxNode, cfg: ConfigView, k: int) -> Seq<bool>
    decreases n, k,
{
    if k <= 0 || k > n.children@.len() {
        seq![]
    } else {
        kept_without_closures_upto(n, cfg, k - 1) + kept_without_closures(n.children@[k - 1], cfg)
    }
}

/// The elements of `s` whose flag in `keep` is set, in order.
pub open spec fn select<A>(s: Seq<A>, keep: Seq<bool>) -> Seq<A>
    decreases s.len(),
{
    if s.len() == 0 || keep.len() == 0 {
        seq![]
    } else {
        select(s.drop_last(), keep.drop_last()) + if keep.last() {
            seq![s.last()]
        } else {
            seq![]
        }
    }
}

proof fn lemma_select_concat<A>(s1: Seq<A>, k1: Seq<bool>, s2: Seq<A>, k2: Seq<bool>)
    requires
        s1.len() == k1.len(),
        s2.len() == k2.len(),
    ensures
        select(s1 + s2, k1 + k2) == select(s1, k1) + select(s2, k2),
    decreases s2.len(),
{
    if s2.len() == 0 {
        assert(s1 + s2 =~= s1);
        assert(k1 + k2 =~= k1);
        assert(select(s1, k1) + select(s2, k2) =~= select(s1, k1));
    } else {
        lemma_select_concat(s1, k1, s2.drop_last(), k2.drop_last());
        assert((s1 + s2).drop_last() =~= s1 + s2.drop_last());
        assert((k1 + k2).drop_last() =~= k1 + k2.drop_last());
        let tail: Seq<A> = if k2.last() { seq![s2.last()] } else { seq![] };
        assert(select(s1 + s2, k1 + k2) == select(s1 + s2.drop_last(), k1 + k2.drop_last()) + tail);
        assert(select(s2, k2) == select(s2.drop_last(), k2.drop_last()) + tail);
        assert(select(s1, k1) + select(s2.drop_last(), k2.drop_last()) + tail =~= select(s1, k1) + (select(
            s2.drop_last(),
            k2.drop_last(),
        ) + tail));
    }
}

/// The analysis without closures is the analysis with closures minus the
/// functions whose kind is a closure kind: the others stay, identical and in
/// the same order.
pub proof fn lemma_closures_filtered(n: SyntaxNode, src: Seq<char>, cfg: ConfigView, compute_tokens: bool)
    ensures
        kept_without_closures(n, cfg).len() == functions_in(n, src, cfg, true, compute_tokens).len(),
        functions_in(n, src, cfg, false, compute_tokens) == select(
            functions_in(n, src, cfg, true, compute_tokens),
            kept_without_closures(n, cfg),
        ),
    decreases n, n.children@.len() + 1,
{
    let k = n.children@.len() as int;
    lemma_upto_closures_filtered(n, src, cfg, compute_tokens, k);
    let ht: Seq<FunctionView> = if is_target(n, cfg, true) {
        seq![function_view(n, src, cfg, compute_tokens)]
    } else {
        seq![]
    };
    let hk: Seq<bool> = if is_target(n, cfg, true) {
        seq![!listed(cfg.closure_kinds, n.kind@)]
    } else {
        seq![]
    };
    let rt = functions_in_upto(n, src, cfg, true, compute_tokens, k);
    let rk = kept_without_closures_upto(n, cfg, k);
    lemma_select_concat(ht, hk, rt, rk);
    if is_target(n, cfg, true) {
        assert(select(ht, hk) == select(ht.drop_last(), hk.drop_last()) + if hk.last() {
            seq![ht.last()]
        } else {
            seq![]
        });
        assert(select(ht.drop_last(), hk.drop_last()) == Seq::<FunctionView>::empty());
        if is_target(n, cfg, false) {
            assert(select(ht, hk) =~= ht);
        } else {
            assert(select(ht, hk) =~= Seq::<FunctionView>::empty());
        }
    } else {
        assert(select(ht, hk) =~= Seq::<FunctionView>::empty());
    }
}

proof fn lemma_upto_closures_filtered(n: SyntaxNode, src: Seq<char>, cfg: ConfigView, compute_tokens: bool, k: int)
    requires
        0 <= k <= n.children@.len(),
    ensures
        kept_without_closures_upto(n, cfg, k).len() == functions_in_upto(n, src, cfg, true, compute_tokens, k).len(),
        functions_in_upto(n, src, cfg, false, compute_tokens, k) == select(
            functions_in_upto(n, src, cfg, true, compute_tokens, k),
            kept_without_closures_upto(n, cfg, k),
        ),
    decreases n, k,
{
    if k > 0 {
        lemma_upto_closures_filtered(n, src, cfg, compute_tokens, k - 1);
        let c = n.children@[k - 1];
        lemma_closures_filtered(c, src, cfg, compute_tokens);
        lemma_select_concat(
            functions_in_upto(n, src, cfg, true, compute_tokens, k - 1),
            kept_without_closures_upto(n, cfg, k - 1),
            functions_in(c, src, cfg, true, compute_tokens),
            kept_without_closures(c, cfg),
        );
    }
}

/// A successful analysis without closures reports exactly the functions of
/// the analysis with closures whose kind is no closure kind, in the same
/// order; the two succeed or fail together.
pub proof fn lemma_analysis_without_closures(t: SyntaxNode, src: Seq<char>, cfg: ConfigView, compute_tokens: bool)
    ensures
        tree_analysis(t, src, cfg, false, compute_tokens) == match tree_analysis(t, src, cfg, true, compute_tokens) {
            Some(fs) => Some(select(fs, kept_without_closures(t, cfg))),
            None => None,
        },
{
    lemma_closures_filtered(t, src, cfg, compute_tokens);
}

/// Carried to a source text: when the analysis of `src` with closures gives
/// `all`, the tree that tree-sitter's listing describes and that gives `all`
/// gives, without closures, exactly the entries of `all` whose kind is no
/// closure kind, identical and in the same order.
pub proof fn lemma_source_without_closures(
    grammar: Grammar,
    src: Seq<char>,
    cfg: ConfigView,
    language: Seq<char>,
    compute_tokens: bool,
    all: Vec<FunctionComplexity>,
)
    requires
        source_analysis(grammar, src, cfg, language, true, compute_tokens, Ok(all)),
    ensures
        parse_outcome(grammar, src) matches ParseOutcome::Parsed(records) && exists|t: SyntaxNode|
            flatten(t, 0) == records@ && #[trigger] tree_analysis(t, src, cfg, true, compute_tokens) == Some(
                function_views(all@),
            ) && tree_analysis(t, src, cfg, false, compute_tokens) == Some(
                select(function_views(all@), kept_without_closures(t, cfg)),
            ),
{
    match parse_outcome(grammar, src) {
        ParseOutcome::Parsed(records) => {
            let t = choose|t: SyntaxNode|
                flatten(t, 0) == records@ && tree_analysis(t, src, cfg, true, compute_tokens) == Some(
                    function_views(all@),
                );
            lemma_analysis_without_closures(t, src, cfg, compute_tokens);
        },
        _ => {},
    }
}

/// Two analyses of the same source text: when the analysis with closures
/// gives `all`, the analysis without closures succeeds and gives exactly the
/// entries of `all` whose kind is no closure kind, identical and in the same
/// order (the kinds being those of the tree that tree-sitter's listing
/// describes).
pub proof fn lemma_analyze_without_closures(
    grammar: Grammar,
    src: Seq<char>,
    cfg: ConfigView,
    language: Seq<char>,
    compute_tokens: bool,
    all: Vec<FunctionComplexity>,
    r: Result<Vec<FunctionComplexity>, String>,
)
    requires
        source_analysis(grammar, src, cfg, language, true, compute_tokens, Ok(all)),
        source_analysis(grammar, src, cfg, language, false, compute_tokens, r),
    ensures
        parse_outcome(grammar, src) matches ParseOutcome::Parsed(records) && exists|t: SyntaxNode|
            flatten(t, 0) == records@ && #[trigger] tree_analysis(t, src, cfg, true, compute_tokens) == Some(
                function_views(all@),
            ) && (r matches Ok(some) && function_views(some@) == select(
                function_views(all@),
                kept_without_closures(t, cfg),
            )),
{
    match parse_outcome(grammar, src) {
        ParseOutcome::Parsed(records) => {
            let t = choose|t: SyntaxNode|
                flatten(t, 0) == records@ && tree_analysis(t, src, cfg, true, compute_tokens) == Some(
                    function_views(all@),
                );
            assert(records@.len() == records.len());
            lemma_flatten_is_preorder(t);
            lemma_analysis_without_closures(t, src, cfg, compute_tokens);
            match r {
                Ok(some) => {
                    let u = choose|u: SyntaxNode|
                        flatten(u, 0) == records@ && tree_analysis(u, src, cfg, false, compute_tokens) == Some(
                            function_views(some@),
                        );
                    lemma_same_listing(t, u);
                    lemma_same_analysis(t, u, src, cfg, false, compute_tokens);
                },
                Err(_) => {
                    let u = choose|u: SyntaxNode|
                        flatten(u, 0) == records@ && tree_analysis(u, src, cfg, false, compute_tokens) is None;
                    lemma_same_listing(t, u);
                    lemma_same_analysis(t, u, src, cfg, false, compute_tokens);
                },
            }
        },
        _ => {},
    }
}

/// Trees with the same listing that fits in memory are the same tree.
proof fn lemma_same_listing(t: SyntaxNode, u: SyntaxNode)
    requires
        flatten(t, 0) == flatten(u, 0),
        flatten(t, 0).len() <= usize::MAX,
    ensures
        same_tree(t, u),
{
    lemma_height_below_size(t);
    lemma_height_below_size(u);
    lemma_flatten_len(t, 0);
    lemma_flatten_len(u, 0);
    lemma_flatten_determines(t, u, 0);
}

/// Tree `t` gives the outcome `r`: its functions, or a failure.
spec fn tree_gives(
    t: SyntaxNode,
    src: Seq<char>,
    cfg: ConfigView,
    include_closures: bool,
    compute_tokens: bool,
    r: Result<Vec<FunctionComplexity>, String>,
) -> bool {
    match r {
        Ok(f) => tree_analysis(t, src, cfg, include_closures, compute_tokens) == Some(function_views(f@)),
        Err(_) => tree_analysis(t, src, cfg, include_closures, compute_tokens) is None,
    }
}

/// The analysis of a source text depends on nothing else: two analyses of
/// the same text with the same settings both succeed with the same
/// functions, or both fail with the same message.
pub proof fn lemma_analysis_deterministic(
    grammar: Grammar,
    src: Seq<char>,
    cfg: ConfigView,
    language: Seq<char>,
    include_closures: bool,
    compute_tokens: bool,
    r1: Result<Vec<FunctionComplexity>, String>,
    r2: Result<Vec<FunctionComplexity>, String>,
)
    requires
        source_analysis(grammar, src, cfg, language, include_closures, compute_tokens, r1),
        source_analysis(grammar, src, cfg, language, include_closures, compute_tokens, r2),
    ensures
        r1 is Ok <==> r2 is Ok,
        r1 matches Ok(f1) ==> (r2 matches Ok(f2) && function_views(f1@) == function_views(f2@)),
        r1 matches Err(m1) ==> (r2 matches Err(m2) && m1@ == m2@),
{
    match parse_outcome(grammar, src) {
        ParseOutcome::Parsed(records) => {
            assert(records@.len() == records.len());
            if r1 is Ok || r2 is Ok {
                let t1 = choose|t: SyntaxNode|
                    flatten(t, 0) == records@ && tree_gives(t, src, cfg, include_closures, compute_tokens, r1);
                let t2 = choose|t: SyntaxNode|
                    flatten(t, 0) == records@ && tree_gives(t, src, cfg, include_closures, compute_tokens, r2);
                if r1 is Ok {
                    lemma_flatten_is_preorder(t1);
                } else {
                    lemma_flatten_is_preorder(t2);
                }
                lemma_same_listing(t1, t2);
                lemma_same_analysis(t1, t2, src, cfg, include_closures, compute_tokens);
            }
        },
        _ => {},
    }
}

} // verus!
