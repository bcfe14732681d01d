//! Finding the functions of a syntax tree and measuring each one; the
//! per-language analyzers only supply the node kinds and naming rules.

use vstd::prelude::*;
use crate::cognitive::{
    halstead_metrics, halstead_spec, lemma_halstead_below_size, max_nesting_depth, nesting, texts,
};
use crate::complexity::{count_decisions_capped, decisions, kind_listed, listed};
use crate::syntax::{
    build_tree, flatten, parse_outcome, parse_source, preorder_depths, Grammar, NodeRecord, ParseOutcome, SyntaxNode,
};
use crate::text::{decimal, decimal_text, span_text, text_eq, text_slice};
use crate::tree::{
    check_fits_source, fits_source, lemma_fits_source_upto_child, lemma_height_below_size, size, tree_size,
};
use crate::{function_views, FunctionComplexity, FunctionView};
use vstd::string::StringExecFns;

pub mod c;
pub mod go;
pub mod java;
pub mod javascript;
pub mod javascript_like;
pub mod properties;
pub mod python;
pub mod rust;
pub mod sameness;
pub mod typescript;
pub mod tokens;

use crate::language::tokens::{body_tokens, function_clone_tokens, TokenStyle};

verus! {

/// What a language contributes to the analysis: which node kinds are
/// functions, closures, decisions, operators and operands, and how
/// functions are named.
pub struct LanguageConfig {
    /// Kinds of the nodes that are functions (closures included).
    pub function_kinds: &'static [&'static str],
    /// The function kinds that are closures, lambdas or arrow functions.
    pub closure_kinds: &'static [&'static str],
    /// Kinds of the nodes that are decision points.
    pub decision_kinds: &'static [&'static str],
    pub operator_kinds: &'static [&'static str],
    pub operand_kinds: &'static [&'static str],
    /// Pairs of (container kind, case kind): each case below such a
    /// container counts as one decision (e.g. Python's match/case).
    pub match_case_kinds: &'static [(&'static str, &'static str)],
    /// If true, function nodes without children are skipped (e.g. bare
    /// `lambda` tokens in Python).
    pub skip_childless_nodes: bool,
    /// Function kinds named by position (`<label>@line N`) rather than by an identifier.
    pub anonymous_kinds: &'static [&'static str],
    /// The label of functions named by position.
    pub anonymous_label: &'static str,
    /// Kinds of the children whose text names a function.
    pub name_kinds: &'static [&'static str],
    /// Whether the name may also be the first identifier found inside a
    /// child (C declarators).
    pub search_declarators: bool,
    /// How function bodies are tokenized for clone detection, if at all.
    pub token_style: Option<TokenStyle>,
}

/// A `LanguageConfig` as sequences.
pub struct ConfigView {
    pub function_kinds: Seq<&'static str>,
    pub closure_kinds: Seq<&'static str>,
    pub decision_kinds: Seq<&'static str>,
    pub operator_kinds: Seq<&'static str>,
    pub operand_kinds: Seq<&'static str>,
    pub match_case_kinds: Seq<(&'static str, &'static str)>,
    pub skip_childless_nodes: bool,
    pub anonymous_kinds: Seq<&'static str>,
    pub anonymous_label: &'static str,
    pub name_kinds: Seq<&'static str>,
    pub search_declarators: bool,
    pub token_style: Option<TokenStyle>,
}

impl View for LanguageConfig {
    type V = ConfigView;

    open spec fn view(&self) -> ConfigView {
        ConfigView {
            function_kinds: self.function_kinds@,
            closure_kinds: self.closure_kinds@,
            decision_kinds: self.decision_kinds@,
            operator_kinds: self.operator_kinds@,
            operand_kinds: self.operand_kinds@,
            match_case_kinds: self.match_case_kinds@,
            skip_childless_nodes: self.skip_childless_nodes,
            anonymous_kinds: self.anonymous_kinds@,
            anonymous_label: self.anonymous_label,
            name_kinds: self.name_kinds@,
            search_declarators: self.search_declarators,
            token_style: self.token_style,
        }
    }
}

/// The source text of node `n`.
pub open spec fn node_text(n: SyntaxNode, src: Seq<char>) -> Seq<char> {
    span_text(src, n.start_byte as int, n.end_byte as int)
}

/// `<label>@line N`, N being the one-based line of zero-based row `row`.
pub open spec fn position_name(label: Seq<char>, row: int) -> Seq<char> {
    label + "@line "@ + decimal((row + 1) as nat)
}

/// The text of the first identifier in the subtree rooted at `n`, in
/// preorder (empty when there is none, or when that identifier is empty).
pub open spec fn declarator_name(n: SyntaxNode, src: Seq<char>) -> Seq<char>
    decreases n, n.children@.len() + 1,
{
    if n.kind@ == "identifier"@ {
        node_text(n, src)
    } else {
        declarator_name_from(n, src, 0)
    }
}

/// The first non-empty `declarator_name` of the children of `n` from index `i` on.
pub open spec fn declarator_name_from(n: SyntaxNode, src: Seq<char>, i: int) -> Seq<char>
    decreases n, n.children@.len() - i,
{
    if i < 0 || i >= n.children@.len() {
        seq![]
    } else {
        let d = declarator_name(n.children@[i], src);
        if d.len() > 0 {
            d
        } else {
            declarator_name_from(n, src, i + 1)
        }
    }
}

/// The name that the children of `n` from index `i` on give: the text of
/// the first child whose kind is a name kind, or (with declarator search)
/// the first non-empty declarator name, whichever child comes first.
pub open spec fn name_from(n: SyntaxNode, src: Seq<char>, cfg: ConfigView, i: int) -> Option<Seq<char>>
    decreases n.children@.len() - i,
{
    if i < 0 || i >= n.children@.len() {
        None
    } else {
        let c = n.children@[i];
        if listed(cfg.name_kinds, c.kind@) {
            Some(node_text(c, src))
        } else if cfg.search_declarators && declarator_name(c, src).len() > 0 {
            Some(declarator_name(c, src))
        } else {
            name_from(n, src, cfg, i + 1)
        }
    }
}

/// The name of function `n`: `<label>@line N` for positional kinds, else
/// the name its children give, else `<anon>@line N`.
pub open spec fn function_name(n: SyntaxNode, src: Seq<char>, cfg: ConfigView) -> Seq<char> {
    if listed(cfg.anonymous_kinds, n.kind@) {
        position_name(cfg.anonymous_label@, n.start_row as int)
    } else {
        match name_from(n, src, cfg, 0) {
            Some(name) => name,
            None => position_name("<anon>"@, n.start_row as int),
        }
    }
}

/// `<label>@line N` for the zero-based row `row`.
fn position_text(label: &str, row: usize) -> (r: String)
    requires
        row < usize::MAX,
    ensures
        r@ == position_name(label@, row as int),
{
    proof {
        reveal_strlit("@line ");
    }
    let mut s = label.to_owned();
    s.append("@line ");
    let line = decimal_text((row + 1) as u64);
    s.append(line.as_str());
    s
}

/// The text of node `n` of a tree that fits `source`.
fn text_of(n: &SyntaxNode, source: &str) -> (r: String)
    requires
        crate::text::span_ok(source@, n.start_byte as int, n.end_byte as int),
    ensures
        r@ == node_text(*n, source@),
{
    match text_slice(source, n.start_byte, n.end_byte) {
        Some(t) => t,
        None => {
            assert(false);
            String::new()
        },
    }
}

/// The text of the first identifier in the subtree rooted at `node`
/// (empty if there is none).
pub fn find_identifier_in_declarator(node: &SyntaxNode, source: &str) -> (r: String)
    requires
        fits_source(*node, source@),
    ensures
        r@ == declarator_name(*node, source@),
    decreases node,
{
    if text_eq(node.kind.as_str(), "identifier") {
        return text_of(node, source);
    }
    let mut i: usize = 0;
    while i < node.children.len()
        invariant
            i <= node.children@.len(),
            fits_source(*node, source@),
            declarator_name(*node, source@) == declarator_name_from(*node, source@, i as int),
        decreases node.children@.len() - i,
    {
        proof {
            lemma_fits_source_upto_child(*node, source@, node.children@.len() as int, i as int);
        }
        let name = find_identifier_in_declarator(&node.children[i], source);
        if !name.as_str().is_empty() {
            return name;
        }
        i += 1;
    }
    String::new()
}

/// The name of function `node` (see `function_name`).
pub fn extract_name(node: &SyntaxNode, source: &str, config: &LanguageConfig) -> (r: String)
    requires
        fits_source(*node, source@),
    ensures
        r@ == function_name(*node, source@, config@),
{
    if kind_listed(config.anonymous_kinds, node.kind.as_str()) {
        return position_text(config.anonymous_label, node.start_row);
    }
    let mut i: usize = 0;
    while i < node.children.len()
        invariant
            i <= node.children@.len(),
            fits_source(*node, source@),
            node.start_row < usize::MAX,
            !listed(config@.anonymous_kinds, node.kind@),
            name_from(*node, source@, config@, 0) == name_from(*node, source@, config@, i as int),
        decreases node.children@.len() - i,
    {
        let child = &node.children[i];
        proof {
            lemma_fits_source_upto_child(*node, source@, node.children@.len() as int, i as int);
        }
        if kind_listed(config.name_kinds, child.kind.as_str()) {
            return text_of(child, source);
        }
        if config.search_declarators {
            let name = find_identifier_in_declarator(child, source);
            if !name.as_str().is_empty() {
                return name;
            }
        }
        i += 1;
    }
    proof {
        reveal_strlit("<anon>");
    }
    position_text("<anon>", node.start_row)
}

/// The decision points below `node` (see `decisions`); a function's
/// cyclomatic complexity is one more.
pub fn count_decisions(
    node: &SyntaxNode,
    source: &str,
    decision_kinds: &[&str],
    function_kinds: &[&str],
    match_case_kinds: &[(&str, &str)],
) -> (r: u32)
    requires
        decisions(*node, decision_kinds@, function_kinds@, match_case_kinds@) <= u32::MAX,
    ensures
        r == decisions(*node, decision_kinds@, function_kinds@, match_case_kinds@),
{
    count_decisions_capped(node, decision_kinds, function_kinds, match_case_kinds) as u32
}

/// `n` is a function that the analysis reports: its kind is a function
/// kind, it is not a skipped childless node, and it is not a closure unless
/// closures are included.
pub open spec fn is_target(n: SyntaxNode, cfg: ConfigView, include_closures: bool) -> bool {
    &&& listed(cfg.function_kinds, n.kind@)
    &&& !(cfg.skip_childless_nodes && n.children@.len() == 0)
    &&& (include_closures || !listed(cfg.closure_kinds, n.kind@))
}

/// The clone-detection tokens of function `n`: its body's tokens when they
/// are asked for and the language has a token style, else none.
pub open spec fn clone_tokens_of(n: SyntaxNode, src: Seq<char>, cfg: ConfigView, compute_tokens: bool) -> Seq<Seq<char>> {
    if compute_tokens {
        match cfg.token_style {
            Some(style) => body_tokens(style, n, src),
            None => seq![],
        }
    } else {
        seq![]
    }
}

/// The measures of function `n`.
pub open spec fn function_view(n: SyntaxNode, src: Seq<char>, cfg: ConfigView, compute_tokens: bool) -> FunctionView {
    FunctionView {
        name: function_name(n, src, cfg),
        line_start: (n.start_row + 1) as usize,
        line_end: (n.end_row + 1) as usize,
        lines: (n.end_row - n.start_row + 1) as usize,
        complexity: (1 + decisions(n, cfg.decision_kinds, cfg.function_kinds, cfg.match_case_kinds)) as u32,
        nesting_depth: nesting(n, cfg.decision_kinds, cfg.function_kinds, 0) as u32,
        halstead: halstead_spec(n, src, cfg.operator_kinds, cfg.operand_kinds, cfg.function_kinds),
        clone_tokens: clone_tokens_of(n, src, cfg, compute_tokens),
    }
}

/// The measures of the reported functions in the subtree rooted at `n`, in preorder.
pub open spec fn functions_in(
    n: SyntaxNode,
    src: Seq<char>,
    cfg: ConfigView,
    include_closures: bool,
    compute_tokens: bool,
) -> Seq<FunctionView>
    decreases n, n.children@.len() + 1,
{
    (if is_target(n, cfg, include_closures) {
        seq![function_view(n, src, cfg, compute_tokens)]
    } else {
        seq![]
    }) + functions_in_upto(n, src, cfg, include_closures, compute_tokens, n.children@.len() as int)
}

/// `functions_in` of the first `k` children of `n`, concatenated.
pub open spec fn functions_in_upto(
    n: SyntaxNode,
    src: Seq<char>,
    cfg: ConfigView,
    include_closures: bool,
    compute_tokens: bool,
    k: int,
) -> Seq<FunctionView>
    decreases n, k,
{
    if k <= 0 || k > n.children@.len() {
        seq![]
    } else {
        functions_in_upto(n, src, cfg, include_closures, compute_tokens, k - 1) + functions_in(
            n.children@[k - 1],
            src,
            cfg,
            include_closures,
            compute_tokens,
        )
    }
}

/// Every node of a function kind in the subtree rooted at `n` has at most
/// `u32::MAX` nodes and fewer than `u32::MAX` decision points, so that its
/// measures fit their types.
pub open spec fn limits_ok(n: SyntaxNode, cfg: ConfigView) -> bool
    decreases n, n.children@.len() + 1,
{
    &&& listed(cfg.function_kinds, n.kind@) ==> (size(n) <= u32::MAX && decisions(
        n,
        cfg.decision_kinds,
        cfg.function_kinds,
        cfg.match_case_kinds,
    ) < u32::MAX)
    &&& limits_ok_upto(n, cfg, n.children@.len() as int)
}

/// The first `k` children of `n` satisfy `limits_ok`.
pub open spec fn limits_ok_upto(n: SyntaxNode, cfg: ConfigView, k: int) -> bool
    decreases n, k,
{
    if k <= 0 || k > n.children@.len() {
        true
    } else {
        limits_ok_upto(n, cfg, k - 1) && limits_ok(n.children@[k - 1], cfg)
    }
}

/// `limits_ok_upto` holds of each of the first `k` children.
pub proof fn lemma_limits_ok_upto_child(n: SyntaxNode, cfg: ConfigView, k: int, i: int)
    requires
        0 <= i < k <= n.children@.len(),
        limits_ok_upto(n, cfg, k),
    ensures
        limits_ok(n.children@[i], cfg),
    decreases k,
{
    if i < k - 1 {
        lemma_limits_ok_upto_child(n, cfg, k - 1, i);
    }
}

/// Whether the subtree rooted at `node` satisfies `limits_ok`.
pub fn check_limits(node: &SyntaxNode, config: &LanguageConfig) -> (r: bool)
    ensures
        r == limits_ok(*node, config@),
    decreases node,
{
    if kind_listed(config.function_kinds, node.kind.as_str()) {
        if tree_size(node) > u32::MAX as u64 {
            return false;
        }
        let d = count_decisions_capped(
            node,
            config.decision_kinds,
            config.function_kinds,
            config.match_case_kinds,
        );
        if d >= u32::MAX as u64 {
            return false;
        }
    }
    let mut i: usize = 0;
    while i < node.children.len()
        invariant
            i <= node.children@.len(),
            listed(config@.function_kinds, node.kind@) ==> (size(*node) <= u32::MAX && decisions(
                *node,
                config@.decision_kinds,
                config@.function_kinds,
                config@.match_case_kinds,
            ) < u32::MAX),
            limits_ok_upto(*node, config@, i as int),
        decreases node.children@.len() - i,
    {
        if !check_limits(&node.children[i], config) {
            proof {
                if limits_ok(*node, config@) {
                    lemma_limits_ok_upto_child(*node, config@, node.children@.len() as int, i as int);
                }
            }
            return false;
        }
        i += 1;
    }
    true
}

/// Whether `node` is a function that the analysis reports (see `is_target`).
pub fn is_target_function(node: &SyntaxNode, config: &LanguageConfig, include_closures: bool) -> (r: bool)
    ensures
        r == is_target(*node, config@, include_closures),
{
    if !kind_listed(config.function_kinds, node.kind.as_str()) {
        return false;
    }
    if config.skip_childless_nodes && node.children.len() == 0 {
        return false;
    }
    include_closures || !kind_listed(config.closure_kinds, node.kind.as_str())
}

/// Measures function `node`.
pub fn build_function_complexity(
    node: &SyntaxNode,
    source: &str,
    config: &LanguageConfig,
    compute_clone_signature: bool,
) -> (r: FunctionComplexity)
    requires
        fits_source(*node, source@),
        size(*node) <= u32::MAX,
        decisions(*node, config@.decision_kinds, config@.function_kinds, config@.match_case_kinds) < u32::MAX,
    ensures
        r@ == function_view(*node, source@, config@, compute_clone_signature),
{
    proof {
        lemma_height_below_size(*node);
        lemma_halstead_below_size(
            *node,
            source@,
            config@.operator_kinds,
            config@.operand_kinds,
            config@.function_kinds,
        );
    }
    let name = extract_name(node, source, config);
    let complexity = 1 + count_decisions(
        node,
        source,
        config.decision_kinds,
        config.function_kinds,
        config.match_case_kinds,
    );
    let nesting_depth = max_nesting_depth(node, config.decision_kinds, config.function_kinds);
    let halstead = halstead_metrics(
        node,
        source,
        config.operator_kinds,
        config.operand_kinds,
        config.function_kinds,
    );
    let clone_tokens = if compute_clone_signature {
        match config.token_style {
            Some(style) => function_clone_tokens(node, source, style),
            None => Vec::new(),
        }
    } else {
        Vec::new()
    };
    let r = FunctionComplexity {
        name,
        line_start: node.start_row + 1,
        line_end: node.end_row + 1,
        lines: node.end_row - node.start_row + 1,
        complexity,
        nesting_depth,
        halstead,
        clone_tokens,
    };
    assert(texts(r.clone_tokens@) =~= clone_tokens_of(*node, source@, config@, compute_clone_signature));
    r
}

/// Appends the measures of every reported function in the subtree rooted at
/// `node` to `functions`, in preorder (nested functions are reported too).
pub fn collect_functions(
    node: &SyntaxNode,
    source: &str,
    functions: &mut Vec<FunctionComplexity>,
    config: &LanguageConfig,
    include_closures: bool,
    compute_clone_signature: bool,
)
    requires
        fits_source(*node, source@),
        limits_ok(*node, config@),
    ensures
        function_views(final(functions)@) == function_views(old(functions)@) + functions_in(
            *node,
            source@,
            config@,
            include_closures,
            compute_clone_signature,
        ),
    decreases node,
{
    let ghost start = function_views(functions@);
    let ghost head: Seq<FunctionView> = if is_target(*node, config@, include_closures) {
        seq![function_view(*node, source@, config@, compute_clone_signature)]
    } else {
        seq![]
    };
    if is_target_function(node, config, include_closures) {
        let f = build_function_complexity(node, source, config, compute_clone_signature);
        functions.push(f);
    }
    assert(function_views(functions@) =~= start + head);
    let mut i: usize = 0;
    while i < node.children.len()
        invariant
            i <= node.children@.len(),
            fits_source(*node, source@),
            limits_ok(*node, config@),
            function_views(functions@) == start + head + functions_in_upto(
                *node,
                source@,
                config@,
                include_closures,
                compute_clone_signature,
                i as int,
            ),
        decreases node.children@.len() - i,
    {
        proof {
            lemma_fits_source_upto_child(*node, source@, node.children@.len() as int, i as int);
            lemma_limits_ok_upto_child(*node, config@, node.children@.len() as int, i as int);
        }
        collect_functions(&node.children[i], source, functions, config, include_closures, compute_clone_signature);
        assert(function_views(functions@) =~= start + head + functions_in_upto(
            *node,
            source@,
            config@,
            include_closures,
            compute_clone_signature,
            i + 1,
        ));
        i += 1;
    }
    assert(function_views(functions@) =~= start + functions_in(
        *node,
        source@,
        config@,
        include_closures,
        compute_clone_signature,
    ));
}

/// The message of a failed analysis of a `language` source.
pub open spec fn failure_message(language: Seq<char>) -> Seq<char> {
    "Failed to parse "@ + language + " source"@
}

/// The analysis of a parsed tree: the reported functions, unless the tree
/// holds a syntax error, does not fit the source text, or has a function
/// too large for its measures' types.
pub open spec fn tree_analysis(
    t: SyntaxNode,
    src: Seq<char>,
    cfg: ConfigView,
    include_closures: bool,
    compute_tokens: bool,
) -> Option<Seq<FunctionView>> {
    if !t.has_error && fits_source(t, src) && limits_ok(t, cfg) {
        Some(functions_in(t, src, cfg, include_closures, compute_tokens))
    } else {
        None
    }
}

/// What the analysis of a preorder listing of nodes may give: the functions
/// of the tree that the listing describes, or the failure message when the
/// records are no preorder listing of a tree or the analysis of the tree
/// they list fails.
pub open spec fn records_analysis(
    records: Seq<NodeRecord>,
    src: Seq<char>,
    cfg: ConfigView,
    language: Seq<char>,
    include_closures: bool,
    compute_tokens: bool,
    r: Result<Vec<FunctionComplexity>, String>,
) -> bool {
    match r {
        Ok(fs) => exists|t: SyntaxNode|
            flatten(t, 0) == records && tree_analysis(t, src, cfg, include_closures, compute_tokens)
                == Some(function_views(fs@)),
        Err(m) => m@ == failure_message(language) && (!preorder_depths(records) || exists|t: SyntaxNode|
            flatten(t, 0) == records && tree_analysis(t, src, cfg, include_closures, compute_tokens) is None),
    }
}

/// What the analysis of `src` with `grammar` gives: tree-sitter's error when
/// it rejects the grammar, the failure message when it gives no tree, else
/// the analysis of the nodes it lists.
pub open spec fn source_analysis(
    grammar: Grammar,
    src: Seq<char>,
    cfg: ConfigView,
    language: Seq<char>,
    include_closures: bool,
    compute_tokens: bool,
    r: Result<Vec<FunctionComplexity>, String>,
) -> bool {
    match parse_outcome(grammar, src) {
        ParseOutcome::LanguageRejected(e) => r == Err::<Vec<FunctionComplexity>, String>(e),
        ParseOutcome::NoTree => r matches Err(m) && m@ == failure_message(language),
        ParseOutcome::Parsed(records) => records_analysis(
            records@,
            src,
            cfg,
            language,
            include_closures,
            compute_tokens,
            r,
        ),
    }
}

fn failure_text(language_name: &str) -> (r: String)
    ensures
        r@ == failure_message(language_name@),
{
    proof {
        reveal_strlit("Failed to parse ");
        reveal_strlit(" source");
    }
    let mut m = "Failed to parse ".to_owned();
    m.append(language_name);
    m.append(" source");
    m
}

/// The functions of a parsed tree (see `tree_analysis`).
pub fn analyze_tree(
    tree: &SyntaxNode,
    source: &str,
    config: &LanguageConfig,
    language_name: &str,
    include_closures: bool,
    compute_clone_signature: bool,
) -> (r: Result<Vec<FunctionComplexity>, String>)
    ensures
        match r {
            Ok(fs) => tree_analysis(*tree, source@, config@, include_closures, compute_clone_signature)
                == Some(function_views(fs@)),
            Err(m) => tree_analysis(*tree, source@, config@, include_closures, compute_clone_signature)
                is None && m@ == failure_message(language_name@),
        },
{
    if tree.has_error || !check_fits_source(tree, source) || !check_limits(tree, config) {
        return Err(failure_text(language_name));
    }
    let mut functions: Vec<FunctionComplexity> = Vec::new();
    collect_functions(tree, source, &mut functions, config, include_closures, compute_clone_signature);
    assert(function_views(functions@) =~= functions_in(
        *tree,
        source@,
        config@,
        include_closures,
        compute_clone_signature,
    ));
    Ok(functions)
}

/// The functions of the tree that a preorder listing of nodes describes.
pub fn analyze_records(
    records: &Vec<NodeRecord>,
    source: &str,
    config: &LanguageConfig,
    language_name: &str,
    include_closures: bool,
    compute_clone_signature: bool,
) -> (r: Result<Vec<FunctionComplexity>, String>)
    ensures
        records_analysis(
            records@,
            source@,
            config@,
            language_name@,
            include_closures,
            compute_clone_signature,
            r,
        ),
{
    match build_tree(records) {
        Some(tree) => {
            let r = analyze_tree(&tree, source, config, language_name, include_closures, compute_clone_signature);
            proof {
                if r is Ok {
                    assert(flatten(tree, 0) == records@);
                }
            }
            r
        },
        None => Err(failure_text(language_name)),
    }
}

/// Parses `source` with `grammar` and gives the functions it holds.
pub fn analyze_source(
    grammar: Grammar,
    config: &LanguageConfig,
    language_name: &str,
    source: &str,
    include_closures: bool,
    compute_clone_signature: bool,
) -> (r: Result<Vec<FunctionComplexity>, String>)
    ensures
        source_analysis(
            grammar,
            source@,
            config@,
            language_name@,
            include_closures,
            compute_clone_signature,
            r,
        ),
{
    match parse_source(grammar, source) {
        ParseOutcome::LanguageRejected(e) => Err(e),
        ParseOutcome::NoTree => Err(failure_text(language_name)),
        ParseOutcome::Parsed(records) => analyze_records(
            &records,
            source,
            config,
            language_name,
            include_closures,
            compute_clone_signature,
        ),
    }
}

#[verifier::external_type_specification]
#[verifier::external_body]
pub struct ExPath(std::path::Path);

/// The extension of `path` as `Path::extension` gives it, when it is valid
/// UTF-8: a function of the path alone.
pub uninterp spec fn extension_of(path: &std::path::Path) -> Option<Seq<char>>;

/// The extension of `path` (`Path::extension`, then `OsStr::to_str`). The
/// contract claims only that the result is `extension_of(path)`.
#[verifier::external_body]
pub(crate) fn path_extension(path: &std::path::Path) -> (r: Option<String>)
    ensures
        match r {
            Some(e) => extension_of(path) == Some(e@),
            None => extension_of(path) is None,
        },
{
    path.extension().and_then(|e| e.to_str()).map(String::from)
}

/// A language that the analysis supports.
pub trait LanguageAnalyzer {
    /// The grammar its sources are parsed with.
    spec fn grammar_spec(&self) -> Grammar;

    /// Its configuration.
    spec fn config_spec(&self) -> ConfigView;

    /// Its display name.
    spec fn name_spec(&self) -> Seq<char>;

    /// The file extensions of its sources.
    spec fn extensions_spec(&self) -> Seq<&'static str>;

    fn grammar(&self) -> (g: Grammar)
        ensures
            g == self.grammar_spec(),
    ;

    fn config(&self) -> (c: LanguageConfig)
        ensures
            c@ == self.config_spec(),
    ;

    fn language_name(&self) -> (n: &'static str)
        ensures
            n@ == self.name_spec(),
    ;

    fn extensions(&self) -> (e: &'static [&'static str])
        ensures
            e@ == self.extensions_spec(),
    ;

    /// Whether a file with extension `ext` is one of its sources.
    fn handles_extension(&self, ext: &str) -> (r: bool)
        ensures
            r == listed(self.extensions_spec(), ext@),
    {
        kind_listed(self.extensions(), ext)
    }

    /// Whether the file at `path` is one of its sources: whether the path's
    /// extension is one of its extensions.
    fn can_analyze(&self, path: &std::path::Path) -> (r: bool)
        ensures
            r == (extension_of(path) matches Some(e) && listed(self.extensions_spec(), e)),
    {
        match path_extension(path) {
            Some(ext) => self.handles_extension(ext.as_str()),
            None => false,
        }
    }

    /// The functions of `source` (see `source_analysis`), without clone tokens.
    fn analyze(&self, source: &str, include_closures: bool) -> (r: Result<Vec<FunctionComplexity>, String>)
        ensures
            source_analysis(
                self.grammar_spec(),
                source@,
                self.config_spec(),
                self.name_spec(),
                include_closures,
                false,
                r,
            ),
    {
        self.analyze_full(source, include_closures, false)
    }

    /// The functions of `source` (see `source_analysis`), with their clone
    /// tokens when `compute_clone_signature` is set.
    fn analyze_full(
        &self,
        source: &str,
        include_closures: bool,
        compute_clone_signature: bool,
    ) -> (r: Result<Vec<FunctionComplexity>, String>)
        ensures
            source_analysis(
                self.grammar_spec(),
                source@,
                self.config_spec(),
                self.name_spec(),
                include_closures,
                compute_clone_signature,
                r,
            ),
    {
        let config = self.config();
        analyze_source(
            self.grammar(),
            &config,
            self.language_name(),
            source,
            include_closures,
            compute_clone_signature,
        )
    }
}

} // verus!
