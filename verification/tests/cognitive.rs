use polygraph::cognitive::{halstead_metrics, max_nesting_depth, HalsteadCounts};
use polygraph::syntax::{syntax_tree, Grammar, SyntaxNode};

fn parse_rust(source: &str) -> SyntaxNode {
    syntax_tree(Grammar::Rust, source).unwrap()
}

fn find_function<'a>(node: &'a SyntaxNode, kind: &str) -> Option<&'a SyntaxNode> {
    if node.kind == kind {
        return Some(node);
    }
    for child in &node.children {
        if let Some(found) = find_function(child, kind) {
            return Some(found);
        }
    }
    None
}

fn volume_and_difficulty(c: &HalsteadCounts) -> (f64, f64) {
    let n = c.distinct_operators + c.distinct_operands;
    let total = c.total_operators as f64 + c.total_operands as f64;
    let volume = if n == 0 { 0.0 } else { total * (n as f64).log2() };
    let difficulty = if c.distinct_operands == 0 {
        0.0
    } else {
        (c.distinct_operators as f64 / 2.0) * (c.total_operands as f64 / c.distinct_operands as f64)
    };
    (volume, difficulty)
}

#[test]
fn test_nesting_depth_simple() {
    let source = "fn f() { if true {} }";
    let tree = parse_rust(source);
    let func = find_function(&tree, "function_item").expect("function not found");
    let depth = max_nesting_depth(func, &["if_expression"], &["function_item"]);
    assert_eq!(depth, 1);
}

#[test]
fn test_nesting_depth_nested() {
    let source = "fn f() { if true { for x in y {} } }";
    let tree = parse_rust(source);
    let func = find_function(&tree, "function_item").expect("function not found");
    let depth = max_nesting_depth(func, &["if_expression", "for_expression"], &["function_item"]);
    assert_eq!(depth, 2);
}

#[test]
fn test_nesting_depth_skips_inner_function() {
    let source = "fn f() { if true { fn g() { if true {} } } }";
    let tree = parse_rust(source);
    let func = find_function(&tree, "function_item").expect("function not found");
    let depth = max_nesting_depth(func, &["if_expression"], &["function_item"]);
    assert_eq!(depth, 1);
}

#[test]
fn test_halstead_basic() {
    let source = "fn f() { let x = 1 + 2; }";
    let tree = parse_rust(source);
    let func = find_function(&tree, "function_item").expect("function not found");
    let counts = halstead_metrics(
        func,
        source,
        &["+", "let_declaration"],
        &["identifier", "integer_literal"],
        &["function_item"],
    );
    let (volume, difficulty) = volume_and_difficulty(&counts);
    assert!(volume > 0.0);
    assert!(difficulty >= 0.0);
}

#[test]
fn halstead_counts_of_a_small_function() {
    let source = "fn f() { let x = 1 + 2; }";
    let tree = parse_rust(source);
    let func = find_function(&tree, "function_item").expect("function not found");
    let counts = halstead_metrics(
        func,
        source,
        &["+", "let_declaration"],
        &["identifier", "integer_literal"],
        &["function_item"],
    );
    assert_eq!(counts.total_operators, 2);
    assert_eq!(counts.distinct_operators, 2);
    // `f` and `x` are identifiers, `1` and `2` literals.
    assert_eq!(counts.total_operands, 4);
    assert_eq!(counts.distinct_operands, 4);
}

#[test]
fn syntax_tree_of_a_broken_grammar_input_still_parses() {
    let tree = syntax_tree(Grammar::Python, "def (:\n").unwrap();
    assert!(tree.has_error);
    assert_eq!(tree.kind, "module");
}
