use polygraph::language::python::PythonAnalyzer;
use polygraph::language::LanguageAnalyzer;
use polygraph::syntax::{build_tree, NodeRecord};

fn rec(kind: &str, depth: usize) -> NodeRecord {
    NodeRecord {
        kind: kind.to_string(),
        named: true,
        field: None,
        depth,
        start_byte: 0,
        end_byte: 0,
        start_row: 0,
        end_row: 0,
        has_error: false,
    }
}

#[test]
fn preorder_listing_builds_its_tree() {
    let records = vec![rec("root", 0), rec("a", 1), rec("a1", 2), rec("a2", 2), rec("b", 1)];
    let tree = build_tree(&records).expect("a preorder listing");
    assert_eq!(tree.kind, "root");
    assert_eq!(tree.children.len(), 2);
    assert_eq!(tree.children[0].kind, "a");
    assert_eq!(tree.children[0].children.len(), 2);
    assert_eq!(tree.children[0].children[1].kind, "a2");
    assert_eq!(tree.children[1].kind, "b");
    assert!(tree.children[1].children.is_empty());
}

#[test]
fn broken_listings_build_nothing() {
    assert!(build_tree(&vec![]).is_none());
    assert!(build_tree(&vec![rec("root", 1)]).is_none());
    assert!(build_tree(&vec![rec("root", 0), rec("a", 2)]).is_none());
    assert!(build_tree(&vec![rec("root", 0), rec("a", 1), rec("other", 0)]).is_none());
}

#[test]
fn measured_functions_are_consistent() {
    let source = "def f(a):\n    if a and b:\n        return 1\n    return 2\n\ndef g():\n    pass\n";
    let functions = PythonAnalyzer.analyze(source, true).unwrap();
    assert_eq!(functions.len(), 2);
    for f in &functions {
        assert!(f.complexity >= 1);
        assert!(1 <= f.line_start && f.line_start <= f.line_end);
        assert_eq!(f.lines, f.line_end - f.line_start + 1);
        assert!(f.halstead.distinct_operators <= f.halstead.total_operators as usize);
        assert!(f.halstead.distinct_operands <= f.halstead.total_operands as usize);
    }
    assert_eq!(functions[0].name, "f");
    assert_eq!(functions[0].complexity, 3);
    assert_eq!(functions[0].line_start, 1);
    assert_eq!(functions[0].line_end, 4);
}
