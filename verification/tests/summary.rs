use polygraph::analyzer::{build_empty_result, build_error_result, count_lines};
use polygraph::cognitive::{HalsteadCounts, HalsteadState};
use polygraph::{FileResult, FunctionComplexity, SummaryStatistics};
use std::path::Path;

fn func(name: &str, lines: usize, complexity: u32, nesting: u32) -> FunctionComplexity {
    FunctionComplexity {
        name: name.to_string(),
        line_start: 1,
        line_end: lines,
        lines,
        complexity,
        nesting_depth: nesting,
        halstead: HalsteadCounts { distinct_operators: 1, distinct_operands: 1, total_operators: 2, total_operands: 2 },
        clone_tokens: Vec::new(),
    }
}

#[test]
fn file_result_sums_and_maxima() {
    let r = FileResult::from_functions(
        Path::new("a.rs"),
        40,
        vec![func("a", 10, 3, 1), func("b", 20, 5, 4), func("c", 5, 1, 0)],
        "Rust",
    );
    assert_eq!(r.function_count, 3);
    assert_eq!(r.total_complexity, 9);
    assert_eq!(r.total_function_lines, 35);
    assert_eq!(r.max_complexity, 5);
    assert_eq!(r.max_function_lines, 20);
    assert_eq!(r.max_nesting_depth, 4);
    assert_eq!(r.total_lines, 40);
    assert_eq!(r.language, "Rust");
    assert!(r.error.is_none());
    assert_eq!(r.path, Path::new("a.rs"));
}

#[test]
fn file_result_without_functions_is_zero() {
    let r = FileResult::from_functions(Path::new("a.rs"), 3, vec![], "Rust");
    assert_eq!(r.function_count, 0);
    assert_eq!(r.total_complexity, 0);
    assert_eq!(r.max_nesting_depth, 0);
    assert_eq!(r.total_lines, 3);
}

#[test]
fn summary_counts_only_successful_files() {
    let ok = FileResult::from_functions(Path::new("a.rs"), 40, vec![func("a", 10, 3, 1), func("b", 20, 5, 4)], "Rust");
    let ok2 = FileResult::from_functions(Path::new("b.py"), 12, vec![func("c", 4, 2, 6)], "Python");
    let empty = build_empty_result(Path::new("c.txt"), 50);
    let failed = build_error_result(Path::new("d.rs"), 60, "Failed to parse Rust source".to_string());
    let s = SummaryStatistics::from_results(&[ok, empty, failed, ok2]);
    assert_eq!(s.files_analyzed, 2);
    assert_eq!(s.total_functions, 3);
    assert_eq!(s.total_lines, 52);
    assert_eq!(s.total_complexity, 10);
    assert_eq!(s.max_nesting_depth, 6);
    let none = SummaryStatistics::from_results(&[]);
    assert_eq!(none.files_analyzed, 0);
    assert_eq!(none.total_functions, 0);
}

#[test]
fn error_and_empty_results() {
    let e = build_error_result(Path::new("x.rs"), 7, "boom".to_string());
    assert_eq!(e.error.as_deref(), Some("boom"));
    assert_eq!(e.total_lines, 7);
    assert!(e.functions.is_empty());
    assert_eq!(e.language, "");
    let m = build_empty_result(Path::new("x.txt"), 9);
    assert!(m.error.is_none());
    assert_eq!(m.total_lines, 9);
}

#[test]
fn count_lines_as_str_lines() {
    for s in ["", "a", "a\n", "a\nb", "a\nb\n", "\n\n", "a\r\nb\r\n", "x\n\ny"] {
        assert_eq!(count_lines(s), s.lines().count(), "{s:?}");
    }
}

#[test]
fn halstead_state_counts() {
    let mut s = HalsteadState::new();
    assert_eq!(s.n(), 0);
    assert_eq!(s.total(), 0);
    s.add_operator("+");
    s.add_operator("+");
    s.add_operator("-");
    s.add_operand("x");
    s.add_operand("y");
    s.add_operand("x");
    s.add_operand("1");
    assert_eq!(s.n1(), 2);
    assert_eq!(s.n2(), 3);
    assert_eq!(s.n(), 5);
    assert_eq!(s.total(), 7);
}

#[test]
fn halstead_state_after_a_sequence_of_events() {
    let mut s = HalsteadState::new();
    let ops = ["=", "+", "=", "call", "+"];
    let opnds = ["x", "1", "x", "y"];
    for (k, o) in ops.iter().enumerate() {
        s.add_operator(o);
        if let Some(t) = opnds.get(k) {
            s.add_operand(t);
        }
    }
    assert_eq!(s.n1(), 3);
    assert_eq!(s.n2(), 3);
    assert_eq!(s.total(), 9);
    assert!(s.n1() <= 5 && s.n2() <= 4);
}
