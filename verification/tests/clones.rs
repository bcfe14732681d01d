use polygraph::clones::{clone_candidates, comparison_pairs, jaccard_counts, shingles, side, SHINGLE_SIZE};
use polygraph::cognitive::HalsteadCounts;
use polygraph::{FileResult, FunctionComplexity};
use std::path::Path;

fn toks(words: &[&str]) -> Vec<String> {
    words.iter().map(|w| w.to_string()).collect()
}

fn make_func(name: &str, lines: usize, tokens: Vec<&str>) -> FunctionComplexity {
    FunctionComplexity {
        name: name.to_string(),
        line_start: 1,
        line_end: lines,
        lines,
        complexity: 1,
        nesting_depth: 0,
        halstead: HalsteadCounts { distinct_operators: 0, distinct_operands: 0, total_operators: 0, total_operands: 0 },
        clone_tokens: toks(&tokens),
    }
}

fn make_file(path: &str, language: &'static str, functions: Vec<FunctionComplexity>) -> FileResult {
    FileResult::from_functions(Path::new(path), 100, functions, language)
}

#[test]
fn shingles_of_a_short_sequence_is_the_sequence() {
    let s = shingles(&toks(&["a", "b"]));
    assert_eq!(s, vec![toks(&["a", "b"])]);
    let empty = shingles(&[]);
    assert_eq!(empty, vec![Vec::<String>::new()]);
}

#[test]
fn shingles_are_distinct_windows() {
    assert_eq!(SHINGLE_SIZE, 5);
    let s = shingles(&toks(&["a", "b", "c", "d", "e", "a", "b", "c", "d", "e"]));
    // Windows starting at 0 and 5 are equal; 6 windows, 5 distinct.
    assert_eq!(s.len(), 5);
    assert_eq!(s[0], toks(&["a", "b", "c", "d", "e"]));
    assert_eq!(s[1], toks(&["b", "c", "d", "e", "a"]));
}

#[test]
fn jaccard_of_identical_sequences_is_one() {
    let a = toks(&["x", "y", "z", "w", "v", "u"]);
    let (inter, union) = jaccard_counts(&a, &a);
    assert_eq!(inter, 2);
    assert_eq!(union, 2);
}

#[test]
fn jaccard_counts_overlap() {
    let a = toks(&["1", "2", "3", "4", "5", "6"]);
    let b = toks(&["1", "2", "3", "4", "5", "7"]);
    // a: {12345, 23456}; b: {12345, 23457}
    assert_eq!(jaccard_counts(&a, &b), (1, 3));
    assert_eq!(jaccard_counts(&b, &a), (1, 3));
    let c = toks(&["q"]);
    assert_eq!(jaccard_counts(&a, &c), (0, 3));
}

#[test]
fn clone_candidates_exclude_short_and_tokenless_functions() {
    let files = vec![
        make_file("a.rs", "Rust", vec![make_func("short", 4, vec!["x"]), make_func("long", 5, vec!["x"])]),
        make_file("b.rs", "Rust", vec![make_func("untokened", 30, vec![]), make_func("ok", 30, vec!["y"])]),
    ];
    assert_eq!(clone_candidates(&files, 5), vec![(0, 1), (1, 1)]);
    assert_eq!(clone_candidates(&files, 1), vec![(0, 0), (0, 1), (1, 1)]);
}

#[test]
fn comparison_pairs_stay_within_a_language() {
    let files = vec![
        make_file("a.rs", "Rust", vec![make_func("f", 10, vec!["x"])]),
        make_file("a.py", "Python", vec![make_func("g", 10, vec!["x"])]),
        make_file("b.rs", "Rust", vec![make_func("h", 10, vec!["x"])]),
        make_file("b.py", "Python", vec![make_func("k", 10, vec!["x"])]),
    ];
    let candidates = clone_candidates(&files, 5);
    assert_eq!(candidates.len(), 4);
    assert_eq!(comparison_pairs(&files, &candidates), vec![(0, 2), (1, 3)]);
}

#[test]
fn clone_side_copies_the_function_location() {
    let file = make_file("dir/a.rs", "Rust", vec![make_func("f", 7, vec!["x"])]);
    let s = side(&file, &file.functions[0]);
    assert_eq!(s.name, "f");
    assert_eq!(s.line_start, 1);
    assert_eq!(s.line_end, 7);
    assert_eq!(s.path, Path::new("dir/a.rs"));
}
