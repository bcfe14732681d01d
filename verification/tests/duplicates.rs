use polygraph::duplicates::{compute_duplicates, text_before, DuplicateCandidate, DuplicateCluster};

fn key(v: f64) -> Option<u64> {
    if v.is_nan() {
        None
    } else if v == 0.0 {
        Some(0)
    } else {
        Some(v.to_bits())
    }
}

fn make_func(name: &str, path_rank: u64, lines: usize, complexity: u32, nesting: u32, volume: f64, difficulty: f64) -> DuplicateCandidate {
    DuplicateCandidate {
        name: name.to_string(),
        path_rank,
        lines,
        complexity,
        nesting_depth: nesting,
        volume_key: key(volume),
        difficulty_key: key(difficulty),
    }
}

fn names(clusters: &[DuplicateCluster]) -> Vec<&str> {
    clusters.iter().map(|c| c.name.as_str()).collect()
}

#[test]
fn test_no_duplicates() {
    let files = vec![
        make_func("foo", 0, 10, 2, 1, 100.0, 0.0),
        make_func("bar", 1, 10, 2, 1, 100.0, 0.0),
    ];
    let clusters = compute_duplicates(&files);
    assert!(clusters.is_empty());
}

#[test]
fn test_exact_match_cluster() {
    let files = vec![
        make_func("collect", 0, 28, 3, 1, 469.13, 0.0),
        make_func("collect", 1, 28, 3, 1, 469.13, 0.0),
    ];
    let clusters = compute_duplicates(&files);
    assert_eq!(clusters.len(), 1);
    assert_eq!(clusters[0].name, "collect");
    assert_eq!(clusters[0].instances.len(), 2);
}

#[test]
fn test_same_name_different_metrics() {
    let files = vec![
        make_func("collect", 0, 28, 3, 1, 469.13, 0.0),
        make_func("collect", 1, 30, 3, 1, 469.13, 0.0),
    ];
    let clusters = compute_duplicates(&files);
    assert!(clusters.is_empty());
}

#[test]
fn test_sorting_behavior() {
    // Path ranks: a.rs = 0, b.rs = 1, c.rs = 2, d.rs = 3, e.rs = 4.
    let files = vec![
        make_func("alpha", 1, 10, 2, 1, 100.0, 0.0),
        make_func("alpha", 0, 10, 2, 1, 100.0, 0.0),
        make_func("beta", 2, 10, 2, 1, 100.0, 0.0),
        make_func("beta", 3, 10, 2, 1, 100.0, 0.0),
        make_func("beta", 4, 10, 2, 1, 100.0, 0.0),
    ];
    let clusters = compute_duplicates(&files);
    assert_eq!(clusters.len(), 2);
    // Clusters sorted by instance count descending, then name ascending
    assert_eq!(clusters[0].name, "beta");
    assert_eq!(clusters[0].instances.len(), 3);
    assert_eq!(clusters[1].name, "alpha");
    assert_eq!(clusters[1].instances.len(), 2);
    // Instances within cluster sorted by path ascending: a.rs is candidate 1, b.rs candidate 0
    assert_eq!(clusters[1].instances, vec![1, 0]);
    assert_eq!(clusters[0].instances, vec![2, 3, 4]);
}

#[test]
fn test_multiple_distinct_clusters() {
    let files = vec![
        make_func("foo", 0, 10, 2, 1, 100.0, 0.0),
        make_func("foo", 1, 10, 2, 1, 100.0, 0.0),
        make_func("bar", 2, 20, 4, 2, 200.0, 1.0),
        make_func("bar", 3, 20, 4, 2, 200.0, 1.0),
    ];
    let clusters = compute_duplicates(&files);
    assert_eq!(clusters.len(), 2);
    let names = names(&clusters);
    assert!(names.contains(&"foo"));
    assert!(names.contains(&"bar"));
    // Same size: ordered by name.
    assert_eq!(names, vec!["bar", "foo"]);
}

#[test]
fn test_three_instances() {
    let files = vec![
        make_func("collect", 0, 28, 3, 1, 469.13, 5.0),
        make_func("collect", 1, 28, 3, 1, 469.13, 5.0),
        make_func("collect", 2, 28, 3, 1, 469.13, 5.0),
    ];
    let clusters = compute_duplicates(&files);
    assert_eq!(clusters.len(), 1);
    assert_eq!(clusters[0].name, "collect");
    assert_eq!(clusters[0].instances.len(), 3);
}

#[test]
fn duplicates_without_a_comparable_volume_never_cluster() {
    let files = vec![
        make_func("f", 0, 5, 1, 0, f64::NAN, 0.0),
        make_func("f", 1, 5, 1, 0, f64::NAN, 0.0),
    ];
    assert!(compute_duplicates(&files).is_empty());
}

#[test]
fn duplicates_one_mismatch_spoils_the_whole_name() {
    let files = vec![
        make_func("g", 0, 5, 1, 0, 10.0, 1.0),
        make_func("g", 1, 5, 1, 0, 10.0, 1.0),
        make_func("g", 2, 5, 2, 0, 10.0, 1.0),
    ];
    assert!(compute_duplicates(&files).is_empty());
}

#[test]
fn duplicates_same_path_keeps_the_input_order() {
    let files = vec![
        make_func("h", 7, 5, 1, 0, 10.0, 1.0),
        make_func("x", 0, 5, 1, 0, 10.0, 1.0),
        make_func("h", 7, 5, 1, 0, 10.0, 1.0),
        make_func("h", 3, 5, 1, 0, 10.0, 1.0),
    ];
    let clusters = compute_duplicates(&files);
    assert_eq!(clusters.len(), 1);
    assert_eq!(clusters[0].instances, vec![3, 0, 2]);
}

#[test]
fn duplicates_names_compare_by_bytes() {
    assert!(text_before("Beta", "alpha"));
    assert!(text_before("ab", "abc"));
    assert!(!text_before("abc", "abc"));
    assert!(!text_before("b", "a"));
    let files = vec![
        make_func("b", 0, 5, 1, 0, 10.0, 1.0),
        make_func("a", 0, 5, 1, 0, 10.0, 1.0),
        make_func("b", 1, 5, 1, 0, 10.0, 1.0),
        make_func("a", 1, 5, 1, 0, 10.0, 1.0),
        make_func("B", 0, 5, 1, 0, 10.0, 1.0),
        make_func("B", 1, 5, 1, 0, 10.0, 1.0),
    ];
    assert_eq!(names(&compute_duplicates(&files)), vec!["B", "a", "b"]);
}
