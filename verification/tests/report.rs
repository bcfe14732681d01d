use polygraph::analyzer::{build_empty_result, build_error_result};
use polygraph::cognitive::HalsteadCounts;
use polygraph::output::pretty::{format_file_entry, function_row, function_table, table_header};
use polygraph::{FileResult, FunctionComplexity};
use std::path::Path;
use polygraph::output::markdown::{
    cluster_heading, default_file_metrics, default_project_metrics, file_metric, file_metric_label, metric_row,
    project_metric, project_metric_label, select_file_metrics, select_project_metrics, FileMetric, ProjectMetric,
};
use polygraph::output::{select_format, OutputFormat};
use polygraph::text::{decimal_text, text_eq, text_slice};

#[test]
fn metric_rows() {
    assert_eq!(metric_row("Files Analyzed", 3), "| Files Analyzed | 3 |\n");
    assert_eq!(metric_row("Total Lines", 0), "| Total Lines | 0 |\n");
    assert_eq!(metric_row("Total Lines", 1234567890), "| Total Lines | 1234567890 |\n");
}

#[test]
fn cluster_headings() {
    assert_eq!(cluster_heading("collect", 2), "### collect (2 exact matches)\n\n");
    assert_eq!(cluster_heading("one", 1), "### one (1 exact match)\n\n");
}

#[test]
fn formats_by_name() {
    assert_eq!(select_format("json"), OutputFormat::Json);
    assert_eq!(select_format("pretty"), OutputFormat::Pretty);
    assert_eq!(select_format("markdown"), OutputFormat::Markdown);
    assert_eq!(select_format("anything"), OutputFormat::Markdown);
    assert_eq!(select_format("JSON"), OutputFormat::Markdown);
}

#[test]
fn metric_keys() {
    assert_eq!(project_metric("files_analyzed"), Some(ProjectMetric::FilesAnalyzed));
    assert_eq!(project_metric("avg_halstead_time"), Some(ProjectMetric::AvgHalsteadTime));
    assert_eq!(project_metric("max_complexity"), None);
    assert_eq!(project_metric("bogus_metric"), None);
    assert_eq!(file_metric("max_complexity"), Some(FileMetric::MaxComplexity));
    assert_eq!(file_metric("total_function_lines"), Some(FileMetric::TotalFunctionLines));
    assert_eq!(file_metric("files_analyzed"), None);
    assert_eq!(project_metric_label(ProjectMetric::AvgComplexityPerFunction), "Avg Complexity / Function");
    assert_eq!(file_metric_label(FileMetric::MaxHalsteadTime), "Max Halstead Time");
    assert_eq!(default_project_metrics().len(), 11);
    assert_eq!(default_project_metrics()[0], ProjectMetric::FilesAnalyzed);
    assert_eq!(default_file_metrics().len(), 17);
    assert_eq!(default_file_metrics()[16], FileMetric::MaxHalsteadTime);
}

#[test]
fn text_helpers() {
    assert_eq!(decimal_text(0), "0");
    assert_eq!(decimal_text(907), "907");
    assert_eq!(decimal_text(u64::MAX), u64::MAX.to_string());
    assert!(text_eq("héllo", "héllo"));
    assert!(!text_eq("a", "ab"));
    assert_eq!(text_slice("héllo", 0, 3), Some("hé".to_string()));
    assert_eq!(text_slice("héllo", 0, 2), None);
    assert_eq!(text_slice("abc", 2, 1), None);
    assert_eq!(text_slice("abc", 1, 9), None);
}

#[test]
fn pretty_file_entries() {
    assert_eq!(table_header(), vec!["Function", "Lines", "Line Range", "Complexity"]);
    let f = FunctionComplexity {
        name: "run".to_string(),
        line_start: 3,
        line_end: 12,
        lines: 10,
        complexity: 4,
        nesting_depth: 1,
        halstead: HalsteadCounts { distinct_operators: 1, distinct_operands: 1, total_operators: 1, total_operands: 1 },
        clone_tokens: Vec::new(),
    };
    assert_eq!(function_row(&f), vec!["run", "10", "3-12", "4"]);

    let failed = build_error_result(Path::new("a/b.rs"), 0, "boom".to_string());
    assert_eq!(format_file_entry(&failed), "a/b.rs: ERROR: boom\n");
    assert_eq!(format_file_entry(&build_empty_result(Path::new("x.txt"), 4)), "");

    let file = FileResult::from_functions(Path::new("src/m.rs"), 20, vec![f], "Rust");
    let text = format_file_entry(&file);
    assert!(text.starts_with("src/m.rs (total complexity: 4, total lines: 20, functions: 1)\n"));
    assert!(text.contains("run"));
    assert!(text.contains("3-12"));
    assert!(text.ends_with('\n'));
}

#[test]
fn pretty_function_table_holds_a_row_per_function() {
    let make = |name: &str, start: usize, end: usize, complexity: u32| FunctionComplexity {
        name: name.to_string(),
        line_start: start,
        line_end: end,
        lines: end - start + 1,
        complexity,
        nesting_depth: 0,
        halstead: HalsteadCounts { distinct_operators: 0, distinct_operands: 0, total_operators: 0, total_operands: 0 },
        clone_tokens: Vec::new(),
    };
    let table = function_table(&vec![make("a", 1, 3, 1), make("b", 5, 9, 2)]);
    let header: Vec<String> = table.header().unwrap().cell_iter().map(|c| c.content()).collect();
    assert_eq!(header, vec!["Function", "Lines", "Line Range", "Complexity"]);
    let rows: Vec<Vec<String>> =
        table.row_iter().map(|r| r.cell_iter().map(|c| c.content()).collect()).collect();
    assert_eq!(rows, vec![vec!["a", "3", "1-3", "1"], vec!["b", "5", "5-9", "2"]]);
}

#[test]
fn configured_metric_keys_keep_their_order() {
    let keys: Vec<String> = ["total_lines", "bogus", "files_analyzed", "max_complexity"].iter().map(|k| k.to_string()).collect();
    let (rows, unknown) = select_project_metrics(&keys);
    assert_eq!(rows, vec![ProjectMetric::TotalLines, ProjectMetric::FilesAnalyzed]);
    assert_eq!(unknown, vec!["bogus", "max_complexity"]);
    let (rows, unknown) = select_file_metrics(&keys);
    assert_eq!(rows, vec![FileMetric::TotalLines, FileMetric::MaxComplexity]);
    assert_eq!(unknown, vec!["bogus", "files_analyzed"]);
}

#[test]
fn pretty_entry_starts_with_the_displayed_path() {
    let failed = build_error_result(Path::new("dir/sub/x.py"), 0, "bad".to_string());
    let text = format_file_entry(&failed);
    assert_eq!(text, format!("{}: ERROR: bad\n", Path::new("dir/sub/x.py").display()));
}

#[test]
fn pretty_entry_draws_the_function_table() {
    let f = FunctionComplexity {
        name: "run".to_string(),
        line_start: 3,
        line_end: 12,
        lines: 10,
        complexity: 4,
        nesting_depth: 1,
        halstead: HalsteadCounts { distinct_operators: 1, distinct_operands: 1, total_operators: 1, total_operands: 1 },
        clone_tokens: Vec::new(),
    };
    let file = FileResult::from_functions(Path::new("src/m.rs"), 20, vec![f], "Rust");
    let mut table = comfy_table::Table::new();
    table.set_content_arrangement(comfy_table::ContentArrangement::Dynamic);
    table.set_header(vec!["Function", "Lines", "Line Range", "Complexity"]);
    table.add_row(vec!["run", "10", "3-12", "4"]);
    let expected = format!("src/m.rs (total complexity: 4, total lines: 20, functions: 1)\n{table}\n");
    assert_eq!(format_file_entry(&file), expected);
}
