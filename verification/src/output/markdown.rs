//! Rows and headings of the Markdown report whose text does not depend on
//! floating-point values.

use vstd::prelude::*;
use vstd::string::StringExecFns;
use crate::cognitive::texts;
use crate::text::{decimal, decimal_text, text_eq};

verus! {

/// The text of a summary table row: `| name | value |` and a line break.
pub open spec fn metric_row_text(name: Seq<char>, value: Seq<char>) -> Seq<char> {
    "| "@ + name + " | "@ + value + " |\n"@
}

/// A summary table row with a whole-number value.
pub fn metric_row(name: &str, value: u64) -> (r: String)
    ensures
        r@ == metric_row_text(name@, decimal(value as nat)),
{
    let mut out = String::from_str("| ");
    out.append(name);
    out.append(" | ");
    let digits = decimal_text(value);
    out.append(digits.as_str());
    out.append(" |\n");
    out
}

/// The heading of a duplication cluster: `### name (count exact match)`,
/// with `matches` for any count other than one, and a blank line.
pub open spec fn cluster_heading_text(name: Seq<char>, count: nat) -> Seq<char> {
    "### "@ + name + " ("@ + decimal(count) + " exact match"@ + (if count == 1 { ""@ } else { "es"@ })
        + ")\n\n"@
}

/// The heading of a duplication cluster of `count` functions named `name`.
pub fn cluster_heading(name: &str, count: u64) -> (r: String)
    ensures
        r@ == cluster_heading_text(name@, count as nat),
{
    let mut out = String::from_str("### ");
    out.append(name);
    out.append(" (");
    let digits = decimal_text(count);
    out.append(digits.as_str());
    out.append(" exact match");
    if count == 1 {
        out.append("");
    } else {
        out.append("es");
    }
    out.append(")\n\n");
    out
}

/// A row that the project summary can show.
#[derive(Clone, Copy, PartialEq, Eq, Debug)]
pub enum ProjectMetric {
    FilesAnalyzed,
    TotalFunctions,
    TotalLines,
    TotalComplexity,
    AvgComplexityPerFunction,
    MaxNestingDepth,
    AvgNestingDepth,
    AvgHalsteadVolume,
    AvgHalsteadDifficulty,
    AvgHalsteadEffort,
    AvgHalsteadTime,
}

/// The project summary row that the configuration key `key` selects, if any.
pub open spec fn project_metric_for(key: Seq<char>) -> Option<ProjectMetric> {
    if key == "files_analyzed"@ {
        Some(ProjectMetric::FilesAnalyzed)
    } else if key == "total_functions"@ {
        Some(ProjectMetric::TotalFunctions)
    } else if key == "total_lines"@ {
        Some(ProjectMetric::TotalLines)
    } else if key == "total_complexity"@ {
        Some(ProjectMetric::TotalComplexity)
    } else if key == "avg_complexity_per_function"@ {
        Some(ProjectMetric::AvgComplexityPerFunction)
    } else if key == "max_nesting_depth"@ {
        Some(ProjectMetric::MaxNestingDepth)
    } else if key == "avg_nesting_depth"@ {
        Some(ProjectMetric::AvgNestingDepth)
    } else if key == "avg_halstead_volume"@ {
        Some(ProjectMetric::AvgHalsteadVolume)
    } else if key == "avg_halstead_difficulty"@ {
        Some(ProjectMetric::AvgHalsteadDifficulty)
    } else if key == "avg_halstead_effort"@ {
        Some(ProjectMetric::AvgHalsteadEffort)
    } else if key == "avg_halstead_time"@ {
        Some(ProjectMetric::AvgHalsteadTime)
    } else {
        None
    }
}

/// The label of a project summary row.
pub open spec fn project_metric_label_text(m: ProjectMetric) -> Seq<char> {
    match m {
        ProjectMetric::FilesAnalyzed => "Files Analyzed"@,
        ProjectMetric::TotalFunctions => "Total Functions"@,
        ProjectMetric::TotalLines => "Total Lines"@,
        ProjectMetric::TotalComplexity => "Total Complexity"@,
        ProjectMetric::AvgComplexityPerFunction => "Avg Complexity / Function"@,
        ProjectMetric::MaxNestingDepth => "Max Nesting Depth"@,
        ProjectMetric::AvgNestingDepth => "Avg Nesting Depth"@,
        ProjectMetric::AvgHalsteadVolume => "Avg Halstead Volume"@,
        ProjectMetric::AvgHalsteadDifficulty => "Avg Halstead Difficulty"@,
        ProjectMetric::AvgHalsteadEffort => "Avg Halstead Effort"@,
        ProjectMetric::AvgHalsteadTime => "Avg Halstead Time"@,
    }
}

/// The project summary row that `key` selects, if any.
pub fn project_metric(key: &str) -> (r: Option<ProjectMetric>)
    ensures
        r == project_metric_for(key@),
{
    if text_eq(key, "files_analyzed") {
        Some(ProjectMetric::FilesAnalyzed)
    } else if text_eq(key, "total_functions") {
        Some(ProjectMetric::TotalFunctions)
    } else if text_eq(key, "total_lines") {
        Some(ProjectMetric::TotalLines)
    } else if text_eq(key, "total_complexity") {
        Some(ProjectMetric::TotalComplexity)
    } else if text_eq(key, "avg_complexity_per_function") {
        Some(ProjectMetric::AvgComplexityPerFunction)
    } else if text_eq(key, "max_nesting_depth") {
        Some(ProjectMetric::MaxNestingDepth)
    } else if text_eq(key, "avg_nesting_depth") {
        Some(ProjectMetric::AvgNestingDepth)
    } else if text_eq(key, "avg_halstead_volume") {
        Some(ProjectMetric::AvgHalsteadVolume)
    } else if text_eq(key, "avg_halstead_difficulty") {
        Some(ProjectMetric::AvgHalsteadDifficulty)
    } else if text_eq(key, "avg_halstead_effort") {
        Some(ProjectMetric::AvgHalsteadEffort)
    } else if text_eq(key, "avg_halstead_time") {
        Some(ProjectMetric::AvgHalsteadTime)
    } else {
        None
    }
}

/// The label of a project summary row.
pub fn project_metric_label(m: ProjectMetric) -> (r: &'static str)
    ensures
        r@ == project_metric_label_text(m),
{
    match m {
        ProjectMetric::FilesAnalyzed => "Files Analyzed",
        ProjectMetric::TotalFunctions => "Total Functions",
        ProjectMetric::TotalLines => "Total Lines",
        ProjectMetric::TotalComplexity => "Total Complexity",
        ProjectMetric::AvgComplexityPerFunction => "Avg Complexity / Function",
        ProjectMetric::MaxNestingDepth => "Max Nesting Depth",
        ProjectMetric::AvgNestingDepth => "Avg Nesting Depth",
        ProjectMetric::AvgHalsteadVolume => "Avg Halstead Volume",
        ProjectMetric::AvgHalsteadDifficulty => "Avg Halstead Difficulty",
        ProjectMetric::AvgHalsteadEffort => "Avg Halstead Effort",
        ProjectMetric::AvgHalsteadTime => "Avg Halstead Time",
    }
}

/// The project summary rows shown when the configuration selects none, in order.
pub fn default_project_metrics() -> (r: Vec<ProjectMetric>)
    ensures
        r@ == seq![ProjectMetric::FilesAnalyzed, ProjectMetric::TotalFunctions, ProjectMetric::TotalLines, ProjectMetric::TotalComplexity, ProjectMetric::AvgComplexityPerFunction, ProjectMetric::MaxNestingDepth, ProjectMetric::AvgNestingDepth, ProjectMetric::AvgHalsteadVolume, ProjectMetric::AvgHalsteadDifficulty, ProjectMetric::AvgHalsteadEffort, ProjectMetric::AvgHalsteadTime],
{
    vec![ProjectMetric::FilesAnalyzed, ProjectMetric::TotalFunctions, ProjectMetric::TotalLines, ProjectMetric::TotalComplexity, ProjectMetric::AvgComplexityPerFunction, ProjectMetric::MaxNestingDepth, ProjectMetric::AvgNestingDepth, ProjectMetric::AvgHalsteadVolume, ProjectMetric::AvgHalsteadDifficulty, ProjectMetric::AvgHalsteadEffort, ProjectMetric::AvgHalsteadTime]
}

/// A row that the file summary can show.
#[derive(Clone, Copy, PartialEq, Eq, Debug)]
pub enum FileMetric {
    TotalFunctions,
    TotalLines,
    TotalFunctionLines,
    TotalComplexity,
    AvgComplexityPerFunction,
    MaxComplexity,
    MaxNestingDepth,
    AvgNestingDepth,
    MaxFunctionLines,
    AvgHalsteadVolume,
    MaxHalsteadVolume,
    AvgHalsteadDifficulty,
    MaxHalsteadDifficulty,
    AvgHalsteadEffort,
    MaxHalsteadEffort,
    AvgHalsteadTime,
    MaxHalsteadTime,
}

/// The file summary row that the configuration key `key` selects, if any.
pub open spec fn file_metric_for(key: Seq<char>) -> Option<FileMetric> {
    if key == "total_functions"@ {
        Some(FileMetric::TotalFunctions)
    } else if key == "total_lines"@ {
        Some(FileMetric::TotalLines)
    } else if key == "total_function_lines"@ {
        Some(FileMetric::TotalFunctionLines)
    } else if key == "total_complexity"@ {
        Some(FileMetric::TotalComplexity)
    } else if key == "avg_complexity_per_function"@ {
        Some(FileMetric::AvgComplexityPerFunction)
    } else if key == "max_complexity"@ {
        Some(FileMetric::MaxComplexity)
    } else if key == "max_nesting_depth"@ {
        Some(FileMetric::MaxNestingDepth)
    } else if key == "avg_nesting_depth"@ {
        Some(FileMetric::AvgNestingDepth)
    } else if key == "max_function_lines"@ {
        Some(FileMetric::MaxFunctionLines)
    } else if key == "avg_halstead_volume"@ {
        Some(FileMetric::AvgHalsteadVolume)
    } else if key == "max_halstead_volume"@ {
        Some(FileMetric::MaxHalsteadVolume)
    } else if key == "avg_halstead_difficulty"@ {
        Some(FileMetric::AvgHalsteadDifficulty)
    } else if key == "max_halstead_difficulty"@ {
        Some(FileMetric::MaxHalsteadDifficulty)
    } else if key == "avg_halstead_effort"@ {
        Some(FileMetric::AvgHalsteadEffort)
    } else if key == "max_halstead_effort"@ {
        Some(FileMetric::MaxHalsteadEffort)
    } else if key == "avg_halstead_time"@ {
        Some(FileMetric::AvgHalsteadTime)
    } else if key == "max_halstead_time"@ {
        Some(FileMetric::MaxHalsteadTime)
    } else {
        None
    }
}

/// The label of a file summary row.
pub open spec fn file_metric_label_text(m: FileMetric) -> Seq<char> {
    match m {
        FileMetric::TotalFunctions => "Total Functions"@,
        FileMetric::TotalLines => "Total Lines"@,
        FileMetric::TotalFunctionLines => "Total Function Lines"@,
        FileMetric::TotalComplexity => "Total Complexity"@,
        FileMetric::AvgComplexityPerFunction => "Avg Complexity / Function"@,
        FileMetric::MaxComplexity => "Max Complexity"@,
        FileMetric::MaxNestingDepth => "Max Nesting Depth"@,
        FileMetric::AvgNestingDepth => "Avg Nesting Depth"@,
        FileMetric::MaxFunctionLines => "Max Function Lines"@,
        FileMetric::AvgHalsteadVolume => "Avg Halstead Volume"@,
        FileMetric::MaxHalsteadVolume => "Max Halstead Volume"@,
        FileMetric::AvgHalsteadDifficulty => "Avg Halstead Difficulty"@,
        FileMetric::MaxHalsteadDifficulty => "Max Halstead Difficulty"@,
        FileMetric::AvgHalsteadEffort => "Avg Halstead Effort"@,
        FileMetric::MaxHalsteadEffort => "Max Halstead Effort"@,
        FileMetric::AvgHalsteadTime => "Avg Halstead Time"@,
        FileMetric::MaxHalsteadTime => "Max Halstead Time"@,
    }
}

/// The file summary row that `key` selects, if any.
pub fn file_metric(key: &str) -> (r: Option<FileMetric>)
    ensures
        r == file_metric_for(key@),
{
    if text_eq(key, "total_functions") {
        Some(FileMetric::TotalFunctions)
    } else if text_eq(key, "total_lines") {
        Some(FileMetric::TotalLines)
    } else if text_eq(key, "total_function_lines") {
        Some(FileMetric::TotalFunctionLines)
    } else if text_eq(key, "total_complexity") {
        Some(FileMetric::TotalComplexity)
    } else if text_eq(key, "avg_complexity_per_function") {
        Some(FileMetric::AvgComplexityPerFunction)
    } else if text_eq(key, "max_complexity") {
        Some(FileMetric::MaxComplexity)
    } else if text_eq(key, "max_nesting_depth") {
        Some(FileMetric::MaxNestingDepth)
    } else if text_eq(key, "avg_nesting_depth") {
        Some(FileMetric::AvgNestingDepth)
    } else if text_eq(key, "max_function_lines") {
        Some(FileMetric::MaxFunctionLines)
    } else if text_eq(key, "avg_halstead_volume") {
        Some(FileMetric::AvgHalsteadVolume)
    } else if text_eq(key, "max_halstead_volume") {
        Some(FileMetric::MaxHalsteadVolume)
    } else if text_eq(key, "avg_halstead_difficulty") {
        Some(FileMetric::AvgHalsteadDifficulty)
    } else if text_eq(key, "max_halstead_difficulty") {
        Some(FileMetric::MaxHalsteadDifficulty)
    } else if text_eq(key, "avg_halstead_effort") {
        Some(FileMetric::AvgHalsteadEffort)
    } else if text_eq(key, "max_halstead_effort") {
        Some(FileMetric::MaxHalsteadEffort)
    } else if text_eq(key, "avg_halstead_time") {
        Some(FileMetric::AvgHalsteadTime)
    } else if text_eq(key, "max_halstead_time") {
        Some(FileMetric::MaxHalsteadTime)
    } else {
        None
    }
}

/// The label of a file summary row.
pub fn file_metric_label(m: FileMetric) -> (r: &'static str)
    ensures
        r@ == file_metric_label_text(m),
{
    match m {
        FileMetric::TotalFunctions => "Total Functions",
        FileMetric::TotalLines => "Total Lines",
        FileMetric::TotalFunctionLines => "Total Function Lines",
        FileMetric::TotalComplexity => "Total Complexity",
        FileMetric::AvgComplexityPerFunction => "Avg Complexity / Function",
        FileMetric::MaxComplexity => "Max Complexity",
        FileMetric::MaxNestingDepth => "Max Nesting Depth",
        FileMetric::AvgNestingDepth => "Avg Nesting Depth",
        FileMetric::MaxFunctionLines => "Max Function Lines",
        FileMetric::AvgHalsteadVolume => "Avg Halstead Volume",
        FileMetric::MaxHalsteadVolume => "Max Halstead Volume",
        FileMetric::AvgHalsteadDifficulty => "Avg Halstead Difficulty",
        FileMetric::MaxHalsteadDifficulty => "Max Halstead Difficulty",
        FileMetric::AvgHalsteadEffort => "Avg Halstead Effort",
        FileMetric::MaxHalsteadEffort => "Max Halstead Effort",
        FileMetric::AvgHalsteadTime => "Avg Halstead Time",
        FileMetric::MaxHalsteadTime => "Max Halstead Time",
    }
}

/// The file summary rows shown when the configuration selects none, in order.
pub fn default_file_metrics() -> (r: Vec<FileMetric>)
    ensures
        r@ == seq![FileMetric::TotalFunctions, FileMetric::TotalLines, FileMetric::TotalFunctionLines, FileMetric::TotalComplexity, FileMetric::AvgComplexityPerFunction, FileMetric::MaxComplexity, FileMetric::MaxNestingDepth, FileMetric::AvgNestingDepth, FileMetric::MaxFunctionLines, FileMetric::AvgHalsteadVolume, FileMetric::MaxHalsteadVolume, FileMetric::AvgHalsteadDifficulty, FileMetric::MaxHalsteadDifficulty, FileMetric::AvgHalsteadEffort, FileMetric::MaxHalsteadEffort, FileMetric::AvgHalsteadTime, FileMetric::MaxHalsteadTime],
{
    vec![FileMetric::TotalFunctions, FileMetric::TotalLines, FileMetric::TotalFunctionLines, FileMetric::TotalComplexity, FileMetric::AvgComplexityPerFunction, FileMetric::MaxComplexity, FileMetric::MaxNestingDepth, FileMetric::AvgNestingDepth, FileMetric::MaxFunctionLines, FileMetric::AvgHalsteadVolume, FileMetric::MaxHalsteadVolume, FileMetric::AvgHalsteadDifficulty, FileMetric::MaxHalsteadDifficulty, FileMetric::AvgHalsteadEffort, FileMetric::MaxHalsteadEffort, FileMetric::AvgHalsteadTime, FileMetric::MaxHalsteadTime]
}

/// The project summary rows that `keys` select, in the order of the keys,
/// and the keys that select none, in order.
pub open spec fn project_metrics_selected(keys: Seq<Seq<char>>) -> (Seq<ProjectMetric>, Seq<Seq<char>>)
    decreases keys.len(),
{
    if keys.len() == 0 {
        (seq![], seq![])
    } else {
        let (rows, unknown) = project_metrics_selected(keys.drop_last());
        match project_metric_for(keys.last()) {
            Some(m) => (rows.push(m), unknown),
            None => (rows, unknown.push(keys.last())),
        }
    }
}

/// The project summary rows that the configured `keys` select, and the keys
/// that are unknown (see `project_metrics_selected`).
pub fn select_project_metrics(keys: &[String]) -> (r: (Vec<ProjectMetric>, Vec<String>))
    ensures
        (r.0@, texts(r.1@)) == project_metrics_selected(texts(keys@)),
{
    let mut rows: Vec<ProjectMetric> = Vec::new();
    let mut unknown: Vec<String> = Vec::new();
    let mut i: usize = 0;
    while i < keys.len()
        invariant
            i <= keys@.len(),
            (rows@, texts(unknown@)) == project_metrics_selected(texts(keys@.take(i as int))),
        decreases keys@.len() - i,
    {
        proof {
            assert(texts(keys@.take(i + 1)).drop_last() =~= texts(keys@.take(i as int)));
        }
        match project_metric(keys[i].as_str()) {
            Some(m) => rows.push(m),
            None => {
                let ghost before = unknown@;
                unknown.push(keys[i].clone());
                assert(texts(unknown@) =~= texts(before).push(keys@[i as int]@));
            },
        }
        i += 1;
    }
    assert(keys@.take(keys@.len() as int) =~= keys@);
    (rows, unknown)
}

/// The file summary rows that `keys` select, in the order of the keys,
/// and the keys that select none, in order.
pub open spec fn file_metrics_selected(keys: Seq<Seq<char>>) -> (Seq<FileMetric>, Seq<Seq<char>>)
    decreases keys.len(),
{
    if keys.len() == 0 {
        (seq![], seq![])
    } else {
        let (rows, unknown) = file_metrics_selected(keys.drop_last());
        match file_metric_for(keys.last()) {
            Some(m) => (rows.push(m), unknown),
            None => (rows, unknown.push(keys.last())),
        }
    }
}

/// The file summary rows that the configured `keys` select, and the keys
/// that are unknown (see `file_metrics_selected`).
pub fn select_file_metrics(keys: &[String]) -> (r: (Vec<FileMetric>, Vec<String>))
    ensures
        (r.0@, texts(r.1@)) == file_metrics_selected(texts(keys@)),
{
    let mut rows: Vec<FileMetric> = Vec::new();
    let mut unknown: Vec<String> = Vec::new();
    let mut i: usize = 0;
    while i < keys.len()
        invariant
            i <= keys@.len(),
            (rows@, texts(unknown@)) == file_metrics_selected(texts(keys@.take(i as int))),
        decreases keys@.len() - i,
    {
        proof {
            assert(texts(keys@.take(i + 1)).drop_last() =~= texts(keys@.take(i as int)));
        }
        match file_metric(keys[i].as_str()) {
            Some(m) => rows.push(m),
            None => {
                let ghost before = unknown@;
                unknown.push(keys[i].clone());
                assert(texts(unknown@) =~= texts(before).push(keys@[i as int]@));
            },
        }
        i += 1;
    }
    assert(keys@.take(keys@.len() as int) =~= keys@);
    (rows, unknown)
}

/// The configuration key of each project summary row.
pub open spec fn project_metric_key(m: ProjectMetric) -> Seq<char> {
    match m {
        ProjectMetric::FilesAnalyzed => "files_analyzed"@,
        ProjectMetric::TotalFunctions => "total_functions"@,
        ProjectMetric::TotalLines => "total_lines"@,
        ProjectMetric::TotalComplexity => "total_complexity"@,
        ProjectMetric::AvgComplexityPerFunction => "avg_complexity_per_function"@,
        ProjectMetric::MaxNestingDepth => "max_nesting_depth"@,
        ProjectMetric::AvgNestingDepth => "avg_nesting_depth"@,
        ProjectMetric::AvgHalsteadVolume => "avg_halstead_volume"@,
        ProjectMetric::AvgHalsteadDifficulty => "avg_halstead_difficulty"@,
        ProjectMetric::AvgHalsteadEffort => "avg_halstead_effort"@,
        ProjectMetric::AvgHalsteadTime => "avg_halstead_time"@,
    }
}

/// Each project summary row is selected by its own key, and only by it: a
/// key selects row `m` exactly when it is `m`'s key, so different rows have
/// different keys.
pub proof fn lemma_project_metric_keys(m: ProjectMetric, key: Seq<char>)
    ensures
        project_metric_for(project_metric_key(m)) == Some(m),
        project_metric_for(key) == Some(m) <==> key == project_metric_key(m),
{
    reveal_strlit("files_analyzed");
    reveal_strlit("total_functions");
    reveal_strlit("total_lines");
    reveal_strlit("total_complexity");
    reveal_strlit("avg_complexity_per_function");
    reveal_strlit("max_nesting_depth");
    reveal_strlit("avg_nesting_depth");
    reveal_strlit("avg_halstead_volume");
    reveal_strlit("avg_halstead_difficulty");
    reveal_strlit("avg_halstead_effort");
    reveal_strlit("avg_halstead_time");
    match m {
        ProjectMetric::FilesAnalyzed => {
        },
        ProjectMetric::TotalFunctions => {
            assert("total_functions"@.len() != "files_analyzed"@.len());
        },
        ProjectMetric::TotalLines => {
            assert("total_lines"@.len() != "files_analyzed"@.len());
            assert("total_lines"@.len() != "total_functions"@.len());
        },
        ProjectMetric::TotalComplexity => {
            assert("total_complexity"@.len() != "files_analyzed"@.len());
            assert("total_complexity"@.len() != "total_functions"@.len());
            assert("total_complexity"@.len() != "total_lines"@.len());
        },
        ProjectMetric::AvgComplexityPerFunction => {
            assert("avg_complexity_per_function"@.len() != "files_analyzed"@.len());
            assert("avg_complexity_per_function"@.len() != "total_functions"@.len());
            assert("avg_complexity_per_function"@.len() != "total_lines"@.len());
            assert("avg_complexity_per_function"@.len() != "total_complexity"@.len());
        },
        ProjectMetric::MaxNestingDepth => {
            assert("max_nesting_depth"@.len() != "files_analyzed"@.len());
            assert("max_nesting_depth"@.len() != "total_functions"@.len());
            assert("max_nesting_depth"@.len() != "total_lines"@.len());
            assert("max_nesting_depth"@.len() != "total_complexity"@.len());
            assert("max_nesting_depth"@.len() != "avg_complexity_per_function"@.len());
        },
        ProjectMetric::AvgNestingDepth => {
            assert("avg_nesting_depth"@.len() != "files_analyzed"@.len());
            assert("avg_nesting_depth"@.len() != "total_functions"@.len());
            assert("avg_nesting_depth"@.len() != "total_lines"@.len());
            assert("avg_nesting_depth"@.len() != "total_complexity"@.len());
            assert("avg_nesting_depth"@.len() != "avg_complexity_per_function"@.len());
            assert("avg_nesting_depth"@[0] != "max_nesting_depth"@[0]);
        },
        ProjectMetric::AvgHalsteadVolume => {
            assert("avg_halstead_volume"@.len() != "files_analyzed"@.len());
            assert("avg_halstead_volume"@.len() != "total_functions"@.len());
            assert("avg_halstead_volume"@.len() != "total_lines"@.len());
            assert("avg_halstead_volume"@.len() != "total_complexity"@.len());
            assert("avg_halstead_volume"@.len() != "avg_complexity_per_function"@.len());
            assert("avg_halstead_volume"@.len() != "max_nesting_depth"@.len());
            assert("avg_halstead_volume"@.len() != "avg_nesting_depth"@.len());
        },
        ProjectMetric::AvgHalsteadDifficulty => {
            assert("avg_halstead_difficulty"@.len() != "files_analyzed"@.len());
            assert("avg_halstead_difficulty"@.len() != "total_functions"@.len());
            assert("avg_halstead_difficulty"@.len() != "total_lines"@.len());
            assert("avg_halstead_difficulty"@.len() != "total_complexity"@.len());
            assert("avg_halstead_difficulty"@.len() != "avg_complexity_per_function"@.len());
            assert("avg_halstead_difficulty"@.len() != "max_nesting_depth"@.len());
            assert("avg_halstead_difficulty"@.len() != "avg_nesting_depth"@.len());
            assert("avg_halstead_difficulty"@.len() != "avg_halstead_volume"@.len());
        },
        ProjectMetric::AvgHalsteadEffort => {
            assert("avg_halstead_effort"@.len() != "files_analyzed"@.len());
            assert("avg_halstead_effort"@.len() != "total_functions"@.len());
            assert("avg_halstead_effort"@.len() != "total_lines"@.len());
            assert("avg_halstead_effort"@.len() != "total_complexity"@.len());
            assert("avg_halstead_effort"@.len() != "avg_complexity_per_function"@.len());
            assert("avg_halstead_effort"@.len() != "max_nesting_depth"@.len());
            assert("avg_halstead_effort"@.len() != "avg_nesting_depth"@.len());
            assert("avg_halstead_effort"@[13] != "avg_halstead_volume"@[13]);
            assert("avg_halstead_effort"@.len() != "avg_halstead_difficulty"@.len());
        },
        ProjectMetric::AvgHalsteadTime => {
            assert("avg_halstead_time"@.len() != "files_analyzed"@.len());
            assert("avg_halstead_time"@.len() != "total_functions"@.len());
            assert("avg_halstead_time"@.len() != "total_lines"@.len());
            assert("avg_halstead_time"@.len() != "total_complexity"@.len());
            assert("avg_halstead_time"@.len() != "avg_complexity_per_function"@.len());
            assert("avg_halstead_time"@[0] != "max_nesting_depth"@[0]);
            assert("avg_halstead_time"@[4] != "avg_nesting_depth"@[4]);
            assert("avg_halstead_time"@.len() != "avg_halstead_volume"@.len());
            assert("avg_halstead_time"@.len() != "avg_halstead_difficulty"@.len());
            assert("avg_halstead_time"@.len() != "avg_halstead_effort"@.len());
        },
    }
}

/// The configuration key of each file summary row.
pub open spec fn file_metric_key(m: FileMetric) -> Seq<char> {
    match m {
        FileMetric::TotalFunctions => "total_functions"@,
        FileMetric::TotalLines => "total_lines"@,
        FileMetric::TotalFunctionLines => "total_function_lines"@,
        FileMetric::TotalComplexity => "total_complexity"@,
        FileMetric::AvgComplexityPerFunction => "avg_complexity_per_function"@,
        FileMetric::MaxComplexity => "max_complexity"@,
        FileMetric::MaxNestingDepth => "max_nesting_depth"@,
        FileMetric::AvgNestingDepth => "avg_nesting_depth"@,
        FileMetric::MaxFunctionLines => "max_function_lines"@,
        FileMetric::AvgHalsteadVolume => "avg_halstead_volume"@,
        FileMetric::MaxHalsteadVolume => "max_halstead_volume"@,
        FileMetric::AvgHalsteadDifficulty => "avg_halstead_difficulty"@,
        FileMetric::MaxHalsteadDifficulty => "max_halstead_difficulty"@,
        FileMetric::AvgHalsteadEffort => "avg_halstead_effort"@,
        FileMetric::MaxHalsteadEffort => "max_halstead_effort"@,
        FileMetric::AvgHalsteadTime => "avg_halstead_time"@,
        FileMetric::MaxHalsteadTime => "max_halstead_time"@,
    }
}

/// Each file summary row is selected by its own key, and only by it: a
/// key selects row `m` exactly when it is `m`'s key, so different rows have
/// different keys.
pub proof fn lemma_file_metric_keys(m: FileMetric, key: Seq<char>)
    ensures
        file_metric_for(file_metric_key(m)) == Some(m),
        file_metric_for(key) == Some(m) <==> key == file_metric_key(m),
{
    reveal_strlit("total_functions");
    reveal_strlit("total_lines");
    reveal_strlit("total_function_lines");
    reveal_strlit("total_complexity");
    reveal_strlit("avg_complexity_per_function");
    reveal_strlit("max_complexity");
    reveal_strlit("max_nesting_depth");
    reveal_strlit("avg_nesting_depth");
    reveal_strlit("max_function_lines");
    reveal_strlit("avg_halstead_volume");
    reveal_strlit("max_halstead_volume");
    reveal_strlit("avg_halstead_difficulty");
    reveal_strlit("max_halstead_difficulty");
    reveal_strlit("avg_halstead_effort");
    reveal_strlit("max_halstead_effort");
    reveal_strlit("avg_halstead_time");
    reveal_strlit("max_halstead_time");
    match m {
        FileMetric::TotalFunctions => {
        },
        FileMetric::TotalLines => {
            assert("total_lines"@.len() != "total_functions"@.len());
        },
        FileMetric::TotalFunctionLines => {
            assert("total_function_lines"@.len() != "total_functions"@.len());
            assert("total_function_lines"@.len() != "total_lines"@.len());
        },
        FileMetric::TotalComplexity => {
            assert("total_complexity"@.len() != "total_functions"@.len());
            assert("total_complexity"@.len() != "total_lines"@.len());
            assert("total_complexity"@.len() != "total_function_lines"@.len());
        },
        FileMetric::AvgComplexityPerFunction => {
            assert("avg_complexity_per_function"@.len() != "total_functions"@.len());
            assert("avg_complexity_per_function"@.len() != "total_lines"@.len());
            assert("avg_complexity_per_function"@.len() != "total_function_lines"@.len());
            assert("avg_complexity_per_function"@.len() != "total_complexity"@.len());
        },
        FileMetric::MaxComplexity => {
            assert("max_complexity"@.len() != "total_functions"@.len());
            assert("max_complexity"@.len() != "total_lines"@.len());
            assert("max_complexity"@.len() != "total_function_lines"@.len());
            assert("max_complexity"@.len() != "total_complexity"@.len());
            assert("max_complexity"@.len() != "avg_complexity_per_function"@.len());
        },
        FileMetric::MaxNestingDepth => {
            assert("max_nesting_depth"@.len() != "total_functions"@.len());
            assert("max_nesting_depth"@.len() != "total_lines"@.len());
            assert("max_nesting_depth"@.len() != "total_function_lines"@.len());
            assert("max_nesting_depth"@.len() != "total_complexity"@.len());
            assert("max_nesting_depth"@.len() != "avg_complexity_per_function"@.len());
            assert("max_nesting_depth"@.len() != "max_complexity"@.len());
        },
        FileMetric::AvgNestingDepth => {
            assert("avg_nesting_depth"@.len() != "total_functions"@.len());
            assert("avg_nesting_depth"@.len() != "total_lines"@.len());
            assert("avg_nesting_depth"@.len() != "total_function_lines"@.len());
            assert("avg_nesting_depth"@.len() != "total_complexity"@.len());
            assert("avg_nesting_depth"@.len() != "avg_complexity_per_function"@.len());
            assert("avg_nesting_depth"@.len() != "max_complexity"@.len());
            assert("avg_nesting_depth"@[0] != "max_nesting_depth"@[0]);
        },
        FileMetric::MaxFunctionLines => {
            assert("max_function_lines"@.len() != "total_functions"@.len());
            assert("max_function_lines"@.len() != "total_lines"@.len());
            assert("max_function_lines"@.len() != "total_function_lines"@.len());
            assert("max_function_lines"@.len() != "total_complexity"@.len());
            assert("max_function_lines"@.len() != "avg_complexity_per_function"@.len());
            assert("max_function_lines"@.len() != "max_complexity"@.len());
            assert("max_function_lines"@.len() != "max_nesting_depth"@.len());
            assert("max_function_lines"@.len() != "avg_nesting_depth"@.len());
        },
        FileMetric::AvgHalsteadVolume => {
            assert("avg_halstead_volume"@.len() != "total_functions"@.len());
            assert("avg_halstead_volume"@.len() != "total_lines"@.len());
            assert("avg_halstead_volume"@.len() != "total_function_lines"@.len());
            assert("avg_halstead_volume"@.len() != "total_complexity"@.len());
            assert("avg_halstead_volume"@.len() != "avg_complexity_per_function"@.len());
            assert("avg_halstead_volume"@.len() != "max_complexity"@.len());
            assert("avg_halstead_volume"@.len() != "max_nesting_depth"@.len());
            assert("avg_halstead_volume"@.len() != "avg_nesting_depth"@.len());
            assert("avg_halstead_volume"@.len() != "max_function_lines"@.len());
        },
        FileMetric::MaxHalsteadVolume => {
            assert("max_halstead_volume"@.len() != "total_functions"@.len());
            assert("max_halstead_volume"@.len() != "total_lines"@.len());
            assert("max_halstead_volume"@.len() != "total_function_lines"@.len());
            assert("max_halstead_volume"@.len() != "total_complexity"@.len());
            assert("max_halstead_volume"@.len() != "avg_complexity_per_function"@.len());
            assert("max_halstead_volume"@.len() != "max_complexity"@.len());
            assert("max_halstead_volume"@.len() != "max_nesting_depth"@.len());
            assert("max_halstead_volume"@.len() != "avg_nesting_depth"@.len());
            assert("max_halstead_volume"@.len() != "max_function_lines"@.len());
            assert("max_halstead_volume"@[0] != "avg_halstead_volume"@[0]);
        },
        FileMetric::AvgHalsteadDifficulty => {
            assert("avg_halstead_difficulty"@.len() != "total_functions"@.len());
            assert("avg_halstead_difficulty"@.len() != "total_lines"@.len());
            assert("avg_halstead_difficulty"@.len() != "total_function_lines"@.len());
            assert("avg_halstead_difficulty"@.len() != "total_complexity"@.len());
            assert("avg_halstead_difficulty"@.len() != "avg_complexity_per_function"@.len());
            assert("avg_halstead_difficulty"@.len() != "max_complexity"@.len());
            assert("avg_halstead_difficulty"@.len() != "max_nesting_depth"@.len());
            assert("avg_halstead_difficulty"@.len() != "avg_nesting_depth"@.len());
            assert("avg_halstead_difficulty"@.len() != "max_function_lines"@.len());
            assert("avg_halstead_difficulty"@.len() != "avg_halstead_volume"@.len());
            assert("avg_halstead_difficulty"@.len() != "max_halstead_volume"@.len());
        },
        FileMetric::MaxHalsteadDifficulty => {
            assert("max_halstead_difficulty"@.len() != "total_functions"@.len());
            assert("max_halstead_difficulty"@.len() != "total_lines"@.len());
            assert("max_halstead_difficulty"@.len() != "total_function_lines"@.len());
            assert("max_halstead_difficulty"@.len() != "total_complexity"@.len());
            assert("max_halstead_difficulty"@.len() != "avg_complexity_per_function"@.len());
            assert("max_halstead_difficulty"@.len() != "max_complexity"@.len());
            assert("max_halstead_difficulty"@.len() != "max_nesting_depth"@.len());
            assert("max_halstead_difficulty"@.len() != "avg_nesting_depth"@.len());
            assert("max_halstead_difficulty"@.len() != "max_function_lines"@.len());
            assert("max_halstead_difficulty"@.len() != "avg_halstead_volume"@.len());
            assert("max_halstead_difficulty"@.len() != "max_halstead_volume"@.len());
            assert("max_halstead_difficulty"@[0] != "avg_halstead_difficulty"@[0]);
        },
        FileMetric::AvgHalsteadEffort => {
            assert("avg_halstead_effort"@.len() != "total_functions"@.len());
            assert("avg_halstead_effort"@.len() != "total_lines"@.len());
            assert("avg_halstead_effort"@.len() != "total_function_lines"@.len());
            assert("avg_halstead_effort"@.len() != "total_complexity"@.len());
            assert("avg_halstead_effort"@.len() != "avg_complexity_per_function"@.len());
            assert("avg_halstead_effort"@.len() != "max_complexity"@.len());
            assert("avg_halstead_effort"@.len() != "max_nesting_depth"@.len());
            assert("avg_halstead_effort"@.len() != "avg_nesting_depth"@.len());
            assert("avg_halstead_effort"@.len() != "max_function_lines"@.len());
            assert("avg_halstead_effort"@[13] != "avg_halstead_volume"@[13]);
            assert("avg_halstead_effort"@[0] != "max_halstead_volume"@[0]);
            assert("avg_halstead_effort"@.len() != "avg_halstead_difficulty"@.len());
            assert("avg_halstead_effort"@.len() != "max_halstead_difficulty"@.len());
        },
        FileMetric::MaxHalsteadEffort => {
            assert("max_halstead_effort"@.len() != "total_functions"@.len());
            assert("max_halstead_effort"@.len() != "total_lines"@.len());
            assert("max_halstead_effort"@.len() != "total_function_lines"@.len());
            assert("max_halstead_effort"@.len() != "total_complexity"@.len());
            assert("max_halstead_effort"@.len() != "avg_complexity_per_function"@.len());
            assert("max_halstead_effort"@.len() != "max_complexity"@.len());
            assert("max_halstead_effort"@.len() != "max_nesting_depth"@.len());
            assert("max_halstead_effort"@.len() != "avg_nesting_depth"@.len());
            assert("max_halstead_effort"@.len() != "max_function_lines"@.len());
            assert("max_halstead_effort"@[0] != "avg_halstead_volume"@[0]);
            assert("max_halstead_effort"@[13] != "max_halstead_volume"@[13]);
            assert("max_halstead_effort"@.len() != "avg_halstead_difficulty"@.len());
            assert("max_halstead_effort"@.len() != "max_halstead_difficulty"@.len());
            assert("max_halstead_effort"@[0] != "avg_halstead_effort"@[0]);
        },
        FileMetric::AvgHalsteadTime => {
            assert("avg_halstead_time"@.len() != "total_functions"@.len());
            assert("avg_halstead_time"@.len() != "total_lines"@.len());
            assert("avg_halstead_time"@.len() != "total_function_lines"@.len());
            assert("avg_halstead_time"@.len() != "total_complexity"@.len());
            assert("avg_halstead_time"@.len() != "avg_complexity_per_function"@.len());
            assert("avg_halstead_time"@.len() != "max_complexity"@.len());
            assert("avg_halstead_time"@[0] != "max_nesting_depth"@[0]);
            assert("avg_halstead_time"@[4] != "avg_nesting_depth"@[4]);
            assert("avg_halstead_time"@.len() != "max_function_lines"@.len());
            assert("avg_halstead_time"@.len() != "avg_halstead_volume"@.len());
            assert("avg_halstead_time"@.len() != "max_halstead_volume"@.len());
            assert("avg_halstead_time"@.len() != "avg_halstead_difficulty"@.len());
            assert("avg_halstead_time"@.len() != "max_halstead_difficulty"@.len());
            assert("avg_halstead_time"@.len() != "avg_halstead_effort"@.len());
            assert("avg_halstead_time"@.len() != "max_halstead_effort"@.len());
        },
        FileMetric::MaxHalsteadTime => {
            assert("max_halstead_time"@.len() != "total_functions"@.len());
            assert("max_halstead_time"@.len() != "total_lines"@.len());
            assert("max_halstead_time"@.len() != "total_function_lines"@.len());
            assert("max_halstead_time"@.len() != "total_complexity"@.len());
            assert("max_halstead_time"@.len() != "avg_complexity_per_function"@.len());
            assert("max_halstead_time"@.len() != "max_complexity"@.len());
            assert("max_halstead_time"@[4] != "max_nesting_depth"@[4]);
            assert("max_halstead_time"@[0] != "avg_nesting_depth"@[0]);
            assert("max_halstead_time"@.len() != "max_function_lines"@.len());
            assert("max_halstead_time"@.len() != "avg_halstead_volume"@.len());
            assert("max_halstead_time"@.len() != "max_halstead_volume"@.len());
            assert("max_halstead_time"@.len() != "avg_halstead_difficulty"@.len());
            assert("max_halstead_time"@.len() != "max_halstead_difficulty"@.len());
            assert("max_halstead_time"@.len() != "avg_halstead_effort"@.len());
            assert("max_halstead_time"@.len() != "max_halstead_effort"@.len());
            assert("max_halstead_time"@[0] != "avg_halstead_time"@[0]);
        },
    }
}

} // verus!
