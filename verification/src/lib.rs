//! Cyclomatic complexity, nesting depth and Halstead counts for functions
//! of Rust, Python, JavaScript, TypeScript, C, Go and Java sources.

use vstd::prelude::*;

pub mod analyzer;
pub mod clones;
pub mod cognitive;
pub mod complexity;
pub mod duplicates;
pub mod language;
pub mod output;
pub mod syntax;
pub mod text;
pub mod tree;

use crate::cognitive::{texts, HalsteadCounts};

verus! {

/// The measures of one function.
pub struct FunctionComplexity {
    pub name: String,
    /// One-based line on which the function starts.
    pub line_start: usize,
    /// One-based line on which the function ends.
    pub line_end: usize,
    /// Number of lines the function spans.
    pub lines: usize,
    /// Cyclomatic complexity: 1 plus the decision points.
    pub complexity: u32,
    /// Deepest nesting of decision points.
    pub nesting_depth: u32,
    /// Operator and operand counts, from which the Halstead measures follow.
    pub halstead: HalsteadCounts,
    /// The normalized token sequence of the body, for clone detection (empty
    /// unless requested and supported by the language).
    pub clone_tokens: Vec<String>,
}

/// A `FunctionComplexity` with its strings seen as character sequences.
pub struct FunctionView {
    pub name: Seq<char>,
    pub line_start: usize,
    pub line_end: usize,
    pub lines: usize,
    pub complexity: u32,
    pub nesting_depth: u32,
    pub halstead: HalsteadCounts,
    pub clone_tokens: Seq<Seq<char>>,
}

impl View for FunctionComplexity {
    type V = FunctionView;

    open spec fn view(&self) -> FunctionView {
        FunctionView {
            name: self.name@,
            line_start: self.line_start,
            line_end: self.line_end,
            lines: self.lines,
            complexity: self.complexity,
            nesting_depth: self.nesting_depth,
            halstead: self.halstead,
            clone_tokens: texts(self.clone_tokens@),
        }
    }
}

#[verifier::external_type_specification]
#[verifier::external_body]
pub struct ExPathBuf(std::path::PathBuf);

/// What a path holds: the bytes of its `OsStr` (as `as_encoded_bytes` gives them).
pub uninterp spec fn path_content(path: &std::path::Path) -> Seq<u8>;

/// What an owned path holds: the bytes of its `OsStr`.
pub uninterp spec fn path_buf_content(path: &std::path::PathBuf) -> Seq<u8>;

/// An owned copy of `path` (`Path::to_path_buf`): it holds what `path` holds.
#[verifier::external_body]
fn owned_path(path: &std::path::Path) -> (r: std::path::PathBuf)
    ensures
        path_buf_content(&r) == path_content(path),
{
    path.to_path_buf()
}

/// Sum of the complexities of `fs`.
pub open spec fn complexity_sum(fs: Seq<FunctionComplexity>) -> nat
    decreases fs.len(),
{
    if fs.len() == 0 {
        0
    } else {
        complexity_sum(fs.drop_last()) + fs.last().complexity as nat
    }
}

/// Sum of the line counts of `fs`.
pub open spec fn lines_sum(fs: Seq<FunctionComplexity>) -> nat
    decreases fs.len(),
{
    if fs.len() == 0 {
        0
    } else {
        lines_sum(fs.drop_last()) + fs.last().lines as nat
    }
}

/// Largest complexity in `fs` (0 if empty).
pub open spec fn complexity_max(fs: Seq<FunctionComplexity>) -> u32
    decreases fs.len(),
{
    if fs.len() == 0 {
        0
    } else {
        let m = complexity_max(fs.drop_last());
        if fs.last().complexity > m { fs.last().complexity } else { m }
    }
}

/// Largest line count in `fs` (0 if empty).
pub open spec fn lines_max(fs: Seq<FunctionComplexity>) -> usize
    decreases fs.len(),
{
    if fs.len() == 0 {
        0
    } else {
        let m = lines_max(fs.drop_last());
        if fs.last().lines > m { fs.last().lines } else { m }
    }
}

/// Largest nesting depth in `fs` (0 if empty).
pub open spec fn nesting_max(fs: Seq<FunctionComplexity>) -> u32
    decreases fs.len(),
{
    if fs.len() == 0 {
        0
    } else {
        let m = nesting_max(fs.drop_last());
        if fs.last().nesting_depth > m { fs.last().nesting_depth } else { m }
    }
}

/// The measures of one file and its functions.
pub struct FileResult {
    pub path: std::path::PathBuf,
    /// The analyzer's language name (empty when no analyzer handled the file).
    pub language: &'static str,
    /// Sum of the functions' complexities.
    pub total_complexity: u32,
    /// Lines in the file.
    pub total_lines: usize,
    pub function_count: usize,
    pub functions: Vec<FunctionComplexity>,
    /// Why the file could not be analyzed, if it could not.
    pub error: Option<String>,
    pub max_nesting_depth: u32,
    pub max_complexity: u32,
    pub max_function_lines: usize,
    /// Sum of the functions' line counts.
    pub total_function_lines: usize,
}

impl FileResult {
    /// The result of a file with the given functions: their count, the sums
    /// of their complexities and line counts, and the largest complexity,
    /// line count and nesting depth among them (all 0 without functions).
    pub fn from_functions(
        path: &std::path::Path,
        total_lines: usize,
        functions: Vec<FunctionComplexity>,
        language: &'static str,
    ) -> (r: Self)
        requires
            complexity_sum(functions@) <= u32::MAX,
            lines_sum(functions@) <= usize::MAX,
        ensures
            path_buf_content(&r.path) == path_content(path),
            r.functions@ == functions@,
            r.language == language,
            r.total_lines == total_lines,
            r.function_count == functions@.len(),
            r.error is None,
            r.total_complexity == complexity_sum(functions@),
            r.total_function_lines == lines_sum(functions@),
            r.max_complexity == complexity_max(functions@),
            r.max_function_lines == lines_max(functions@),
            r.max_nesting_depth == nesting_max(functions@),
    {
        let mut total_complexity: u32 = 0;
        let mut total_function_lines: usize = 0;
        let mut max_complexity: u32 = 0;
        let mut max_function_lines: usize = 0;
        let mut max_nesting_depth: u32 = 0;
        let mut i: usize = 0;
        while i < functions.len()
            invariant
                i <= functions@.len(),
                complexity_sum(functions@) <= u32::MAX,
                lines_sum(functions@) <= usize::MAX,
                total_complexity == complexity_sum(functions@.take(i as int)),
                total_function_lines == lines_sum(functions@.take(i as int)),
                max_complexity == complexity_max(functions@.take(i as int)),
                max_function_lines == lines_max(functions@.take(i as int)),
                max_nesting_depth == nesting_max(functions@.take(i as int)),
            decreases functions@.len() - i,
        {
            let f = &functions[i];
            proof {
                assert(functions@.take(i + 1).drop_last() =~= functions@.take(i as int));
                lemma_sums_prefix(functions@, i + 1);
            }
            total_complexity = total_complexity + f.complexity;
            total_function_lines = total_function_lines + f.lines;
            if f.complexity > max_complexity {
                max_complexity = f.complexity;
            }
            if f.lines > max_function_lines {
                max_function_lines = f.lines;
            }
            if f.nesting_depth > max_nesting_depth {
                max_nesting_depth = f.nesting_depth;
            }
            i += 1;
        }
        assert(functions@.take(functions@.len() as int) =~= functions@);
        FileResult {
            path: owned_path(path),
            language,
            total_complexity,
            total_lines,
            function_count: functions.len(),
            functions,
            error: None,
            max_nesting_depth,
            max_complexity,
            max_function_lines,
            total_function_lines,
        }
    }
}

/// The sums over a prefix are at most the sums over the whole.
pub(crate) proof fn lemma_sums_prefix(fs: Seq<FunctionComplexity>, k: int)
    requires
        0 <= k <= fs.len(),
    ensures
        complexity_sum(fs.take(k)) <= complexity_sum(fs),
        lines_sum(fs.take(k)) <= lines_sum(fs),
    decreases fs.len() - k,
{
    if k < fs.len() {
        lemma_sums_prefix(fs, k + 1);
        assert(fs.take(k + 1).drop_last() =~= fs.take(k));
    } else {
        assert(fs.take(k) =~= fs);
    }
}

/// A file that counts toward the project summary: analyzed without error,
/// with at least one function.
pub open spec fn is_successful(f: FileResult) -> bool {
    f.error is None && f.functions@.len() > 0
}

/// Number of successful files in `rs`.
pub open spec fn successful_count(rs: Seq<FileResult>) -> nat
    decreases rs.len(),
{
    if rs.len() == 0 {
        0
    } else {
        successful_count(rs.drop_last()) + if is_successful(rs.last()) { 1nat } else { 0nat }
    }
}

/// Sum of the function counts of the successful files in `rs`.
pub open spec fn functions_total(rs: Seq<FileResult>) -> nat
    decreases rs.len(),
{
    if rs.len() == 0 {
        0
    } else {
        functions_total(rs.drop_last()) + if is_successful(rs.last()) { rs.last().function_count as nat } else { 0nat }
    }
}

/// Sum of the line counts of the successful files in `rs`.
pub open spec fn lines_total(rs: Seq<FileResult>) -> nat
    decreases rs.len(),
{
    if rs.len() == 0 {
        0
    } else {
        lines_total(rs.drop_last()) + if is_successful(rs.last()) { rs.last().total_lines as nat } else { 0nat }
    }
}

/// Sum of the total complexities of the successful files in `rs`.
pub open spec fn complexity_total(rs: Seq<FileResult>) -> nat
    decreases rs.len(),
{
    if rs.len() == 0 {
        0
    } else {
        complexity_total(rs.drop_last()) + if is_successful(rs.last()) { rs.last().total_complexity as nat } else { 0nat }
    }
}

/// Largest maximum nesting depth of the successful files in `rs` (0 if none).
pub open spec fn nesting_peak(rs: Seq<FileResult>) -> u32
    decreases rs.len(),
{
    if rs.len() == 0 {
        0
    } else {
        let m = nesting_peak(rs.drop_last());
        if is_successful(rs.last()) && rs.last().max_nesting_depth > m { rs.last().max_nesting_depth } else { m }
    }
}

/// The whole-project figures over the successfully analyzed files.
pub struct SummaryStatistics {
    pub files_analyzed: usize,
    pub total_functions: usize,
    pub total_lines: usize,
    pub total_complexity: u32,
    pub max_nesting_depth: u32,
}

impl SummaryStatistics {
    /// The summary of `results`: how many files were analyzed successfully
    /// (no error, at least one function), and over those files the sums of
    /// function counts, lines and complexity, and the largest nesting depth.
    pub fn from_results(results: &[FileResult]) -> (r: Self)
        requires
            functions_total(results@) <= usize::MAX,
            lines_total(results@) <= usize::MAX,
            complexity_total(results@) <= u32::MAX,
        ensures
            r.files_analyzed == successful_count(results@),
            r.total_functions == functions_total(results@),
            r.total_lines == lines_total(results@),
            r.total_complexity == complexity_total(results@),
            r.max_nesting_depth == nesting_peak(results@),
    {
        let mut files_analyzed: usize = 0;
        let mut total_functions: usize = 0;
        let mut total_lines: usize = 0;
        let mut total_complexity: u32 = 0;
        let mut max_nesting_depth: u32 = 0;
        let mut i: usize = 0;
        while i < results.len()
            invariant
                i <= results@.len(),
                functions_total(results@) <= usize::MAX,
                lines_total(results@) <= usize::MAX,
                complexity_total(results@) <= u32::MAX,
                files_analyzed == successful_count(results@.take(i as int)),
                successful_count(results@.take(i as int)) <= i,
                total_functions == functions_total(results@.take(i as int)),
                total_lines == lines_total(results@.take(i as int)),
                total_complexity == complexity_total(results@.take(i as int)),
                max_nesting_depth == nesting_peak(results@.take(i as int)),
            decreases results@.len() - i,
        {
            let f = &results[i];
            proof {
                assert(results@.take(i + 1).drop_last() =~= results@.take(i as int));
                lemma_totals_prefix(results@, i + 1);
            }
            if f.error.is_none() && f.functions.len() > 0 {
                files_analyzed = files_analyzed + 1;
                total_functions = total_functions + f.function_count;
                total_lines = total_lines + f.total_lines;
                total_complexity = total_complexity + f.total_complexity;
                if f.max_nesting_depth > max_nesting_depth {
                    max_nesting_depth = f.max_nesting_depth;
                }
            }
            i += 1;
        }
        assert(results@.take(results@.len() as int) =~= results@);
        SummaryStatistics { files_analyzed, total_functions, total_lines, total_complexity, max_nesting_depth }
    }
}

/// The totals over a prefix are at most the totals over the whole.
proof fn lemma_totals_prefix(rs: Seq<FileResult>, k: int)
    requires
        0 <= k <= rs.len(),
    ensures
        functions_total(rs.take(k)) <= functions_total(rs),
        lines_total(rs.take(k)) <= lines_total(rs),
        complexity_total(rs.take(k)) <= complexity_total(rs),
    decreases rs.len() - k,
{
    if k < rs.len() {
        lemma_totals_prefix(rs, k + 1);
        assert(rs.take(k + 1).drop_last() =~= rs.take(k));
    } else {
        assert(rs.take(k) =~= rs);
    }
}

/// The views of a list of functions.
pub open spec fn function_views(v: Seq<FunctionComplexity>) -> Seq<FunctionView> {
    v.map_values(|f: FunctionComplexity| f@)
}

} // verus!
