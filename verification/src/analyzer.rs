//! Analyzing one file: choosing the analyzer by the file's extension and
//! summarizing what it finds. Reading files and walking directories is left
//! to the caller.

use vstd::prelude::*;
use crate::complexity::listed;
use crate::language::c::CAnalyzer;
use crate::language::go::GoAnalyzer;
use crate::language::java::JavaAnalyzer;
use crate::language::javascript::JavaScriptAnalyzer;
use crate::language::python::PythonAnalyzer;
use crate::language::rust::RustAnalyzer;
use crate::language::typescript::TypeScriptAnalyzer;
use crate::language::{extension_of, source_analysis, LanguageAnalyzer};
use crate::text::utf8_bytes;
use crate::{
    complexity_max, complexity_sum, lines_max, lines_sum, nesting_max, path_buf_content, path_content, FileResult,
    FunctionComplexity,
};

verus! {

/// Number of newline bytes in `b`.
pub open spec fn newline_count(b: Seq<u8>) -> nat
    decreases b.len(),
{
    if b.len() == 0 {
        0
    } else {
        newline_count(b.drop_last()) + if b.last() == 10u8 { 1nat } else { 0nat }
    }
}

/// Number of lines of a text with UTF-8 bytes `b`, as `str::lines` counts
/// them: one per line ending (`\n`, or `\r\n`), plus one for a last line
/// without an ending.
pub open spec fn line_count(b: Seq<u8>) -> nat {
    newline_count(b) + if b.len() > 0 && b.last() != 10u8 { 1nat } else { 0nat }
}

proof fn lemma_newlines_bounded(b: Seq<u8>)
    ensures
        newline_count(b) <= b.len(),
    decreases b.len(),
{
    if b.len() > 0 {
        lemma_newlines_bounded(b.drop_last());
    }
}

/// The number of lines of `source` (see `line_count`).
pub fn count_lines(source: &str) -> (r: usize)
    ensures
        r == line_count(utf8_bytes(source@)),
{
    let bytes = source.as_bytes();
    let mut count: usize = 0;
    let mut i: usize = 0;
    while i < bytes.len()
        invariant
            i <= bytes@.len(),
            count == newline_count(bytes@.take(i as int)),
            count <= i,
        decreases bytes@.len() - i,
    {
        assert(bytes@.take(i + 1).drop_last() =~= bytes@.take(i as int));
        if bytes[i] == 10u8 {
            count = count + 1;
        }
        i += 1;
    }
    assert(bytes@.take(bytes@.len() as int) =~= bytes@);
    if bytes.len() > 0 && bytes[bytes.len() - 1] != 10u8 {
        proof {
            lemma_newlines_bounded(bytes@.drop_last());
        }
        count = count + 1;
    }
    count
}

/// The result of a file that could not be analyzed.
pub fn build_error_result(path: &std::path::Path, total_lines: usize, error: String) -> (r: FileResult)
    ensures
        path_buf_content(&r.path) == path_content(path),
        r.total_lines == total_lines,
        r.error == Some(error),
        r.functions@.len() == 0,
        r.function_count == 0,
        r.language@ == ""@,
        r.total_complexity == 0,
        r.total_function_lines == 0,
        r.max_complexity == 0,
        r.max_function_lines == 0,
        r.max_nesting_depth == 0,
{
    let mut r = build_empty_result(path, total_lines);
    r.error = Some(error);
    r
}

/// The result of a file that no analyzer handles.
pub fn build_empty_result(path: &std::path::Path, total_lines: usize) -> (r: FileResult)
    ensures
        path_buf_content(&r.path) == path_content(path),
        r.total_lines == total_lines,
        r.error is None,
        r.functions@.len() == 0,
        r.function_count == 0,
        r.language@ == ""@,
        r.total_complexity == 0,
        r.total_function_lines == 0,
        r.max_complexity == 0,
        r.max_function_lines == 0,
        r.max_nesting_depth == 0,
{
    let r = FileResult::from_functions(path, total_lines, Vec::new(), "");
    r
}

/// Whether the sums over `functions` fit the types of a file's totals.
fn sums_fit(functions: &Vec<FunctionComplexity>) -> (r: bool)
    ensures
        r == (complexity_sum(functions@) <= u32::MAX && lines_sum(functions@) <= usize::MAX),
{
    let mut complexity: u64 = 0;
    let mut lines: usize = 0;
    let mut i: usize = 0;
    while i < functions.len()
        invariant
            i <= functions@.len(),
            complexity == complexity_sum(functions@.take(i as int)),
            complexity <= u32::MAX,
            lines == lines_sum(functions@.take(i as int)),
        decreases functions@.len() - i,
    {
        proof {
            assert(functions@.take(i + 1).drop_last() =~= functions@.take(i as int));
            crate::lemma_sums_prefix(functions@, i + 1);
        }
        complexity = complexity + functions[i].complexity as u64;
        if complexity > u32::MAX as u64 {
            return false;
        }
        if lines > usize::MAX - functions[i].lines {
            return false;
        }
        lines = lines + functions[i].lines;
        i += 1;
    }
    assert(functions@.take(functions@.len() as int) =~= functions@);
    true
}

/// The file result that an analyzer's outcome `outcome` gives: its
/// functions and their totals, or the error, or the error that the totals
/// overflow.
pub open spec fn file_from_outcome(
    outcome: Result<Vec<FunctionComplexity>, String>,
    total_lines: usize,
    language: Seq<char>,
    r: FileResult,
) -> bool {
    &&& r.total_lines == total_lines
    &&& match outcome {
        Ok(fs) => if complexity_sum(fs@) <= u32::MAX && lines_sum(fs@) <= usize::MAX {
            &&& r.error is None
            &&& r.language@ == language
            &&& r.functions@ == fs@
            &&& r.function_count == fs@.len()
            &&& r.total_complexity == complexity_sum(fs@)
            &&& r.total_function_lines == lines_sum(fs@)
            &&& r.max_complexity == complexity_max(fs@)
            &&& r.max_function_lines == lines_max(fs@)
            &&& r.max_nesting_depth == nesting_max(fs@)
        } else {
            r.error matches Some(m) && m@ == overflow_text() && r.functions@.len() == 0
        },
        Err(e) => r.error == Some(e) && r.functions@.len() == 0,
    }
}

/// The error of a file whose function totals do not fit their types.
pub open spec fn overflow_text() -> Seq<char> {
    "function totals exceed their integer types"@
}

/// `r` is the result of no analyzer: `total_lines` lines, no error, no functions.
pub open spec fn unhandled_file(total_lines: usize, r: FileResult) -> bool {
    r.total_lines == total_lines && r.error is None && r.functions@.len() == 0
}

/// `r` is the result of analyzer `a` on `src`, for some outcome that the
/// analysis of `src` may give (see `source_analysis`).
pub open spec fn analyzed_by<A: LanguageAnalyzer>(
    a: A,
    src: Seq<char>,
    total_lines: usize,
    include_closures: bool,
    compute_tokens: bool,
    r: FileResult,
) -> bool {
    exists|outcome: Result<Vec<FunctionComplexity>, String>|
        source_analysis(a.grammar_spec(), src, a.config_spec(), a.name_spec(), include_closures, compute_tokens, outcome)
            && file_from_outcome(outcome, total_lines, a.name_spec(), r)
}

/// The result of a file with extension `ext` and text `src`: the analyzer
/// whose extensions hold `ext` analyzes it; without one, the file has no
/// functions. Either way its line count is `line_count` of the text.
pub open spec fn file_analysis(
    ext: Option<Seq<char>>,
    src: Seq<char>,
    include_closures: bool,
    compute_tokens: bool,
    r: FileResult,
) -> bool {
    let lines = line_count(utf8_bytes(src)) as usize;
    match ext {
        Some(e) => if listed(RustAnalyzer.extensions_spec(), e) {
            analyzed_by(RustAnalyzer, src, lines, include_closures, compute_tokens, r)
        } else if listed(PythonAnalyzer.extensions_spec(), e) {
            analyzed_by(PythonAnalyzer, src, lines, include_closures, compute_tokens, r)
        } else if listed(JavaScriptAnalyzer.extensions_spec(), e) {
            analyzed_by(JavaScriptAnalyzer, src, lines, include_closures, compute_tokens, r)
        } else if listed(TypeScriptAnalyzer.extensions_spec(), e) {
            analyzed_by(TypeScriptAnalyzer, src, lines, include_closures, compute_tokens, r)
        } else if listed(CAnalyzer.extensions_spec(), e) {
            analyzed_by(CAnalyzer, src, lines, include_closures, compute_tokens, r)
        } else if listed(GoAnalyzer.extensions_spec(), e) {
            analyzed_by(GoAnalyzer, src, lines, include_closures, compute_tokens, r)
        } else if listed(JavaAnalyzer.extensions_spec(), e) {
            analyzed_by(JavaAnalyzer, src, lines, include_closures, compute_tokens, r)
        } else {
            unhandled_file(lines, r)
        },
        None => unhandled_file(lines, r),
    }
}

/// The file result for an analyzer's outcome (see `file_from_outcome`).
fn finish(
    outcome: Result<Vec<FunctionComplexity>, String>,
    path: &std::path::Path,
    total_lines: usize,
    language: &'static str,
) -> (r: FileResult)
    ensures
        file_from_outcome(outcome, total_lines, language@, r),
        path_buf_content(&r.path) == path_content(path),
{
    match outcome {
        Ok(functions) => {
            if sums_fit(&functions) {
                FileResult::from_functions(path, total_lines, functions, language)
            } else {
                proof {
                    reveal_strlit("function totals exceed their integer types");
                }
                build_error_result(path, total_lines, "function totals exceed their integer types".to_owned())
            }
        },
        Err(e) => build_error_result(path, total_lines, e),
    }
}

fn analyze_as<A: LanguageAnalyzer>(
    analyzer: &A,
    path: &std::path::Path,
    source: &str,
    total_lines: usize,
    include_closures: bool,
    compute_clone_signature: bool,
) -> (r: FileResult)
    ensures
        analyzed_by(*analyzer, source@, total_lines, include_closures, compute_clone_signature, r),
        path_buf_content(&r.path) == path_content(path),
{
    let outcome = analyzer.analyze_full(source, include_closures, compute_clone_signature);
    let ghost o = outcome;
    let r = finish(outcome, path, total_lines, analyzer.language_name());
    assert(source_analysis(
        analyzer.grammar_spec(),
        source@,
        analyzer.config_spec(),
        analyzer.name_spec(),
        include_closures,
        compute_clone_signature,
        o,
    ) && file_from_outcome(o, total_lines, analyzer.name_spec(), r));
    r
}

/// Analyzes the text of a file with extension `ext` (see `file_analysis`).
pub fn analyze_with_extension(
    path: &std::path::Path,
    ext: Option<&str>,
    source: &str,
    include_closures: bool,
    compute_clone_signature: bool,
) -> (r: FileResult)
    ensures
        path_buf_content(&r.path) == path_content(path),
        file_analysis(
            match ext {
                Some(e) => Some(e@),
                None => None,
            },
            source@,
            include_closures,
            compute_clone_signature,
            r,
        ),
{
    let total_lines = count_lines(source);
    match ext {
        Some(e) => {
            if RustAnalyzer.handles_extension(e) {
                analyze_as(&RustAnalyzer, path, source, total_lines, include_closures, compute_clone_signature)
            } else if PythonAnalyzer.handles_extension(e) {
                analyze_as(&PythonAnalyzer, path, source, total_lines, include_closures, compute_clone_signature)
            } else if JavaScriptAnalyzer.handles_extension(e) {
                analyze_as(&JavaScriptAnalyzer, path, source, total_lines, include_closures, compute_clone_signature)
            } else if TypeScriptAnalyzer.handles_extension(e) {
                analyze_as(&TypeScriptAnalyzer, path, source, total_lines, include_closures, compute_clone_signature)
            } else if CAnalyzer.handles_extension(e) {
                analyze_as(&CAnalyzer, path, source, total_lines, include_closures, compute_clone_signature)
            } else if GoAnalyzer.handles_extension(e) {
                analyze_as(&GoAnalyzer, path, source, total_lines, include_closures, compute_clone_signature)
            } else if JavaAnalyzer.handles_extension(e) {
                analyze_as(&JavaAnalyzer, path, source, total_lines, include_closures, compute_clone_signature)
            } else {
                build_empty_result(path, total_lines)
            }
        },
        None => build_empty_result(path, total_lines),
    }
}

/// Analyzes the text `source` of the file at `path`, choosing the analyzer
/// by the path's extension (see `analyze_with_extension` and `extension_of`).
pub fn analyze_file_source(
    path: &std::path::Path,
    source: &str,
    include_closures: bool,
    compute_clone_signature: bool,
) -> (r: FileResult)
    ensures
        path_buf_content(&r.path) == path_content(path),
        file_analysis(extension_of(path), source@, include_closures, compute_clone_signature, r),
{
    match crate::language::path_extension(path) {
        Some(ext) => analyze_with_extension(path, Some(ext.as_str()), source, include_closures, compute_clone_signature),
        None => analyze_with_extension(path, None, source, include_closures, compute_clone_signature),
    }
}

} // verus!
