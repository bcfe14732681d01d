use polygraph::language::python::PythonAnalyzer;
use polygraph::analyzer::analyze_file_source;
use polygraph::language::javascript::JavaScriptAnalyzer;
use polygraph::language::LanguageAnalyzer;
use std::path::Path;

#[test]
fn javascript_simple_function() {
    let result = JavaScriptAnalyzer.analyze("function foo() { if (x) {} }", false).unwrap();
    assert_eq!(result.len(), 1);
    assert_eq!(result[0].name, "foo");
    assert_eq!(result[0].complexity, 2);
}

#[test]
fn javascript_arrow_functions_follow_the_flag() {
    let source = "const f = (x) => x > 0 ? 1 : 0;";
    assert_eq!(JavaScriptAnalyzer.analyze(source, false).unwrap().len(), 0);
    let with = JavaScriptAnalyzer.analyze(source, true).unwrap();
    assert_eq!(with.len(), 1);
    assert!(with[0].name.starts_with("<closure>"));
    assert_eq!(with[0].complexity, 2);
}

#[test]
fn javascript_extensions() {
    assert!(JavaScriptAnalyzer.can_analyze(Path::new("a.js")));
    assert!(JavaScriptAnalyzer.can_analyze(Path::new("dir/a.jsx")));
    assert!(!JavaScriptAnalyzer.can_analyze(Path::new("a.ts")));
    assert_eq!(JavaScriptAnalyzer.language_name(), "JS");
}

#[test]
fn files_are_analyzed_by_extension() {
    let js = analyze_file_source(Path::new("x.js"), "function a() {}\nfunction b() { while (y) {} }\n", false, false);
    assert_eq!(js.language, "JS");
    assert_eq!(js.function_count, 2);
    assert_eq!(js.total_complexity, 3);
    assert_eq!(js.total_lines, 2);
    let rs = analyze_file_source(Path::new("x.rs"), "fn a() { if b { } }", false, false);
    assert_eq!(rs.language, "Rust");
    assert_eq!(rs.max_complexity, 2);
    let unknown = analyze_file_source(Path::new("notes.txt"), "hello\nworld", false, false);
    assert_eq!(unknown.language, "");
    assert_eq!(unknown.function_count, 0);
    assert!(unknown.error.is_none());
    assert_eq!(unknown.total_lines, 2);
    let broken = analyze_file_source(Path::new("x.py"), "def (:\n", false, false);
    assert_eq!(broken.error.as_deref(), Some("Failed to parse Python source"));
    assert_eq!(broken.total_lines, 1);
}

#[test]
fn clone_tokens_follow_the_flag() {
    let source = "function foo(a) { bar(a, 1); return a + 2; }";
    let without = JavaScriptAnalyzer.analyze_full(source, false, false).unwrap();
    assert!(without[0].clone_tokens.is_empty());
    let with = JavaScriptAnalyzer.analyze_full(source, false, true).unwrap();
    assert!(!with[0].clone_tokens.is_empty());
    assert_eq!(with[0].complexity, without[0].complexity);
    assert_eq!(with[0].halstead, without[0].halstead);
}

#[test]
fn analyzers_choose_files_by_extension() {
    assert!(PythonAnalyzer.can_analyze(Path::new("pkg/mod.py")));
    assert!(!PythonAnalyzer.can_analyze(Path::new("pkg/mod.pyc")));
    assert!(!PythonAnalyzer.can_analyze(Path::new("py")));
    assert!(!PythonAnalyzer.can_analyze(Path::new(".py")));
    let f = analyze_file_source(Path::new("dir.rs/file"), "fn a() {}", false, false);
    assert_eq!(f.language, "");
    assert_eq!(f.path, Path::new("dir.rs/file"));
}

#[test]
fn excluding_closures_drops_exactly_the_closures() {
    let source = "function a() { const f = () => 1; }\nconst g = function () { return 2; };\nfunction b() {}";
    let with = JavaScriptAnalyzer.analyze(source, true).unwrap();
    let without = JavaScriptAnalyzer.analyze(source, false).unwrap();
    let kept: Vec<&str> = with.iter().filter(|f| !f.name.starts_with("<closure>")).map(|f| f.name.as_str()).collect();
    let names: Vec<&str> = without.iter().map(|f| f.name.as_str()).collect();
    assert_eq!(names, vec!["a", "b"]);
    assert_eq!(kept, names);
    assert_eq!(with.len(), 4);
}
