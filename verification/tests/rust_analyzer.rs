use polygraph::language::rust::RustAnalyzer;
use polygraph::language::LanguageAnalyzer;

    #[test]
    fn rust_test_simple_function() {
        let source = "fn foo() { if true {} }";
        let analyzer = RustAnalyzer;
        let result = analyzer.analyze(source, false).unwrap();
        assert_eq!(result.len(), 1);
        assert_eq!(result[0].name, "foo");
        assert_eq!(result[0].complexity, 2);
    }

    #[test]
    fn test_if_else_if() {
        let source = r#"
fn bar() {
    if x {}
    else if y {}
    else {}
}
"#;
        let analyzer = RustAnalyzer;
        let result = analyzer.analyze(source, false).unwrap();
        assert_eq!(result[0].complexity, 3); // base 1 + if 1 + else-if 1
    }

    #[test]
    fn rust_test_match() {
        let source = r#"
fn baz() {
    match x {
        1 => {}
        2 => {}
        _ => {}
    }
}
"#;
        let analyzer = RustAnalyzer;
        let result = analyzer.analyze(source, false).unwrap();
        assert_eq!(result[0].complexity, 4); // base 1 + 3 arms
    }

    #[test]
    fn rust_test_closure_included() {
        let source = "fn outer() { let f = |x| if x > 0 { 1 } else { 0 }; }";
        let analyzer = RustAnalyzer;
        let result = analyzer.analyze(source, true).unwrap();
        assert_eq!(result.len(), 2);
        let closure = result
            .iter()
            .find(|f| f.name.starts_with("<closure>"))
            .unwrap();
        assert_eq!(closure.complexity, 2);
    }

    #[test]
    fn rust_test_closure_excluded_by_default() {
        let source = "fn outer() { let f = |x| if x > 0 { 1 } else { 0 }; }";
        let analyzer = RustAnalyzer;
        let result = analyzer.analyze(source, false).unwrap();
        assert_eq!(result.len(), 1);
        assert!(!result[0].name.starts_with("<closure>"));
    }

    #[test]
    fn rust_test_boolean_ops() {
        let source = "fn b() { a && b || c; }";
        let analyzer = RustAnalyzer;
        let result = analyzer.analyze(source, false).unwrap();
        assert_eq!(result[0].complexity, 3); // base 1 + && 1 + || 1
    }

    #[test]
    fn rust_test_clone_tokens_not_computed_without_flag() {
        let source = "fn foo() { bar(1); }";
        let analyzer = RustAnalyzer;
        let result = analyzer.analyze(source, false).unwrap();
        assert!(result[0].clone_tokens.is_empty());
    }

    #[test]
    fn rust_test_clone_tokens_preserve_call_target() {
        let source = "fn foo(a: i32) { bar(a); }";
        let analyzer = RustAnalyzer;
        let result = analyzer.analyze_full(source, false, true).unwrap();
        let tokens = &result[0].clone_tokens;
        assert!(
            tokens.contains(&"bar".to_string()),
            "expected call target 'bar' preserved verbatim in {:?}",
            tokens
        );
    }

    #[test]
    fn rust_test_clone_tokens_preserve_method_call_target() {
        let source = "fn foo(obj: Thing) { obj.method(1); }";
        let analyzer = RustAnalyzer;
        let result = analyzer.analyze_full(source, false, true).unwrap();
        let tokens = &result[0].clone_tokens;
        assert!(
            tokens.contains(&"method".to_string()),
            "expected method call target 'method' preserved verbatim in {:?}",
            tokens
        );
    }

    #[test]
    fn rust_test_clone_tokens_normalize_local_identifiers_and_literals() {
        let source = "fn foo() { let x = 5; bar(x); }";
        let analyzer = RustAnalyzer;
        let result = analyzer.analyze_full(source, false, true).unwrap();
        let tokens = &result[0].clone_tokens;
        assert!(
            !tokens.contains(&"x".to_string()),
            "local identifier 'x' must be normalized, got {:?}",
            tokens
        );
        assert!(tokens.contains(&"<ID>".to_string()));
        assert!(tokens.contains(&"<LIT>".to_string()));
    }

    #[test]
    fn test_clone_tokens_preserve_path_qualified_call_target() {
        let source = r#"fn foo() { String::from("x"); }"#;
        let analyzer = RustAnalyzer;
        let result = analyzer.analyze_full(source, false, true).unwrap();
        let tokens = &result[0].clone_tokens;
        assert!(
            tokens.contains(&"from".to_string()),
            "expected path-qualified call target 'from' preserved verbatim in {:?}",
            tokens
        );
        assert!(
            !tokens.contains(&"String".to_string()),
            "the path segment 'String' is not itself the call target and should be normalized in {:?}",
            tokens
        );
    }

    #[test]
    fn test_clone_tokens_preserve_turbofish_method_call_target() {
        let source = "fn foo(v: Vec<i32>) { v.iter().collect::<Vec<i32>>(); }";
        let analyzer = RustAnalyzer;
        let result = analyzer.analyze_full(source, false, true).unwrap();
        let tokens = &result[0].clone_tokens;
        assert!(
            tokens.contains(&"iter".to_string()),
            "expected 'iter' preserved verbatim in {:?}",
            tokens
        );
        assert!(
            tokens.contains(&"collect".to_string()),
            "expected turbofish method call target 'collect' preserved verbatim in {:?}",
            tokens
        );
    }

    #[test]
    fn rust_test_clone_tokens_two_renamed_functions_produce_equal_sequences() {
        let a = "fn foo() { let x = 5; bar(x); }";
        let b = "fn renamed() { let y = 5; bar(y); }";
        let analyzer = RustAnalyzer;
        let ra = analyzer.analyze_full(a, false, true).unwrap();
        let rb = analyzer.analyze_full(b, false, true).unwrap();
        assert_eq!(ra[0].clone_tokens, rb[0].clone_tokens);
    }
