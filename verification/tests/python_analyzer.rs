use polygraph::language::python::PythonAnalyzer;
use polygraph::language::LanguageAnalyzer;

    #[test]
    fn python_test_simple_function() {
        let source = "def foo():\n    if x:\n        pass\n";
        let analyzer = PythonAnalyzer;
        let result = analyzer.analyze(source, false).unwrap();
        assert_eq!(result.len(), 1);
        assert_eq!(result[0].name, "foo");
        assert_eq!(result[0].complexity, 2);
    }

    #[test]
    fn test_if_elif_else() {
        let source = "def bar():\n    if x:\n        pass\n    elif y:\n        pass\n    else:\n        pass\n";
        let analyzer = PythonAnalyzer;
        let result = analyzer.analyze(source, false).unwrap();
        assert_eq!(result[0].complexity, 3); // base 1 + if 1 + elif 1
    }

    #[test]
    fn python_test_match() {
        let source = "def baz():\n    match x:\n        case 1:\n            pass\n        case 2:\n            pass\n";
        let analyzer = PythonAnalyzer;
        let result = analyzer.analyze(source, false).unwrap();
        assert_eq!(result[0].complexity, 3); // base 1 + 2 cases
    }

    #[test]
    fn python_test_lambda_included() {
        let source = "f = lambda x: 1 if x > 0 else 0\n";
        let analyzer = PythonAnalyzer;
        let result = analyzer.analyze(source, true).unwrap();
        assert_eq!(result.len(), 1);
        assert!(result[0].name.starts_with("<lambda>"));
        assert_eq!(result[0].complexity, 2); // base 1 + ternary 1
    }

    #[test]
    fn python_test_lambda_excluded_by_default() {
        let source = "f = lambda x: 1 if x > 0 else 0\n";
        let analyzer = PythonAnalyzer;
        let result = analyzer.analyze(source, false).unwrap();
        assert_eq!(result.len(), 0);
    }

    #[test]
    fn test_try_except() {
        let source = "def err():\n    try:\n        pass\n    except A:\n        pass\n    except B:\n        pass\n";
        let analyzer = PythonAnalyzer;
        let result = analyzer.analyze(source, false).unwrap();
        assert_eq!(result[0].complexity, 3); // base 1 + except A 1 + except B 1
    }

    #[test]
    fn python_test_clone_tokens_not_computed_without_flag() {
        let source = "def foo():\n    bar(1)\n";
        let analyzer = PythonAnalyzer;
        let result = analyzer.analyze(source, false).unwrap();
        assert!(result[0].clone_tokens.is_empty());
    }

    #[test]
    fn python_test_clone_tokens_preserve_call_target() {
        let source = "def foo(a):\n    bar(a)\n";
        let analyzer = PythonAnalyzer;
        let result = analyzer.analyze_full(source, false, true).unwrap();
        let tokens = &result[0].clone_tokens;
        assert!(
            tokens.contains(&"bar".to_string()),
            "expected call target 'bar' preserved verbatim in {:?}",
            tokens
        );
    }

    #[test]
    fn python_test_clone_tokens_preserve_method_call_target() {
        let source = "def foo(obj):\n    obj.method(1)\n";
        let analyzer = PythonAnalyzer;
        let result = analyzer.analyze_full(source, false, true).unwrap();
        let tokens = &result[0].clone_tokens;
        assert!(
            tokens.contains(&"method".to_string()),
            "expected method call target 'method' preserved verbatim in {:?}",
            tokens
        );
    }

    #[test]
    fn python_test_clone_tokens_normalize_local_identifiers_and_literals() {
        let source = "def foo():\n    x = 5\n    bar(x)\n";
        let analyzer = PythonAnalyzer;
        let result = analyzer.analyze_full(source, false, true).unwrap();
        let tokens = &result[0].clone_tokens;
        assert!(
            !tokens.contains(&"x".to_string()),
            "local identifier 'x' must be normalized, got {:?}",
            tokens
        );
        assert!(tokens.contains(&"<ID>".to_string()));
        assert!(tokens.contains(&"<LIT>".to_string()));
    }

    #[test]
    fn python_test_clone_tokens_two_renamed_functions_produce_equal_sequences() {
        let a = "def foo():\n    x = 5\n    bar(x)\n";
        let b = "def renamed():\n    y = 5\n    bar(y)\n";
        let analyzer = PythonAnalyzer;
        let ra = analyzer.analyze_full(a, false, true).unwrap();
        let rb = analyzer.analyze_full(b, false, true).unwrap();
        assert_eq!(ra[0].clone_tokens, rb[0].clone_tokens);
    }
