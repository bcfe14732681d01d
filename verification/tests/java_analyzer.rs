use polygraph::language::java::JavaAnalyzer;
use polygraph::language::LanguageAnalyzer;

    #[test]
    fn test_simple_method() {
        let source = "void foo() { if (true) {} }";
        let analyzer = JavaAnalyzer;
        let result = analyzer.analyze(source, false).unwrap();
        assert_eq!(result.len(), 1);
        assert_eq!(result[0].name, "foo");
        assert_eq!(result[0].complexity, 2);
    }

    #[test]
    fn java_test_if_else() {
        let source = "void bar() { if (x) {} else {} }";
        let analyzer = JavaAnalyzer;
        let result = analyzer.analyze(source, false).unwrap();
        assert_eq!(result[0].complexity, 2);
    }

    #[test]
    fn java_test_for_loop() {
        let source = "void foo() { for (int i = 0; i < 10; i++) {} }";
        let analyzer = JavaAnalyzer;
        let result = analyzer.analyze(source, false).unwrap();
        assert_eq!(result[0].complexity, 2);
    }

    #[test]
    fn test_enhanced_for_loop() {
        let source = "void foo() { for (String s : list) {} }";
        let analyzer = JavaAnalyzer;
        let result = analyzer.analyze(source, false).unwrap();
        assert_eq!(result[0].complexity, 2);
    }

    #[test]
    fn test_while_and_do_while() {
        let source = "void foo() { while (true) {} do {} while (true); }";
        let analyzer = JavaAnalyzer;
        let result = analyzer.analyze(source, false).unwrap();
        assert_eq!(result[0].complexity, 3);
    }

    #[test]
    fn test_switch_with_cases() {
        let source = "void foo() { switch (x) { case 1: break; case 2: break; default: break; } }";
        let analyzer = JavaAnalyzer;
        let result = analyzer.analyze(source, false).unwrap();
        assert_eq!(result[0].complexity, 4);
    }

    #[test]
    fn java_test_try_catch() {
        let source = "void foo() { try {} catch (Exception e) {} }";
        let analyzer = JavaAnalyzer;
        let result = analyzer.analyze(source, false).unwrap();
        assert_eq!(result[0].complexity, 2);
    }

    #[test]
    fn java_test_lambda_included() {
        let source = "void foo() { Runnable r = () -> { if (true) {} }; }";
        let analyzer = JavaAnalyzer;
        let result = analyzer.analyze(source, true).unwrap();
        assert_eq!(result.len(), 2);
        let lambda = result.iter().find(|f| f.name.starts_with("<lambda>")).unwrap();
        assert_eq!(lambda.complexity, 2);
    }

    #[test]
    fn java_test_lambda_excluded_by_default() {
        let source = "void foo() { Runnable r = () -> { if (true) {} }; }";
        let analyzer = JavaAnalyzer;
        let result = analyzer.analyze(source, false).unwrap();
        assert_eq!(result.len(), 1);
        assert!(!result[0].name.starts_with("<lambda>"));
    }

    #[test]
    fn java_test_ternary() {
        let source = "int t() { return x > 0 ? 1 : 0; }";
        let analyzer = JavaAnalyzer;
        let result = analyzer.analyze(source, false).unwrap();
        assert_eq!(result[0].complexity, 2);
    }

    #[test]
    fn java_test_boolean_ops() {
        let source = "void b() { boolean r = a && b || c; }";
        let analyzer = JavaAnalyzer;
        let result = analyzer.analyze(source, false).unwrap();
        assert_eq!(result[0].complexity, 3);
    }

    #[test]
    fn test_constructor_name() {
        let source = "class Foo { Foo() { if (true) {} } }";
        let analyzer = JavaAnalyzer;
        let result = analyzer.analyze(source, false).unwrap();
        assert_eq!(result.len(), 1);
        assert_eq!(result[0].name, "Foo");
        assert_eq!(result[0].complexity, 2);
    }

    #[test]
    fn test_compact_constructor() {
        let source = "record Point(int x, int y) { Point { if (x < 0) {} } }";
        let analyzer = JavaAnalyzer;
        let result = analyzer.analyze(source, false).unwrap();
        assert_eq!(result.len(), 1);
        // Compact constructor name is extracted from the AST
        // The name should be "Point" if the identifier is found
        assert_eq!(result[0].complexity, 2);
    }

    #[test]
    fn java_test_parse_error() {
        let source = "void foo() {";
        let analyzer = JavaAnalyzer;
        assert!(analyzer.analyze(source, false).is_err());
    }

    #[test]
    fn test_can_analyze_java_extension() {
        let analyzer = JavaAnalyzer;
        assert!(analyzer.can_analyze(std::path::Path::new("Foo.java")));
        assert!(!analyzer.can_analyze(std::path::Path::new("Foo.rs")));
    }
