use polygraph::language::go::GoAnalyzer;
use polygraph::language::LanguageAnalyzer;

    #[test]
    fn go_test_simple_function() {
        let source = "func foo() { if true {} }";
        let analyzer = GoAnalyzer;
        let result = analyzer.analyze(source, false).unwrap();
        assert_eq!(result.len(), 1);
        assert_eq!(result[0].name, "foo");
        assert_eq!(result[0].complexity, 2);
    }

    #[test]
    fn test_method() {
        let source = r#"
func (r *Receiver) Bar() {
    if x {}
}
"#;
        let analyzer = GoAnalyzer;
        let result = analyzer.analyze(source, false).unwrap();
        assert_eq!(result.len(), 1);
        assert_eq!(result[0].name, "Bar");
        assert_eq!(result[0].complexity, 2);
    }

    #[test]
    fn go_test_if_else() {
        let source = "func bar() { if x {} else {} }";
        let analyzer = GoAnalyzer;
        let result = analyzer.analyze(source, false).unwrap();
        assert_eq!(result[0].complexity, 2); // base 1 + if 1
    }

    #[test]
    fn go_test_switch() {
        let source = r#"
func baz() {
    switch x {
    case 1:
    case 2:
    default:
    }
}
"#;
        let analyzer = GoAnalyzer;
        let result = analyzer.analyze(source, false).unwrap();
        assert_eq!(result[0].complexity, 4); // base 1 + 2 cases + 1 default
    }

    #[test]
    fn test_type_switch() {
        let source = r#"
func qux() {
    switch x := y.(type) {
    case int:
    case string:
    default:
    }
}
"#;
        let analyzer = GoAnalyzer;
        let result = analyzer.analyze(source, false).unwrap();
        assert_eq!(result[0].complexity, 4); // base 1 + 2 cases + 1 default
    }

    #[test]
    fn test_select() {
        let source = r#"
func sel() {
    select {
    case <-ch1:
    case ch2 <- 1:
    default:
    }
}
"#;
        let analyzer = GoAnalyzer;
        let result = analyzer.analyze(source, false).unwrap();
        assert_eq!(result[0].complexity, 4); // base 1 + 2 cases + 1 default
    }

    #[test]
    fn go_test_for_loop() {
        let source = "func loop() { for i := 0; i < 10; i++ {} }";
        let analyzer = GoAnalyzer;
        let result = analyzer.analyze(source, false).unwrap();
        assert_eq!(result[0].complexity, 2); // base 1 + for 1
    }

    #[test]
    fn test_range() {
        let source = "func r() { for _, v := range m {} }";
        let analyzer = GoAnalyzer;
        let result = analyzer.analyze(source, false).unwrap();
        assert_eq!(result[0].complexity, 2); // base 1 + for 1
    }

    #[test]
    fn go_test_closure_included() {
        let source = "func outer() { f := func(x int) { if x > 0 {} } }";
        let analyzer = GoAnalyzer;
        let result = analyzer.analyze(source, true).unwrap();
        assert_eq!(result.len(), 2);
        let closure = result
            .iter()
            .find(|f| f.name.starts_with("<closure>"))
            .unwrap();
        assert_eq!(closure.complexity, 2);
    }

    #[test]
    fn go_test_closure_excluded_by_default() {
        let source = "func outer() { f := func(x int) { if x > 0 {} } }";
        let analyzer = GoAnalyzer;
        let result = analyzer.analyze(source, false).unwrap();
        assert_eq!(result.len(), 1);
        assert!(!result[0].name.starts_with("<closure>"));
    }

    #[test]
    fn go_test_boolean_ops() {
        let source = "func b() { a && b || c }";
        let analyzer = GoAnalyzer;
        let result = analyzer.analyze(source, false).unwrap();
        assert_eq!(result[0].complexity, 3); // base 1 + && 1 + || 1
    }

    #[test]
    fn go_test_parse_error() {
        let source = "func foo() {";
        let analyzer = GoAnalyzer;
        assert!(analyzer.analyze(source, false).is_err());
    }

    #[test]
    fn test_can_analyze_go() {
        let analyzer = GoAnalyzer;
        assert!(analyzer.can_analyze(std::path::Path::new("foo.go")));
        assert!(!analyzer.can_analyze(std::path::Path::new("foo.rs")));
    }
