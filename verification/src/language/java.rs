//! Java.

use vstd::prelude::*;
use crate::language::{ConfigView, LanguageAnalyzer, LanguageConfig};
use crate::syntax::Grammar;

verus! {

/// The analyzer of Java sources (`.java`).
pub struct JavaAnalyzer;

pub const EXTENSIONS: [&'static str; 1] = [
    "java",
];

pub const FUNCTION_KINDS: [&'static str; 4] = [
    "method_declaration",
    "constructor_declaration",
    "compact_constructor_declaration",
    "lambda_expression",
];

pub const CLOSURE_KINDS: [&'static str; 1] = [
    "lambda_expression",
];

pub const DECISION_KINDS: [&'static str; 8] = [
    "if_statement",
    "for_statement",
    "enhanced_for_statement",
    "while_statement",
    "do_statement",
    "switch_label",
    "catch_clause",
    "ternary_expression",
];

pub const OPERATOR_KINDS: [&'static str; 35] = [
    "+",
    "-",
    "*",
    "/",
    "%",
    "==",
    "!=",
    "<",
    ">",
    "<=",
    ">=",
    "&&",
    "||",
    "!",
    "=",
    "+=",
    "-=",
    "*=",
    "/=",
    "%=",
    "&",
    "|",
    "^",
    "<<",
    ">>",
    ">>>",
    "~",
    ".",
    "::",
    "return_statement",
    "break_statement",
    "continue_statement",
    "throw_statement",
    "yield_statement",
    "instanceof_expression",
];

pub const OPERAND_KINDS: [&'static str; 14] = [
    "identifier",
    "decimal_integer_literal",
    "hex_integer_literal",
    "octal_integer_literal",
    "binary_integer_literal",
    "decimal_floating_point_literal",
    "hex_floating_point_literal",
    "string_literal",
    "character_literal",
    "true",
    "false",
    "null_literal",
    "this",
    "super",
];

pub const NAME_KINDS: [&'static str; 1] = [
    "identifier",
];

pub const MATCH_CASE_KINDS: [(&'static str, &'static str); 0] = [];

/// The Java configuration.
pub open spec fn config() -> ConfigView {
    ConfigView {
        function_kinds: FUNCTION_KINDS@,
        closure_kinds: CLOSURE_KINDS@,
        decision_kinds: DECISION_KINDS@,
        operator_kinds: OPERATOR_KINDS@,
        operand_kinds: OPERAND_KINDS@,
        match_case_kinds: MATCH_CASE_KINDS@,
        skip_childless_nodes: false,
        anonymous_kinds: CLOSURE_KINDS@,
        anonymous_label: "<lambda>",
        name_kinds: NAME_KINDS@,
        search_declarators: false,
        token_style: None,
    }
}

impl LanguageAnalyzer for JavaAnalyzer {
    open spec fn grammar_spec(&self) -> Grammar {
        Grammar::Java
    }

    open spec fn config_spec(&self) -> ConfigView {
        config()
    }

    open spec fn name_spec(&self) -> Seq<char> {
        "Java"@
    }

    open spec fn extensions_spec(&self) -> Seq<&'static str> {
        EXTENSIONS@
    }

    fn grammar(&self) -> (g: Grammar) {
        Grammar::Java
    }

    fn config(&self) -> (c: LanguageConfig) {
        LanguageConfig {
            function_kinds: &FUNCTION_KINDS,
            closure_kinds: &CLOSURE_KINDS,
            decision_kinds: &DECISION_KINDS,
            operator_kinds: &OPERATOR_KINDS,
            operand_kinds: &OPERAND_KINDS,
            match_case_kinds: &MATCH_CASE_KINDS,
            skip_childless_nodes: false,
            anonymous_kinds: &CLOSURE_KINDS,
            anonymous_label: "<lambda>",
            name_kinds: &NAME_KINDS,
            search_declarators: false,
            token_style: None,
        }
    }

    fn language_name(&self) -> (n: &'static str) {
        "Java"
    }

    fn extensions(&self) -> (e: &'static [&'static str]) {
        &EXTENSIONS
    }
}

} // verus!
