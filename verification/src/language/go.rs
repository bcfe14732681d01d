//! Go.

use vstd::prelude::*;
use crate::language::{ConfigView, LanguageAnalyzer, LanguageConfig};
use crate::syntax::Grammar;

verus! {

/// The analyzer of Go sources (`.go`).
pub struct GoAnalyzer;

pub const EXTENSIONS: [&'static str; 1] = [
    "go",
];

pub const FUNCTION_KINDS: [&'static str; 3] = [
    "function_declaration",
    "method_declaration",
    "func_literal",
];

pub const CLOSURE_KINDS: [&'static str; 1] = [
    "func_literal",
];

pub const DECISION_KINDS: [&'static str; 6] = [
    "if_statement",
    "for_statement",
    "expression_case",
    "type_case",
    "communication_case",
    "default_case",
];

pub const OPERATOR_KINDS: [&'static str; 43] = [
    "+",
    "-",
    "*",
    "/",
    "%",
    "==",
    "!=",
    "<",
    ">",
    "<=",
    ">=",
    "&&",
    "||",
    "!",
    "&",
    "&^",
    "^",
    "<<",
    ">>",
    "|",
    "=",
    ":=",
    "+=",
    "-=",
    "*=",
    "/=",
    "%=",
    "&=",
    "&^=",
    "|=",
    "^=",
    "<<=",
    ">>=",
    "++",
    "--",
    ".",
    "<-",
    "return_statement",
    "break_statement",
    "continue_statement",
    "goto_statement",
    "defer_statement",
    "go_statement",
];

pub const OPERAND_KINDS: [&'static str; 10] = [
    "identifier",
    "int_literal",
    "float_literal",
    "interpreted_string_literal",
    "raw_string_literal",
    "rune_literal",
    "true",
    "false",
    "nil",
    "iota",
];

pub const NAME_KINDS: [&'static str; 2] = [
    "identifier",
    "field_identifier",
];

pub const MATCH_CASE_KINDS: [(&'static str, &'static str); 0] = [];

/// The Go configuration.
pub open spec fn config() -> ConfigView {
    ConfigView {
        function_kinds: FUNCTION_KINDS@,
        closure_kinds: CLOSURE_KINDS@,
        decision_kinds: DECISION_KINDS@,
        operator_kinds: OPERATOR_KINDS@,
        operand_kinds: OPERAND_KINDS@,
        match_case_kinds: MATCH_CASE_KINDS@,
        skip_childless_nodes: false,
        anonymous_kinds: CLOSURE_KINDS@,
        anonymous_label: "<closure>",
        name_kinds: NAME_KINDS@,
        search_declarators: false,
        token_style: None,
    }
}

impl LanguageAnalyzer for GoAnalyzer {
    open spec fn grammar_spec(&self) -> Grammar {
        Grammar::Go
    }

    open spec fn config_spec(&self) -> ConfigView {
        config()
    }

    open spec fn name_spec(&self) -> Seq<char> {
        "Go"@
    }

    open spec fn extensions_spec(&self) -> Seq<&'static str> {
        EXTENSIONS@
    }

    fn grammar(&self) -> (g: Grammar) {
        Grammar::Go
    }

    fn config(&self) -> (c: LanguageConfig) {
        LanguageConfig {
            function_kinds: &FUNCTION_KINDS,
            closure_kinds: &CLOSURE_KINDS,
            decision_kinds: &DECISION_KINDS,
            operator_kinds: &OPERATOR_KINDS,
            operand_kinds: &OPERAND_KINDS,
            match_case_kinds: &MATCH_CASE_KINDS,
            skip_childless_nodes: false,
            anonymous_kinds: &CLOSURE_KINDS,
            anonymous_label: "<closure>",
            name_kinds: &NAME_KINDS,
            search_declarators: false,
            token_style: None,
        }
    }

    fn language_name(&self) -> (n: &'static str) {
        "Go"
    }

    fn extensions(&self) -> (e: &'static [&'static str]) {
        &EXTENSIONS
    }
}

} // verus!
