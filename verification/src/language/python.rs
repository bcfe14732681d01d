//! Python.

use vstd::prelude::*;
use crate::language::tokens::TokenStyle;
use crate::language::{ConfigView, LanguageAnalyzer, LanguageConfig};
use crate::syntax::Grammar;

verus! {

/// The analyzer of Python sources (`.py`).
pub struct PythonAnalyzer;

pub const EXTENSIONS: [&'static str; 1] = [
    "py",
];

pub const FUNCTION_KINDS: [&'static str; 2] = [
    "function_definition",
    "lambda",
];

pub const CLOSURE_KINDS: [&'static str; 1] = [
    "lambda",
];

pub const DECISION_KINDS: [&'static str; 6] = [
    "if_statement",
    "elif_clause",
    "for_statement",
    "while_statement",
    "except_clause",
    "conditional_expression",
];

pub const OPERATOR_KINDS: [&'static str; 38] = [
    "+",
    "-",
    "*",
    "/",
    "%",
    "//",
    "**",
    "==",
    "!=",
    "<",
    ">",
    "<=",
    ">=",
    "and",
    "or",
    "not",
    "in",
    "is",
    "=",
    "+=",
    "-=",
    "*=",
    "/=",
    "%=",
    "//=",
    "**=",
    "&",
    "|",
    "^",
    "<<",
    ">>",
    "~",
    ".",
    ":",
    "->",
    "return_statement",
    "yield",
    "await",
];

pub const OPERAND_KINDS: [&'static str; 7] = [
    "identifier",
    "integer",
    "float",
    "string",
    "true",
    "false",
    "none",
];

pub const NAME_KINDS: [&'static str; 1] = [
    "identifier",
];

pub const MATCH_CASE_KINDS: [(&'static str, &'static str); 1] = [
    ("match_statement", "case_clause"),
];

/// The Python configuration.
pub open spec fn config() -> ConfigView {
    ConfigView {
        function_kinds: FUNCTION_KINDS@,
        closure_kinds: CLOSURE_KINDS@,
        decision_kinds: DECISION_KINDS@,
        operator_kinds: OPERATOR_KINDS@,
        operand_kinds: OPERAND_KINDS@,
        match_case_kinds: MATCH_CASE_KINDS@,
        skip_childless_nodes: true,
        anonymous_kinds: CLOSURE_KINDS@,
        anonymous_label: "<lambda>",
        name_kinds: NAME_KINDS@,
        search_declarators: false,
        token_style: Some(TokenStyle::Python),
    }
}

impl LanguageAnalyzer for PythonAnalyzer {
    open spec fn grammar_spec(&self) -> Grammar {
        Grammar::Python
    }

    open spec fn config_spec(&self) -> ConfigView {
        config()
    }

    open spec fn name_spec(&self) -> Seq<char> {
        "Python"@
    }

    open spec fn extensions_spec(&self) -> Seq<&'static str> {
        EXTENSIONS@
    }

    fn grammar(&self) -> (g: Grammar) {
        Grammar::Python
    }

    fn config(&self) -> (c: LanguageConfig) {
        LanguageConfig {
            function_kinds: &FUNCTION_KINDS,
            closure_kinds: &CLOSURE_KINDS,
            decision_kinds: &DECISION_KINDS,
            operator_kinds: &OPERATOR_KINDS,
            operand_kinds: &OPERAND_KINDS,
            match_case_kinds: &MATCH_CASE_KINDS,
            skip_childless_nodes: true,
            anonymous_kinds: &CLOSURE_KINDS,
            anonymous_label: "<lambda>",
            name_kinds: &NAME_KINDS,
            search_declarators: false,
            token_style: Some(TokenStyle::Python),
        }
    }

    fn language_name(&self) -> (n: &'static str) {
        "Python"
    }

    fn extensions(&self) -> (e: &'static [&'static str]) {
        &EXTENSIONS
    }
}

} // verus!
