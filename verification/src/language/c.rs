//! C.

use vstd::prelude::*;
use crate::language::{ConfigView, LanguageAnalyzer, LanguageConfig};
use crate::syntax::Grammar;

verus! {

/// The analyzer of C sources and headers (`.c`, `.h`).
pub struct CAnalyzer;

pub const EXTENSIONS: [&'static str; 2] = [
    "c",
    "h",
];

pub const FUNCTION_KINDS: [&'static str; 1] = [
    "function_definition",
];

pub const CLOSURE_KINDS: [&'static str; 0] = [
];

pub const DECISION_KINDS: [&'static str; 6] = [
    "if_statement",
    "for_statement",
    "while_statement",
    "do_statement",
    "case_statement",
    "conditional_expression",
];

pub const OPERATOR_KINDS: [&'static str; 33] = [
    "+",
    "-",
    "*",
    "/",
    "%",
    "==",
    "!=",
    "<",
    ">",
    "<=",
    ">=",
    "&&",
    "||",
    "!",
    "=",
    "+=",
    "-=",
    "*=",
    "/=",
    "%=",
    "&",
    "|",
    "^",
    "<<",
    ">>",
    "~",
    ".",
    "->",
    ":",
    "return_statement",
    "break_statement",
    "continue_statement",
    "goto_statement",
];

pub const OPERAND_KINDS: [&'static str; 4] = [
    "identifier",
    "number_literal",
    "string_literal",
    "char_literal",
];

pub const NAME_KINDS: [&'static str; 1] = [
    "identifier",
];

pub const ANONYMOUS_KINDS: [&'static str; 0] = [
];

pub const MATCH_CASE_KINDS: [(&'static str, &'static str); 0] = [];

/// The C configuration.
pub open spec fn config() -> ConfigView {
    ConfigView {
        function_kinds: FUNCTION_KINDS@,
        closure_kinds: CLOSURE_KINDS@,
        decision_kinds: DECISION_KINDS@,
        operator_kinds: OPERATOR_KINDS@,
        operand_kinds: OPERAND_KINDS@,
        match_case_kinds: MATCH_CASE_KINDS@,
        skip_childless_nodes: false,
        anonymous_kinds: ANONYMOUS_KINDS@,
        anonymous_label: "<closure>",
        name_kinds: NAME_KINDS@,
        search_declarators: true,
        token_style: None,
    }
}

impl LanguageAnalyzer for CAnalyzer {
    open spec fn grammar_spec(&self) -> Grammar {
        Grammar::C
    }

    open spec fn config_spec(&self) -> ConfigView {
        config()
    }

    open spec fn name_spec(&self) -> Seq<char> {
        "C"@
    }

    open spec fn extensions_spec(&self) -> Seq<&'static str> {
        EXTENSIONS@
    }

    fn grammar(&self) -> (g: Grammar) {
        Grammar::C
    }

    fn config(&self) -> (c: LanguageConfig) {
        LanguageConfig {
            function_kinds: &FUNCTION_KINDS,
            closure_kinds: &CLOSURE_KINDS,
            decision_kinds: &DECISION_KINDS,
            operator_kinds: &OPERATOR_KINDS,
            operand_kinds: &OPERAND_KINDS,
            match_case_kinds: &MATCH_CASE_KINDS,
            skip_childless_nodes: false,
            anonymous_kinds: &ANONYMOUS_KINDS,
            anonymous_label: "<closure>",
            name_kinds: &NAME_KINDS,
            search_declarators: true,
            token_style: None,
        }
    }

    fn language_name(&self) -> (n: &'static str) {
        "C"
    }

    fn extensions(&self) -> (e: &'static [&'static str]) {
        &EXTENSIONS
    }
}

} // verus!
