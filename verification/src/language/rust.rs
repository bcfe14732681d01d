//! Rust.

use vstd::prelude::*;
use crate::language::tokens::TokenStyle;
use crate::language::{ConfigView, LanguageAnalyzer, LanguageConfig};
use crate::syntax::Grammar;

verus! {

/// The analyzer of Rust sources (`.rs`).
pub struct RustAnalyzer;

pub const EXTENSIONS: [&'static str; 1] = [
    "rs",
];

pub const FUNCTION_KINDS: [&'static str; 2] = [
    "function_item",
    "closure_expression",
];

pub const CLOSURE_KINDS: [&'static str; 1] = [
    "closure_expression",
];

pub const DECISION_KINDS: [&'static str; 8] = [
    "if_expression",
    "if_let_expression",
    "for_expression",
    "while_expression",
    "while_let_expression",
    "loop_expression",
    "try_expression",
    "match_arm",
];

pub const OPERATOR_KINDS: [&'static str; 35] = [
    "+",
    "-",
    "*",
    "/",
    "%",
    "&&",
    "||",
    "!",
    "==",
    "!=",
    "<",
    ">",
    "<=",
    ">=",
    "=",
    "+=",
    "-=",
    "*=",
    "/=",
    "%=",
    "&",
    "|",
    "^",
    "<<",
    ">>",
    ".",
    "..",
    "...",
    "->",
    "=>",
    "return_expression",
    "break_expression",
    "continue_expression",
    "await_expression",
    "try_expression",
];

pub const OPERAND_KINDS: [&'static str; 7] = [
    "identifier",
    "integer_literal",
    "float_literal",
    "string_literal",
    "char_literal",
    "bool_literal",
    "self",
];

pub const NAME_KINDS: [&'static str; 1] = [
    "identifier",
];

pub const MATCH_CASE_KINDS: [(&'static str, &'static str); 0] = [];

/// The Rust configuration.
pub open spec fn config() -> ConfigView {
    ConfigView {
        function_kinds: FUNCTION_KINDS@,
        closure_kinds: CLOSURE_KINDS@,
        decision_kinds: DECISION_KINDS@,
        operator_kinds: OPERATOR_KINDS@,
        operand_kinds: OPERAND_KINDS@,
        match_case_kinds: MATCH_CASE_KINDS@,
        skip_childless_nodes: false,
        anonymous_kinds: CLOSURE_KINDS@,
        anonymous_label: "<closure>",
        name_kinds: NAME_KINDS@,
        search_declarators: false,
        token_style: Some(TokenStyle::Rust),
    }
}

impl LanguageAnalyzer for RustAnalyzer {
    open spec fn grammar_spec(&self) -> Grammar {
        Grammar::Rust
    }

    open spec fn config_spec(&self) -> ConfigView {
        config()
    }

    open spec fn name_spec(&self) -> Seq<char> {
        "Rust"@
    }

    open spec fn extensions_spec(&self) -> Seq<&'static str> {
        EXTENSIONS@
    }

    fn grammar(&self) -> (g: Grammar) {
        Grammar::Rust
    }

    fn config(&self) -> (c: LanguageConfig) {
        LanguageConfig {
            function_kinds: &FUNCTION_KINDS,
            closure_kinds: &CLOSURE_KINDS,
            decision_kinds: &DECISION_KINDS,
            operator_kinds: &OPERATOR_KINDS,
            operand_kinds: &OPERAND_KINDS,
            match_case_kinds: &MATCH_CASE_KINDS,
            skip_childless_nodes: false,
            anonymous_kinds: &CLOSURE_KINDS,
            anonymous_label: "<closure>",
            name_kinds: &NAME_KINDS,
            search_declarators: false,
            token_style: Some(TokenStyle::Rust),
        }
    }

    fn language_name(&self) -> (n: &'static str) {
        "Rust"
    }

    fn extensions(&self) -> (e: &'static [&'static str]) {
        &EXTENSIONS
    }
}

} // verus!
