//! TypeScript (parsed with the TSX dialect).

use vstd::prelude::*;
use crate::language::javascript_like::{FUNCTION_KINDS, CLOSURE_KINDS, DECISION_KINDS, OPERATOR_KINDS, OPERAND_KINDS};
use crate::language::tokens::TokenStyle;
use crate::language::{ConfigView, LanguageAnalyzer, LanguageConfig};
use crate::syntax::Grammar;

verus! {

/// The analyzer of TypeScript sources (`.ts`, `.tsx`).
pub struct TypeScriptAnalyzer;

pub const EXTENSIONS: [&'static str; 2] = [
    "ts",
    "tsx",
];

pub const NAME_KINDS: [&'static str; 2] = [
    "identifier",
    "property_identifier",
];

pub const MATCH_CASE_KINDS: [(&'static str, &'static str); 0] = [];

/// The TS configuration.
pub open spec fn config() -> ConfigView {
    ConfigView {
        function_kinds: FUNCTION_KINDS@,
        closure_kinds: CLOSURE_KINDS@,
        decision_kinds: DECISION_KINDS@,
        operator_kinds: OPERATOR_KINDS@,
        operand_kinds: OPERAND_KINDS@,
        match_case_kinds: MATCH_CASE_KINDS@,
        skip_childless_nodes: false,
        anonymous_kinds: CLOSURE_KINDS@,
        anonymous_label: "<closure>",
        name_kinds: NAME_KINDS@,
        search_declarators: false,
        token_style: Some(TokenStyle::JavaScriptLike),
    }
}

impl LanguageAnalyzer for TypeScriptAnalyzer {
    open spec fn grammar_spec(&self) -> Grammar {
        Grammar::TypeScript
    }

    open spec fn config_spec(&self) -> ConfigView {
        config()
    }

    open spec fn name_spec(&self) -> Seq<char> {
        "TS"@
    }

    open spec fn extensions_spec(&self) -> Seq<&'static str> {
        EXTENSIONS@
    }

    fn grammar(&self) -> (g: Grammar) {
        Grammar::TypeScript
    }

    fn config(&self) -> (c: LanguageConfig) {
        LanguageConfig {
            function_kinds: &FUNCTION_KINDS,
            closure_kinds: &CLOSURE_KINDS,
            decision_kinds: &DECISION_KINDS,
            operator_kinds: &OPERATOR_KINDS,
            operand_kinds: &OPERAND_KINDS,
            match_case_kinds: &MATCH_CASE_KINDS,
            skip_childless_nodes: false,
            anonymous_kinds: &CLOSURE_KINDS,
            anonymous_label: "<closure>",
            name_kinds: &NAME_KINDS,
            search_declarators: false,
            token_style: Some(TokenStyle::JavaScriptLike),
        }
    }

    fn language_name(&self) -> (n: &'static str) {
        "TS"
    }

    fn extensions(&self) -> (e: &'static [&'static str]) {
        &EXTENSIONS
    }
}

} // verus!
