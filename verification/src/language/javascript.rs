//! JavaScript (including JSX).

use vstd::prelude::*;
use crate::language::javascript_like::{FUNCTION_KINDS, CLOSURE_KINDS, DECISION_KINDS, OPERATOR_KINDS, OPERAND_KINDS};
use crate::language::tokens::TokenStyle;
use crate::language::{ConfigView, LanguageAnalyzer, LanguageConfig};
use crate::syntax::Grammar;

verus! {

/// The analyzer of JavaScript sources (`.js`, `.jsx`).
pub struct JavaScriptAnalyzer;

pub const EXTENSIONS: [&'static str; 2] = [
    "js",
    "jsx",
];

pub const NAME_KINDS: [&'static str; 2] = [
    "identifier",
    "property_identifier",
];

pub const MATCH_CASE_KINDS: [(&'static str, &'static str); 0] = [];

/// The JS configuration.
pub open spec fn config() -> ConfigView {
    ConfigView {
        function_kinds: FUNCTION_KINDS@,
        closure_kinds: CLOSURE_KINDS@,
        decision_kinds: DECISION_KINDS@,
        operator_kinds: OPERATOR_KINDS@,
        operand_kinds: OPERAND_KINDS@,
        match_case_kinds: MATCH_CASE_KINDS@,
        skip_childless_nodes: false,
        anonymous_kinds: CLOSURE_KINDS@,
        anonymous_label: "<closure>",
        name_kinds: NAME_KINDS@,
        search_declarators: false,
        token_style: Some(TokenStyle::JavaScriptLike),
    }
}

impl LanguageAnalyzer for JavaScriptAnalyzer {
    open spec fn grammar_spec(&self) -> Grammar {
        Grammar::JavaScript
    }

    open spec fn config_spec(&self) -> ConfigView {
        config()
    }

    open spec fn name_spec(&self) -> Seq<char> {
        "JS"@
    }

    open spec fn extensions_spec(&self) -> Seq<&'static str> {
        EXTENSIONS@
    }

    fn grammar(&self) -> (g: Grammar) {
        Grammar::JavaScript
    }

    fn config(&self) -> (c: LanguageConfig) {
        LanguageConfig {
            function_kinds: &FUNCTION_KINDS,
            closure_kinds: &CLOSURE_KINDS,
            decision_kinds: &DECISION_KINDS,
            operator_kinds: &OPERATOR_KINDS,
            operand_kinds: &OPERAND_KINDS,
            match_case_kinds: &MATCH_CASE_KINDS,
            skip_childless_nodes: false,
            anonymous_kinds: &CLOSURE_KINDS,
            anonymous_label: "<closure>",
            name_kinds: &NAME_KINDS,
            search_declarators: false,
            token_style: Some(TokenStyle::JavaScriptLike),
        }
    }

    fn language_name(&self) -> (n: &'static str) {
        "JS"
    }

    fn extensions(&self) -> (e: &'static [&'static str]) {
        &EXTENSIONS
    }
}

} // verus!
