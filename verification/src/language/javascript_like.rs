//! The node kinds that JavaScript and TypeScript grammars share.

use vstd::prelude::*;

verus! {

pub const FUNCTION_KINDS: [&'static str; 4] = [
    "function_declaration",
    "function_expression",
    "arrow_function",
    "method_definition",
];

pub const CLOSURE_KINDS: [&'static str; 2] = [
    "function_expression",
    "arrow_function",
];

pub const DECISION_KINDS: [&'static str; 8] = [
    "if_statement",
    "for_statement",
    "while_statement",
    "do_statement",
    "catch_clause",
    "ternary_expression",
    "switch_case",
    "switch_default",
];

pub const OPERATOR_KINDS: [&'static str; 41] = [
    "+",
    "-",
    "*",
    "/",
    "%",
    "**",
    "==",
    "!=",
    "===",
    "!==",
    "<",
    ">",
    "<=",
    ">=",
    "&&",
    "||",
    "!",
    "??",
    "?.",
    "=",
    "+=",
    "-=",
    "*=",
    "/=",
    "%=",
    "**=",
    "&",
    "|",
    "^",
    "<<",
    ">>",
    ">>>",
    "~",
    "++",
    "--",
    ".",
    ":",
    "=>",
    "return_statement",
    "yield",
    "await",
];

pub const OPERAND_KINDS: [&'static str; 7] = [
    "identifier",
    "number",
    "string",
    "true",
    "false",
    "null",
    "undefined",
];

} // verus!
