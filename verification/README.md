# polygraph

Cyclomatic complexity, nesting depth, Halstead counts, structural duplicates
and clone candidates for the functions of Rust, Python, JavaScript,
TypeScript, C, Go and Java sources.

The library under `src/` is verified with Verus:

- `syntax` turns tree-sitter's preorder node listing into a tree;
  `tree` holds the tree's shape and source-fit checks.
- `complexity`, `cognitive` define decision points, nesting depth and
  Halstead operator/operand counts.
- `language` finds and measures the functions of a tree; one file per
  language supplies its node kinds, naming rules and token style
  (`language/tokens` normalizes function bodies for clone detection).
  `language/properties` states what holds of every analysis.
- `analyzer` picks the analyzer by file extension and builds the per-file
  result; `lib.rs` holds the per-file and project summaries.
- `duplicates` finds same-named functions with identical metrics;
  `clones` selects and pairs clone candidates, counts shared shingles and
  orders the reported pairs.
- `output` selects the report format and builds the report parts that do
  not involve floating point.

`app/` is the command-line program: argument parsing, configuration
loading, reading files and directories, the real-valued Halstead measures
and averages, and the JSON, Markdown and pretty renderings.

JavaScript support, which the project documents (`.js`, `.jsx`), uses the
`tree-sitter-javascript` grammar crate (0.25.0), which builds against the
same `tree-sitter-language` as the other grammar crates.
