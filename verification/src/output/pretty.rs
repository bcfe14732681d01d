//! The per-file part of the pretty report: a heading line and a table of
//! the file's functions, drawn by comfy-table.

use vstd::prelude::*;
use vstd::string::StringExecFns;
use crate::cognitive::texts;
use crate::text::{decimal, decimal_text};
use crate::{FileResult, FunctionComplexity};

verus! {

#[verifier::external_type_specification]
#[verifier::external_body]
pub struct ExTable(comfy_table::Table);

/// The header of a table: the texts of its header cells, once set.
pub uninterp spec fn table_header_of(table: comfy_table::Table) -> Option<Seq<Seq<char>>>;

/// The rows of a table, in the order added, each as the texts of its cells.
pub uninterp spec fn table_rows_of(table: comfy_table::Table) -> Seq<Seq<Seq<char>>>;

/// Whether a table fits its columns to the available width
/// (`ContentArrangement::Dynamic`).
pub uninterp spec fn table_dynamic(table: comfy_table::Table) -> bool;

/// comfy-table's drawing, in its default style, of a table with unstyled
/// cells, the given header and rows, arranged dynamically or not, when
/// `Table::width` gives `width` (the terminal's width on a tty, else none).
pub uninterp spec fn table_drawing(
    header: Option<Seq<Seq<char>>>,
    rows: Seq<Seq<Seq<char>>>,
    dynamic: bool,
    width: Option<u16>,
) -> Seq<char>;

/// An empty table (`Table::new`): no header, no rows, no dynamic arrangement.
#[verifier::external_body]
fn new_table() -> (r: comfy_table::Table)
    ensures
        !table_dynamic(r),
        table_header_of(r) is None,
        table_rows_of(r) == Seq::<Seq<Seq<char>>>::empty(),
{
    comfy_table::Table::new()
}

/// Lets the table fit its columns to the terminal
/// (`Table::set_content_arrangement` with `ContentArrangement::Dynamic`);
/// header and rows stay as they are.
#[verifier::external_body]
fn arrange_dynamically(table: &mut comfy_table::Table)
    ensures
        table_dynamic(*final(table)),
        table_header_of(*final(table)) == table_header_of(*old(table)),
        table_rows_of(*final(table)) == table_rows_of(*old(table)),
{
    table.set_content_arrangement(comfy_table::ContentArrangement::Dynamic);
}

/// Sets the header row of the table (`Table::set_header`), a cell per
/// string; the rows stay as they are.
#[verifier::external_body]
fn set_table_header(table: &mut comfy_table::Table, cells: Vec<String>)
    ensures
        table_dynamic(*final(table)) == table_dynamic(*old(table)),
        table_header_of(*final(table)) == Some(texts(cells@)),
        table_rows_of(*final(table)) == table_rows_of(*old(table)),
{
    table.set_header(cells);
}

/// Appends a row to the table (`Table::add_row`), a cell per string; the
/// header stays as it is.
#[verifier::external_body]
fn add_table_row(table: &mut comfy_table::Table, cells: Vec<String>)
    ensures
        table_dynamic(*final(table)) == table_dynamic(*old(table)),
        table_header_of(*final(table)) == table_header_of(*old(table)),
        table_rows_of(*final(table)) == table_rows_of(*old(table)).push(texts(cells@)),
{
    table.add_row(cells);
}

/// The drawing of the table (its `Display` text): `table_drawing` of its
/// header, rows and arrangement, for the width that `Table::width` gives,
/// which follows the terminal that standard output is attached to.
#[verifier::external_body]
fn table_text(table: &comfy_table::Table) -> (r: String)
    ensures
        exists|w: Option<u16>|
            r@ == table_drawing(table_header_of(*table), table_rows_of(*table), table_dynamic(*table), w),
{
    format!("{table}")
}

/// The text that `Path::display` writes for `path`: a function of the path alone.
pub uninterp spec fn path_display(path: &std::path::PathBuf) -> Seq<char>;

/// The text of a path as `Path::display` writes it.
#[verifier::external_body]
fn path_text(path: &std::path::PathBuf) -> (r: String)
    ensures
        r@ == path_display(path),
{
    format!("{}", path.display())
}

/// The header cells of the function table.
pub open spec fn table_header_cells() -> Seq<Seq<char>> {
    seq!["Function"@, "Lines"@, "Line Range"@, "Complexity"@]
}

/// The cells of the row of function `f`: its name, line count, line range
/// and complexity.
pub open spec fn function_row_cells(f: FunctionComplexity) -> Seq<Seq<char>> {
    seq![
        f.name@,
        decimal(f.lines as nat),
        decimal(f.line_start as nat) + "-"@ + decimal(f.line_end as nat),
        decimal(f.complexity as nat),
    ]
}

/// The header cells of the function table.
pub fn table_header() -> (r: Vec<String>)
    ensures
        texts(r@) == table_header_cells(),
{
    let r = vec![
        String::from_str("Function"),
        String::from_str("Lines"),
        String::from_str("Line Range"),
        String::from_str("Complexity"),
    ];
    assert(texts(r@) =~= table_header_cells());
    r
}

/// The cells of the row of `f` (see `function_row_cells`).
pub fn function_row(f: &FunctionComplexity) -> (r: Vec<String>)
    ensures
        texts(r@) == function_row_cells(*f),
{
    let mut range = decimal_text(f.line_start as u64);
    range.append("-");
    let end = decimal_text(f.line_end as u64);
    range.append(end.as_str());
    let r = vec![f.name.clone(), decimal_text(f.lines as u64), range, decimal_text(f.complexity as u64)];
    assert(texts(r@) =~= function_row_cells(*f));
    r
}

/// The rows of the function table of `functions`: one per function, in order.
pub open spec fn function_rows_cells(functions: Seq<FunctionComplexity>) -> Seq<Seq<Seq<char>>> {
    functions.map_values(|f: FunctionComplexity| function_row_cells(f))
}

/// The function table of a file with `functions`, arranged to fit the
/// terminal: the header cells, then a row per function, in order.
pub fn function_table(functions: &Vec<FunctionComplexity>) -> (t: comfy_table::Table)
    ensures
        table_dynamic(t),
        table_header_of(t) == Some(table_header_cells()),
        table_rows_of(t) == function_rows_cells(functions@),
{
    let mut table = new_table();
    arrange_dynamically(&mut table);
    set_table_header(&mut table, table_header());
    let mut i: usize = 0;
    while i < functions.len()
        invariant
            i <= functions@.len(),
            table_dynamic(table),
            table_header_of(table) == Some(table_header_cells()),
            table_rows_of(table) == function_rows_cells(functions@.take(i as int)),
        decreases functions@.len() - i,
    {
        let row = function_row(&functions[i]);
        add_table_row(&mut table, row);
        assert(function_rows_cells(functions@.take(i + 1)) =~= function_rows_cells(functions@.take(i as int)).push(
            function_row_cells(functions@[i as int]),
        ));
        i += 1;
    }
    assert(functions@.take(functions@.len() as int) =~= functions@);
    table
}

/// The heading line of a file with functions, after its path.
pub open spec fn file_heading_tail(file: FileResult) -> Seq<char> {
    " (total complexity: "@ + decimal(file.total_complexity as nat) + ", total lines: "@ + decimal(
        file.total_lines as nat,
    ) + ", functions: "@ + decimal(file.function_count as nat) + ")\n"@
}

/// The pretty report of one file: its error, nothing for a file without
/// functions, else a heading line with its totals and the drawing of
/// `function_table` of its functions, for the terminal's width. The path's
/// text is what `Path::display` writes.
pub fn format_file_entry(file: &FileResult) -> (r: String)
    ensures
        file.error matches Some(err) ==> r@ == path_display(&file.path) + ": ERROR: "@ + err@ + "\n"@,
        file.error is None && file.functions@.len() == 0 ==> r@ == Seq::<char>::empty(),
        file.error is None && file.functions@.len() > 0 ==> exists|w: Option<u16>|
            r@ == path_display(&file.path) + file_heading_tail(*file) + table_drawing(
                Some(table_header_cells()),
                function_rows_cells(file.functions@),
                true,
                w,
            ) + "\n"@,
{
    proof {
        reveal_strlit("");
    }
    match &file.error {
        Some(err) => {
            let mut out = path_text(&file.path);
            let ghost p = out@;
            out.append(": ERROR: ");
            out.append(err.as_str());
            out.append("\n");
            assert(out@ == p + ": ERROR: "@ + err@ + "\n"@);
            return out;
        },
        None => {},
    }
    if file.functions.len() == 0 {
        return String::from_str("");
    }
    let mut out = path_text(&file.path);
    let ghost p = out@;
    out.append(" (total complexity: ");
    let tc = decimal_text(file.total_complexity as u64);
    out.append(tc.as_str());
    out.append(", total lines: ");
    let tl = decimal_text(file.total_lines as u64);
    out.append(tl.as_str());
    out.append(", functions: ");
    let fc = decimal_text(file.function_count as u64);
    out.append(fc.as_str());
    out.append(")\n");
    assert(out@ == p + file_heading_tail(*file));

    let table = function_table(&file.functions);
    let drawing = table_text(&table);
    let ghost t = drawing@;
    out.append(drawing.as_str());
    out.append("\n");
    assert(out@ == p + file_heading_tail(*file) + t + "\n"@);
    out
}

} // verus!
