//! The calls into `comfy_table` that build a table. Verus takes the contracts of this
//! file on trust.
//!
//! A row and a table are known to Verus by what they hold: the cells of a row, the cells
//! of the header, the rows, the characters of the borders. Drawing the table is left to
//! the caller: what `comfy_table` draws depends on the terminal.

use crate::formatter::cell::{CellColor, CellModel, CellStyle};
use comfy_table::{Attribute, Cell, CellAlignment, Color, Row, Table};
use vstd::prelude::*;

verus! {

/// `comfy_table::Table`.
#[verifier::external_type_specification]
#[verifier::external_body]
pub struct ExTable(comfy_table::Table);

/// `comfy_table::Row`.
#[verifier::external_type_specification]
#[verifier::external_body]
pub struct ExRow(comfy_table::Row);

/// The cells that a row holds, in order. Of a cell it tells the text and the style:
/// `Bold` for a cell whose one attribute is bold, `Mark` for a cell with a foreground
/// colour and centred alignment, `Plain` for a cell with neither.
pub uninterp spec fn row_cells(row: Row) -> Seq<CellModel>;

/// The cells of the header of a table; none for a table without header.
pub uninterp spec fn table_header(table: Table) -> Seq<CellModel>;

/// The cells of the rows of a table, row after row.
pub uninterp spec fn table_rows(table: Table) -> Seq<Seq<CellModel>>;

/// The characters that a table draws its borders and separators with; none for a table
/// that draws no border and no separator.
pub uninterp spec fn border_chars(table: Table) -> Set<char>;

/// `comfy_table::Row::new`: a row without cells.
#[verifier::external_body]
pub(crate) fn new_row() -> (row: Row)
    ensures
        row_cells(row) == Seq::<CellModel>::empty(),
{
    Row::new()
}

/// `comfy_table::Row::add_cell`: adds a cell at the end of the row. The cell is made by
/// `Cell::new` from `text`; a bold one gets its attribute by `add_attribute`, a mark its
/// colour by `fg` and its centred alignment by `set_alignment`.
#[verifier::external_body]
pub(crate) fn add_cell(row: &mut Row, text: &str, style: CellStyle)
    ensures
        row_cells(*final(row)) == row_cells(*old(row)).push(CellModel { text: text@, style }),
{
    row.add_cell(
        match style {
            CellStyle::Plain => Cell::new(text),
            CellStyle::Bold => Cell::new(text).add_attribute(Attribute::Bold),
            CellStyle::Mark(CellColor::Red) => Cell::new(text).fg(Color::Red).set_alignment(
                CellAlignment::Center,
            ),
            CellStyle::Mark(CellColor::Ansi(value)) => Cell::new(text).fg(
                Color::AnsiValue(value),
            ).set_alignment(CellAlignment::Center),
        },
    );
}

/// `comfy_table::Table::new`: a table without header and without rows.
#[verifier::external_body]
pub(crate) fn new_table() -> (table: Table)
    ensures
        table_header(table) == Seq::<CellModel>::empty(),
        table_rows(table) == Seq::<Seq<CellModel>>::empty(),
{
    Table::new()
}

/// `comfy_table::Table::load_preset` with the crate's preset `NOTHING`, which takes
/// the character of every border and separator away. The table holds what it held.
#[verifier::external_body]
pub(crate) fn hide_borders(table: &mut Table)
    ensures
        border_chars(*final(table)) == Set::<char>::empty(),
        table_header(*final(table)) == table_header(*old(table)),
        table_rows(*final(table)) == table_rows(*old(table)),
{
    table.load_preset(comfy_table::presets::NOTHING);
}

/// `comfy_table::Table::set_header`: makes `row` the header. The rows and the borders
/// stay.
#[verifier::external_body]
pub(crate) fn set_header(table: &mut Table, row: Row)
    ensures
        table_header(*final(table)) == row_cells(row),
        table_rows(*final(table)) == table_rows(*old(table)),
        border_chars(*final(table)) == border_chars(*old(table)),
{
    table.set_header(row);
}

/// `comfy_table::Table::add_row`: adds `row` after the rows that are there. The header
/// and the borders stay.
#[verifier::external_body]
pub(crate) fn add_row(table: &mut Table, row: Row)
    ensures
        table_header(*final(table)) == table_header(*old(table)),
        table_rows(*final(table)) == table_rows(*old(table)).push(row_cells(row)),
        border_chars(*final(table)) == border_chars(*old(table)),
{
    table.add_row(row);
}

} // verus!
