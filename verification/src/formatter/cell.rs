//! The cells of the table: their text, and the three ways in which they are drawn. Titles
//! are bold, the names of groups and kinds are plain, and decisions show as marks.

use vstd::prelude::*;

verus! {

/// The colours that marks are drawn in.
#[derive(Clone, Copy, Debug, PartialEq, Eq, Structural)]
pub enum CellColor {
    /// The terminal's red.
    Red,
    /// A colour of the 256-colour palette.
    Ansi(u8),
}

/// How a cell is drawn.
#[derive(Clone, Copy, Debug, PartialEq, Eq, Structural)]
pub enum CellStyle {
    /// As plain text, aligned with its column.
    Plain,
    /// In bold, aligned with its column.
    Bold,
    /// In a colour, centred in its column.
    Mark(CellColor),
}

/// One cell of the table.
#[derive(Debug, PartialEq, Eq)]
pub struct CellSpec {
    /// The text shown.
    pub text: String,
    /// How the text is drawn.
    pub style: CellStyle,
}

/// What a `CellSpec` holds.
pub struct CellModel {
    pub text: Seq<char>,
    pub style: CellStyle,
}

impl View for CellSpec {
    type V = CellModel;

    open spec fn view(&self) -> CellModel {
        CellModel { text: self.text@, style: self.style }
    }
}

impl DeepView for CellSpec {
    type V = CellModel;

    open spec fn deep_view(&self) -> CellModel {
        self@
    }
}

/// A cell of the header row.
pub open spec fn title_cell(text: Seq<char>) -> CellModel {
    CellModel { text, style: CellStyle::Bold }
}

/// A cell that names the group or the kind of a resource.
pub open spec fn name_cell(text: Seq<char>) -> CellModel {
    CellModel { text, style: CellStyle::Plain }
}

/// The cell of an allowed verb: a check mark in green.
pub open spec fn allowed_cell() -> CellModel {
    CellModel { text: "✔"@, style: CellStyle::Mark(CellColor::Ansi(34)) }
}

/// The cell of a verb that is not allowed, whether denied or without opinion: a cross
/// in red.
pub open spec fn forbidden_cell() -> CellModel {
    CellModel { text: "✖"@, style: CellStyle::Mark(CellColor::Red) }
}

/// The cell of a verb that was not probed: empty.
pub open spec fn unknown_cell() -> CellModel {
    name_cell(""@)
}

impl CellSpec {
    /// A cell of the header row.
    pub fn title(text: &str) -> (cell: CellSpec)
        ensures
            cell@ == title_cell(text@),
    {
        CellSpec { text: text.to_owned(), style: CellStyle::Bold }
    }

    /// A cell that names the group or the kind of a resource.
    pub fn name(text: &str) -> (cell: CellSpec)
        ensures
            cell@ == name_cell(text@),
    {
        CellSpec { text: text.to_owned(), style: CellStyle::Plain }
    }

    /// The cell of an allowed verb.
    pub fn allowed() -> (cell: CellSpec)
        ensures
            cell@ == allowed_cell(),
    {
        CellSpec { text: "✔".to_owned(), style: CellStyle::Mark(CellColor::Ansi(34)) }
    }

    /// The cell of a verb that is not allowed.
    pub fn forbidden() -> (cell: CellSpec)
        ensures
            cell@ == forbidden_cell(),
    {
        CellSpec { text: "✖".to_owned(), style: CellStyle::Mark(CellColor::Red) }
    }

    /// The cell of a verb that was not probed.
    pub fn unknown() -> (cell: CellSpec)
        ensures
            cell@ == unknown_cell(),
    {
        CellSpec::name("")
    }
}

} // verus!
