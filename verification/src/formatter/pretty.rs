//! The outcome of a run as a table: a row for each report, a column for each verb.

use crate::config::{Config, ConfigModel};
use crate::formatter::order::{
    display_order, lemma_display_order_exists, positions, sorted_positions,
};
use crate::formatter::cell::{
    allowed_cell, forbidden_cell, name_cell, title_cell, unknown_cell, CellModel, CellSpec,
};
use crate::formatter::table::{
    add_cell, add_row, border_chars, hide_borders, new_row, new_table, row_cells, set_header,
    table_header, table_rows,
};
use crate::types::{Decision, FullResult, FullResultModel, ReportModel, ResourceCheckResult};
use crate::verbs::Verb;
use vstd::prelude::*;

verus! {

/// The cell that shows what was decided on `verb`.
pub open spec fn verb_cell(items: Map<Verb, Decision>, verb: Verb) -> CellModel {
    if !items.dom().contains(verb) {
        unknown_cell()
    } else if items[verb].allowed {
        allowed_cell()
    } else {
        forbidden_cell()
    }
}

/// The cells before the verb columns: the group, where it is shown, and `kind`.
pub open spec fn leading_cells(
    display_group: bool,
    group: CellModel,
    kind: CellModel,
) -> Seq<CellModel> {
    if display_group {
        seq![group, kind]
    } else {
        seq![kind]
    }
}

/// The header row: `Group`, where the group is shown, `Kind`, and the name of each verb
/// of the configuration.
pub open spec fn header_of(config: ConfigModel) -> Seq<CellModel> {
    leading_cells(config.display_group, title_cell("Group"@), title_cell("Kind"@))
        + config.verbs.map_values(|v: Verb| title_cell(v.label()))
}

/// The text under which a group is shown: its name, or nothing for the legacy API.
pub open spec fn group_text(group: Option<Seq<char>>) -> Seq<char> {
    match group {
        Some(name) => name,
        None => ""@,
    }
}

/// The row of one report: its group, where the group is shown, its kind, and a cell for
/// each verb of the configuration.
pub open spec fn row_of(config: ConfigModel, report: ReportModel) -> Seq<CellModel> {
    leading_cells(
        config.display_group,
        name_cell(group_text(report.resource.group)),
        name_cell(report.resource.kind),
    ) + config.verbs.map_values(|v: Verb| verb_cell(report.items, v))
}

/// The rows of the table: the row of each report, in the order of display.
pub open spec fn rows_of(config: ConfigModel, items: Seq<ReportModel>) -> Seq<Seq<CellModel>> {
    display_order(config.display_group, items).map_values(|at: int| row_of(config, items[at]))
}

/// The table has a row for each report, and each row has a cell for each column of the
/// header.
pub proof fn lemma_table_is_rectangular(config: ConfigModel, items: Seq<ReportModel>)
    ensures
        rows_of(config, items).len() == items.len(),
        forall|i: int|
            0 <= i < items.len() ==> (#[trigger] rows_of(config, items)[i]).len() == header_of(
                config,
            ).len(),
{
    lemma_display_order_exists(config.display_group, items);
}

/// The cells that rows hold.
pub open spec fn rows_view(rows: Seq<Vec<CellSpec>>) -> Seq<Seq<CellModel>> {
    rows.map_values(|row: Vec<CellSpec>| row.deep_view())
}

/// The table rendering of a run's outcome.
#[derive(Debug)]
pub struct Pretty {
    config: Config,
    result: FullResult,
}

/// The cell that shows what was decided on `verb`.
fn decision_cell(report: &ResourceCheckResult, verb: Verb) -> (cell: CellSpec)
    ensures
        cell@ == verb_cell(report@.items, verb),
{
    match report.items.get(verb) {
        Some(found) => {
            if found.allowed {
                CellSpec::allowed()
            } else {
                CellSpec::forbidden()
            }
        },
        None => CellSpec::unknown(),
    }
}

/// The row of `report`.
fn row(config: &Config, report: &ResourceCheckResult) -> (cells: Vec<CellSpec>)
    ensures
        cells.deep_view() == row_of(config@, report@),
{
    let mut cells: Vec<CellSpec> = Vec::new();
    if config.display_group {
        match &report.resource.group {
            Some(group) => cells.push(CellSpec::name(group.as_str())),
            None => cells.push(CellSpec::name("")),
        }
    }
    cells.push(CellSpec::name(report.resource.kind.as_str()));
    let ghost lead = cells.deep_view();
    let ghost each = |v: Verb| verb_cell(report@.items, v);
    assert(lead =~= leading_cells(
        config.display_group,
        name_cell(group_text(report@.resource.group)),
        name_cell(report@.resource.kind),
    ));
    let mut i: usize = 0;
    assert(cells.deep_view() =~= lead + config.verbs@.take(0).map_values(each));
    while i < config.verbs.len()
        invariant
            i <= config.verbs.len(),
            each == |v: Verb| verb_cell(report@.items, v),
            cells.deep_view() == lead + config.verbs@.take(i as int).map_values(each),
        decreases config.verbs.len() - i,
    {
        let ghost before = cells.deep_view();
        let cell = decision_cell(report, config.verbs[i]);
        cells.push(cell);
        assert(cells.deep_view() =~= before + seq![cell@]);
        assert(config.verbs@.take(i + 1).map_values(each) =~= config.verbs@.take(i as int).map_values(
            each,
        ) + seq![cell@]);
        i += 1;
    }
    assert(config.verbs@.take(config.verbs.len() as int) =~= config.verbs@);
    cells
}

/// The row of `comfy_table` that holds `cells`.
fn draw_row(cells: &Vec<CellSpec>) -> (row: comfy_table::Row)
    ensures
        row_cells(row) == cells.deep_view(),
{
    let mut row = new_row();
    let mut i: usize = 0;
    assert(cells.deep_view().take(0) =~= Seq::<CellModel>::empty());
    while i < cells.len()
        invariant
            i <= cells.len(),
            row_cells(row) == cells.deep_view().take(i as int),
        decreases cells.len() - i,
    {
        add_cell(&mut row, cells[i].text.as_str(), cells[i].style);
        assert(cells.deep_view().take(i + 1) =~= cells.deep_view().take(i as int).push(cells@[i as int]@));
        i += 1;
    }
    assert(cells.deep_view().take(cells.len() as int) =~= cells.deep_view());
    row
}

impl Pretty {
    /// The configuration that the table is drawn under.
    pub closed spec fn config(&self) -> ConfigModel {
        self.config@
    }

    /// The outcome that the table shows.
    pub closed spec fn result(&self) -> FullResultModel {
        self.result@
    }

    /// The table rendering of `result`, with the columns that `config` asks for.
    pub fn new(config: Config, result: FullResult) -> (r: Self)
        ensures
            r.config() == config@,
            r.result() == result@,
    {
        Pretty { config, result }
    }

    /// The header row: `Group`, where the group is shown, `Kind`, and the name of each
    /// verb of the configuration.
    pub fn header(&self) -> (cells: Vec<CellSpec>)
        ensures
            cells.deep_view() == header_of(self.config()),
    {
        let mut cells: Vec<CellSpec> = Vec::new();
        if self.config.display_group {
            cells.push(CellSpec::title("Group"));
        }
        cells.push(CellSpec::title("Kind"));
        let ghost lead = cells.deep_view();
        let ghost each = |v: Verb| title_cell(v.label());
        assert(lead =~= leading_cells(
            self.config.display_group,
            title_cell("Group"@),
            title_cell("Kind"@),
        ));
        let mut i: usize = 0;
        assert(cells.deep_view() =~= lead + self.config.verbs@.take(0).map_values(each));
        while i < self.config.verbs.len()
            invariant
                i <= self.config.verbs.len(),
                each == |v: Verb| title_cell(v.label()),
                cells.deep_view() == lead + self.config.verbs@.take(i as int).map_values(each),
            decreases self.config.verbs.len() - i,
        {
            let ghost before = cells.deep_view();
            let cell = CellSpec::title(self.config.verbs[i].name());
            cells.push(cell);
            assert(cells.deep_view() =~= before + seq![cell@]);
            assert(self.config.verbs@.take(i + 1).map_values(each)
                =~= self.config.verbs@.take(i as int).map_values(each) + seq![cell@]);
            i += 1;
        }
        assert(self.config.verbs@.take(self.config.verbs.len() as int) =~= self.config.verbs@);
        cells
    }

    /// The rows under the header: one for each report, sorted by kind, or by group and
    /// then kind where the group is shown; reports that compare equal keep the order of
    /// the run. A row holds the group, where it is shown, the kind, and for each verb of
    /// the configuration the mark of what was decided: allowed, not allowed, or nothing
    /// where the verb was not probed.
    pub fn rows(&self) -> (rows: Vec<Vec<CellSpec>>)
        ensures
            rows_view(rows@) == rows_of(self.config(), self.result().items),
    {
        let order = sorted_positions(self.config.display_group, &self.result.items);
        let ghost config = self.config@;
        let ghost items = self.result.items.deep_view();
        let ghost each = |at: int| row_of(config, items[at]);
        let mut rows: Vec<Vec<CellSpec>> = Vec::new();
        let mut i: usize = 0;
        assert(rows_view(rows@) =~= positions(order@).take(0).map_values(each));
        while i < order.len()
            invariant
                i <= order.len(),
                config == self.config@,
                items == self.result.items.deep_view(),
                each == |at: int| row_of(config, items[at]),
                order.len() == self.result.items.len(),
                forall|j: int| 0 <= j < order.len() ==> 0 <= #[trigger] positions(order@)[j] < items.len(),
                rows_view(rows@) == positions(order@).take(i as int).map_values(each),
            decreases order.len() - i,
        {
            let at = order[i];
            assert(positions(order@)[i as int] == at);
            let cells = row(&self.config, &self.result.items[at]);
            let ghost before = rows_view(rows@);
            rows.push(cells);
            assert(rows_view(rows@) =~= before + seq![cells.deep_view()]);
            assert(positions(order@).take(i + 1).map_values(each) =~= positions(order@).take(
                i as int,
            ).map_values(each) + seq![cells.deep_view()]);
            i += 1;
        }
        assert(positions(order@).take(order.len() as int) =~= positions(order@));
        rows
    }

    /// The table of `comfy_table` that holds the header and the rows, and draws no border
    /// and no separator. It is ready to be drawn: its `Display` gives the text, as wide and
    /// as coloured as the terminal allows.
    pub fn table(&self) -> (table: comfy_table::Table)
        ensures
            table_header(table) == header_of(self.config()),
            table_rows(table) == rows_of(self.config(), self.result().items),
            border_chars(table) == Set::<char>::empty(),
    {
        let mut table = new_table();
        hide_borders(&mut table);
        let header = self.header();
        set_header(&mut table, draw_row(&header));
        let rows = self.rows();
        let mut i: usize = 0;
        assert(rows_view(rows@).take(0) =~= Seq::<Seq<CellModel>>::empty());
        while i < rows.len()
            invariant
                i <= rows.len(),
                border_chars(table) == Set::<char>::empty(),
                table_header(table) == header_of(self.config()),
                table_rows(table) == rows_view(rows@).take(i as int),
            decreases rows.len() - i,
        {
            add_row(&mut table, draw_row(&rows[i]));
            assert(rows_view(rows@).take(i + 1) =~= rows_view(rows@).take(i as int).push(
                rows@[i as int].deep_view(),
            ));
            i += 1;
        }
        assert(rows_view(rows@).take(rows.len() as int) =~= rows_view(rows@));
        table
    }
}

} // verus!
