use comfy_table::{Attribute, Cell, CellAlignment, Color};
use wcid::config::Config;
use wcid::discovery::ResourceDescriptor;
use wcid::formatter::json::{Json, JsonFullResult, JsonResourceResult};
use wcid::formatter::order::sorted_positions;
use wcid::formatter::cell::{CellColor, CellSpec, CellStyle};
use wcid::formatter::pretty::Pretty;
use wcid::formatter::Formatter;
use wcid::types::{CheckResult, FullResult, ResourceCheckResult, VerbMap};
use wcid::verbs::Verb;

fn config(display_group: bool, verbs: Vec<Verb>) -> Config {
    Config {
        display_group,
        namespace: None,
        hide_forbidden: false,
        subresources: false,
        verbs,
        impersonate: None,
    }
}

fn report(group: Option<&str>, kind: &str, results: &[(Verb, bool, bool)]) -> ResourceCheckResult {
    let mut items = VerbMap::new();
    for (verb, allowed, denied) in results {
        items.insert(CheckResult { verb: *verb, allowed: *allowed, denied: *denied });
    }
    ResourceCheckResult {
        resource: ResourceDescriptor {
            group: group.map(|g| g.to_string()),
            version: Some("v1".to_string()),
            kind: kind.to_string(),
            name: format!("{}s", kind.to_lowercase()),
            verbs: Vec::new(),
        },
        items,
    }
}

fn outcome(config: &Config, items: Vec<ResourceCheckResult>) -> FullResult {
    FullResult { config: config.clone(), items }
}

fn title(text: &str) -> CellSpec {
    CellSpec { text: text.to_string(), style: CellStyle::Bold }
}

fn name(text: &str) -> CellSpec {
    CellSpec { text: text.to_string(), style: CellStyle::Plain }
}

fn yes() -> CellSpec {
    CellSpec { text: "✔".to_string(), style: CellStyle::Mark(CellColor::Ansi(34)) }
}

fn no() -> CellSpec {
    CellSpec { text: "✖".to_string(), style: CellStyle::Mark(CellColor::Red) }
}

fn drawn(row: &comfy_table::Row) -> Vec<comfy_table::Cell> {
    row.cell_iter().cloned().collect()
}

fn kinds(rows: &[Vec<CellSpec>], column: usize) -> Vec<String> {
    rows.iter().map(|row| row[column].text.clone()).collect()
}

#[test]
fn the_header_names_kind_and_verbs() {
    let settings = config(false, vec![Verb::Get, Verb::DeleteCollection]);
    let table = Pretty::new(settings.clone(), outcome(&settings, Vec::new()));
    assert_eq!(table.header(), vec![title("Kind"), title("Get"), title("DeleteCollection")]);
}

#[test]
fn the_header_names_the_group_where_it_is_shown() {
    let settings = config(true, vec![Verb::List]);
    let table = Pretty::new(settings.clone(), outcome(&settings, Vec::new()));
    assert_eq!(table.header(), vec![title("Group"), title("Kind"), title("List")]);
}

#[test]
fn the_header_without_verbs_names_the_kind() {
    let settings = config(false, Vec::new());
    let table = Pretty::new(settings.clone(), outcome(&settings, Vec::new()));
    assert_eq!(table.header(), vec![title("Kind")]);
}

#[test]
fn a_row_marks_each_verb() {
    let settings = config(false, vec![Verb::Get, Verb::Delete, Verb::Patch, Verb::List]);
    let reports = vec![report(
        Some("apps"),
        "Deployment",
        &[(Verb::Get, true, false), (Verb::Delete, false, true), (Verb::Patch, false, false)],
    )];
    let table = Pretty::new(settings.clone(), outcome(&settings, reports));
    assert_eq!(table.rows(), vec![vec![name("Deployment"), yes(), no(), no(), name("")]]);
}

#[test]
fn a_row_shows_the_group_where_it_is_shown() {
    let settings = config(true, vec![Verb::Get]);
    let reports = vec![
        report(Some("apps"), "Deployment", &[(Verb::Get, true, false)]),
        report(None, "Pod", &[(Verb::Get, false, false)]),
    ];
    let table = Pretty::new(settings.clone(), outcome(&settings, reports));
    assert_eq!(
        table.rows(),
        vec![
            vec![name(""), name("Pod"), no()],
            vec![name("apps"), name("Deployment"), yes()],
        ]
    );
}

#[test]
fn an_allowed_verb_that_is_also_denied_is_marked_allowed() {
    let settings = config(false, vec![Verb::Get]);
    let reports = vec![report(None, "Pod", &[(Verb::Get, true, true)])];
    let table = Pretty::new(settings.clone(), outcome(&settings, reports));
    assert_eq!(table.rows(), vec![vec![name("Pod"), yes()]]);
}

#[test]
fn rows_are_sorted_by_kind() {
    let settings = config(false, Vec::new());
    let reports = vec![
        report(Some("b"), "Service", &[]),
        report(Some("c"), "Pod", &[]),
        report(Some("a"), "Deployment", &[]),
        report(None, "deployment", &[]),
        report(None, "Pods", &[]),
    ];
    let table = Pretty::new(settings.clone(), outcome(&settings, reports));
    assert_eq!(
        kinds(&table.rows(), 0),
        vec!["Deployment", "Pod", "Pods", "Service", "deployment"]
    );
}

#[test]
fn rows_are_sorted_by_group_then_kind_where_the_group_is_shown() {
    let settings = config(true, Vec::new());
    let reports = vec![
        report(Some("batch"), "Job", &[]),
        report(Some("apps"), "StatefulSet", &[]),
        report(None, "Service", &[]),
        report(Some(""), "Pod", &[]),
        report(Some("apps"), "Deployment", &[]),
        report(None, "ConfigMap", &[]),
    ];
    let table = Pretty::new(settings.clone(), outcome(&settings, reports));
    let rows = table.rows();
    assert_eq!(kinds(&rows, 0), vec!["", "", "", "apps", "apps", "batch"]);
    assert_eq!(
        kinds(&rows, 1),
        vec!["ConfigMap", "Service", "Pod", "Deployment", "StatefulSet", "Job"]
    );
}

#[test]
fn rows_with_equal_keys_keep_their_order() {
    let settings = config(false, vec![Verb::Get]);
    let reports = vec![
        report(Some("z"), "Pod", &[(Verb::Get, true, false)]),
        report(Some("a"), "Pod", &[(Verb::Get, false, false)]),
        report(Some("m"), "Pod", &[]),
    ];
    let table = Pretty::new(settings.clone(), outcome(&settings, reports));
    assert_eq!(
        table.rows(),
        vec![
            vec![name("Pod"), yes()],
            vec![name("Pod"), no()],
            vec![name("Pod"), name("")],
        ]
    );
}

#[test]
fn every_row_is_as_wide_as_the_header() {
    for display_group in [false, true] {
        for verbs in [Vec::new(), vec![Verb::Get], vec![Verb::Get, Verb::Patch, Verb::Get]] {
            let settings = config(display_group, verbs);
            let reports = vec![
                report(Some("apps"), "Deployment", &[(Verb::Get, true, false)]),
                report(None, "Pod", &[]),
                report(Some("batch"), "Job", &[(Verb::Patch, false, true)]),
            ];
            let table = Pretty::new(settings.clone(), outcome(&settings, reports));
            let width = table.header().len();
            let rows = table.rows();
            assert_eq!(rows.len(), 3);
            assert!(rows.iter().all(|row| row.len() == width));
        }
    }
}

#[test]
fn display_order_lists_each_position_once() {
    let reports = vec![
        report(None, "c", &[]),
        report(None, "a", &[]),
        report(None, "b", &[]),
        report(None, "a", &[]),
    ];
    assert_eq!(sorted_positions(false, &reports), vec![1, 3, 2, 0]);
    assert_eq!(sorted_positions(true, &reports), vec![1, 3, 2, 0]);
    assert_eq!(sorted_positions(false, &Vec::new()), Vec::<usize>::new());
}

#[test]
fn display_order_agrees_with_a_stable_sort() {
    let groups = [None, Some(""), Some("apps"), Some("batch"), Some("Apps")];
    let kinds = ["Pod", "pod", "Job", "", "Pods", "Job"];
    let mut reports = Vec::new();
    for (i, kind) in kinds.iter().enumerate() {
        for (j, group) in groups.iter().enumerate() {
            if (i + j) % 2 == 0 {
                reports.push(report(*group, kind, &[]));
            }
        }
    }
    let mut by_kind: Vec<usize> = (0..reports.len()).collect();
    by_kind.sort_by(|a, b| reports[*a].resource.kind.cmp(&reports[*b].resource.kind));
    assert_eq!(sorted_positions(false, &reports), by_kind);
    let mut by_group: Vec<usize> = (0..reports.len()).collect();
    by_group.sort_by(|a, b| {
        let (x, y) = (&reports[*a].resource, &reports[*b].resource);
        x.group.cmp(&y.group).then(x.kind.cmp(&y.kind))
    });
    assert_eq!(sorted_positions(true, &reports), by_group);
}

#[test]
fn cells_are_made_in_their_styles() {
    assert_eq!(CellSpec::title("Kind"), title("Kind"));
    assert_eq!(CellSpec::name("Pod"), name("Pod"));
    assert_eq!(CellSpec::allowed(), yes());
    assert_eq!(CellSpec::forbidden(), no());
    assert_eq!(CellSpec::unknown(), name(""));
}

#[test]
fn the_table_holds_the_header_and_the_rows() {
    let settings = config(true, vec![Verb::Get, Verb::Delete, Verb::List]);
    let reports = vec![
        report(Some("apps"), "Deployment", &[(Verb::Get, true, false), (Verb::Delete, false, true)]),
        report(None, "Pod", &[(Verb::Get, false, false), (Verb::Delete, true, false)]),
    ];
    let mut table = Pretty::new(settings.clone(), outcome(&settings, reports)).table();
    let bold = |text: &str| Cell::new(text).add_attribute(Attribute::Bold);
    let yes = || Cell::new("✔").fg(Color::AnsiValue(34)).set_alignment(CellAlignment::Center);
    let no = || Cell::new("✖").fg(Color::Red).set_alignment(CellAlignment::Center);
    assert_eq!(
        drawn(table.header().expect("the table has a header")),
        vec![bold("Group"), bold("Kind"), bold("Get"), bold("Delete"), bold("List")]
    );
    let rows: Vec<Vec<Cell>> = table.row_iter().map(drawn).collect();
    assert_eq!(
        rows,
        vec![
            vec![Cell::new(""), Cell::new("Pod"), no(), yes(), Cell::new("")],
            vec![Cell::new("apps"), Cell::new("Deployment"), yes(), no(), Cell::new("")],
        ]
    );
    assert_eq!(table.current_style_as_preset(), comfy_table::presets::NOTHING);
}

#[test]
fn the_table_is_drawn_with_header_and_rows() {
    let settings = config(true, vec![Verb::Get, Verb::Delete]);
    let reports = vec![
        report(Some("apps"), "Deployment", &[(Verb::Get, true, false), (Verb::Delete, false, true)]),
        report(None, "Pod", &[(Verb::Get, false, false)]),
    ];
    let drawn = Pretty::new(settings.clone(), outcome(&settings, reports)).table().to_string();
    let lines: Vec<&str> = drawn.lines().collect();
    assert_eq!(lines.len(), 3);
    let words: Vec<Vec<&str>> = lines.iter().map(|l| l.split_whitespace().collect()).collect();
    assert_eq!(words[0], vec!["Group", "Kind", "Get", "Delete"]);
    assert_eq!(words[1], vec!["Pod", "✖"]);
    assert_eq!(words[2], vec!["apps", "Deployment", "✔", "✖"]);
}

#[test]
fn the_table_without_reports_is_its_header() {
    let settings = config(false, vec![Verb::Get]);
    let drawn = Pretty::new(settings.clone(), outcome(&settings, Vec::new())).table().to_string();
    let words: Vec<&str> = drawn.split_whitespace().collect();
    assert_eq!(words, vec!["Kind", "Get"]);
}

#[test]
fn a_record_holds_group_kind_and_whether_each_verb_is_allowed() {
    let record = JsonResourceResult::from(report(
        Some("apps"),
        "Deployment",
        &[(Verb::Patch, false, true), (Verb::Get, true, false), (Verb::List, false, false)],
    ));
    assert_eq!(
        record,
        JsonResourceResult {
            group: "apps".to_string(),
            kind: "Deployment".to_string(),
            verb_allowed: vec![
                ("get".to_string(), true),
                ("list".to_string(), false),
                ("patch".to_string(), false),
            ],
        }
    );
}

#[test]
fn a_record_of_the_legacy_api_has_an_empty_group() {
    let record = JsonResourceResult::from(report(None, "Pod", &[]));
    assert_eq!(
        record,
        JsonResourceResult {
            group: String::new(),
            kind: "Pod".to_string(),
            verb_allowed: Vec::new(),
        }
    );
}

#[test]
fn denied_and_no_opinion_are_both_not_allowed_in_the_document() {
    let denied = JsonResourceResult::from(report(None, "Pod", &[(Verb::Get, false, true)]));
    let silent = JsonResourceResult::from(report(None, "Pod", &[(Verb::Get, false, false)]));
    assert_eq!(denied, silent);
    assert_eq!(denied.verb_allowed, vec![("get".to_string(), false)]);
}

#[test]
fn the_document_holds_a_record_for_each_report_in_order() {
    let settings = config(false, vec![Verb::Get]);
    let reports = vec![
        report(Some("b"), "Service", &[(Verb::Get, true, false)]),
        report(None, "Pod", &[(Verb::Get, false, false)]),
    ];
    let document = JsonFullResult::from(outcome(&settings, reports));
    assert_eq!(
        document,
        JsonFullResult {
            items: vec![
                JsonResourceResult {
                    group: "b".to_string(),
                    kind: "Service".to_string(),
                    verb_allowed: vec![("get".to_string(), true)],
                },
                JsonResourceResult {
                    group: String::new(),
                    kind: "Pod".to_string(),
                    verb_allowed: vec![("get".to_string(), false)],
                },
            ],
        }
    );
}

#[test]
fn the_structured_rendering_holds_the_document() {
    let settings = config(false, vec![Verb::Get]);
    let reports = vec![report(None, "Pod", &[(Verb::Get, true, false)])];
    let json = Json::new(outcome(&settings, reports.clone()));
    assert_eq!(json.document(), &JsonFullResult::from(outcome(&settings, reports)));
    assert_eq!(Json::new(outcome(&settings, Vec::new())).document().items.len(), 0);
}

#[test]
fn the_format_json_gives_the_structured_rendering() {
    let settings = config(false, vec![Verb::Get]);
    let reports = vec![report(None, "Pod", &[(Verb::Get, true, false)])];
    let formatter = Formatter::new("json".to_string(), settings.clone(), outcome(&settings, reports));
    match formatter {
        Formatter::Json(json) => assert_eq!(json.document().items.len(), 1),
        Formatter::Pretty(_) => panic!("a table for the format json"),
    }
}

#[test]
fn any_other_format_gives_the_table() {
    for format in ["pretty", "", "JSON", "json ", "yaml"] {
        let settings = config(false, vec![Verb::Get]);
        let reports = vec![report(None, "Pod", &[(Verb::Get, true, false)])];
        let formatter =
            Formatter::new(format.to_string(), settings.clone(), outcome(&settings, reports));
        match formatter {
            Formatter::Pretty(table) => {
                assert_eq!(table.rows(), vec![vec![name("Pod"), yes()]])
            }
            Formatter::Json(_) => panic!("a document for the format {:?}", format),
        }
    }
}
