//! The outcome of a run as a structured document: for each report its group, its kind,
//! and whether each probed verb is allowed.

use crate::formatter::pretty::group_text;
use crate::text::lower;
use crate::types::{Decision, FullResult, FullResultModel, ReportModel, ResourceCheckResult};
use crate::verbs::{all_verbs, vocabulary, Verb};
use vstd::prelude::*;

verus! {

/// The record of one report.
#[derive(Debug, PartialEq, Eq)]
pub struct JsonResourceResult {
    /// The API group; empty for the legacy API.
    pub group: String,
    /// The kind.
    pub kind: String,
    /// For each verb probed, under its lower-case name, whether it is allowed; in the
    /// order of the vocabulary.
    pub verb_allowed: Vec<(String, bool)>,
}

/// What a `JsonResourceResult` holds.
pub struct JsonRecordModel {
    pub group: Seq<char>,
    pub kind: Seq<char>,
    pub verb_allowed: Seq<(Seq<char>, bool)>,
}

impl View for JsonResourceResult {
    type V = JsonRecordModel;

    open spec fn view(&self) -> JsonRecordModel {
        JsonRecordModel {
            group: self.group@,
            kind: self.kind@,
            verb_allowed: self.verb_allowed.deep_view(),
        }
    }
}

impl DeepView for JsonResourceResult {
    type V = JsonRecordModel;

    open spec fn deep_view(&self) -> JsonRecordModel {
        self@
    }
}

/// The document of a run's outcome: one record for each report, in their order.
#[derive(Debug, PartialEq, Eq)]
pub struct JsonFullResult {
    /// The records.
    pub items: Vec<JsonResourceResult>,
}

impl View for JsonFullResult {
    type V = Seq<JsonRecordModel>;

    open spec fn view(&self) -> Seq<JsonRecordModel> {
        self.items.deep_view()
    }
}

/// The entry of `verb` in a record: its lower-case name and whether it is allowed, if
/// it was probed.
pub open spec fn verb_entry(items: Map<Verb, Decision>, verb: Verb) -> Option<(Seq<char>, bool)> {
    if items.dom().contains(verb) {
        Some((lower(verb.label()), items[verb].allowed))
    } else {
        None
    }
}

/// The entries of a record: one for each verb probed, in the order of the vocabulary.
pub open spec fn verb_entries(items: Map<Verb, Decision>) -> Seq<(Seq<char>, bool)> {
    vocabulary().filter_map(|v: Verb| verb_entry(items, v))
}

/// The record of a report.
pub open spec fn record_of(report: ReportModel) -> JsonRecordModel {
    JsonRecordModel {
        group: group_text(report.resource.group),
        kind: report.resource.kind,
        verb_allowed: verb_entries(report.items),
    }
}

/// The document of an outcome.
pub open spec fn document_of(result: FullResultModel) -> Seq<JsonRecordModel> {
    result.items.map_values(|r: ReportModel| record_of(r))
}

impl JsonResourceResult {
    /// The record of `value`: its group, its kind, and for each verb probed whether it
    /// is allowed.
    pub fn from(value: ResourceCheckResult) -> (r: Self)
        ensures
            r@ == record_of(value@),
    {
        let ghost items = value.items@;
        let ghost each = |v: Verb| verb_entry(items, v);
        let all = all_verbs();
        let mut verb_allowed: Vec<(String, bool)> = Vec::new();
        let mut i: usize = 0;
        proof {
            assert(vocabulary().take(0) =~= Seq::<Verb>::empty());
            assert(verb_allowed.deep_view() =~= Seq::<(Seq<char>, bool)>::empty());
        }
        while i < all.len()
            invariant
                i <= all.len(),
                all@ == vocabulary(),
                items == value.items@,
                each == |v: Verb| verb_entry(items, v),
                verb_allowed.deep_view() == vocabulary().take(i as int).filter_map(each),
            decreases all.len() - i,
        {
            proof {
                vocabulary().lemma_filter_map_take_succ(each, i as int);
            }
            let verb = all[i];
            match value.items.get(verb) {
                Some(found) => {
                    let ghost before = verb_allowed.deep_view();
                    verb_allowed.push((verb.wire_name().to_owned(), found.allowed));
                    assert(verb_allowed.deep_view() =~= before + seq![
                        (lower(verb.label()), items[verb].allowed),
                    ]);
                },
                None => {},
            }
            i += 1;
        }
        assert(vocabulary().take(all.len() as int) =~= vocabulary());
        let group = match value.resource.group {
            Some(name) => name,
            None => "".to_owned(),
        };
        JsonResourceResult { group, kind: value.resource.kind, verb_allowed }
    }
}

impl JsonFullResult {
    /// The document of `value`: the record of each report, in their order.
    pub fn from(value: FullResult) -> (r: Self)
        ensures
            r@ == document_of(value@),
    {
        let ghost reports = value.items.deep_view();
        let mut items: Vec<JsonResourceResult> = Vec::new();
        let mut i: usize = 0;
        while i < value.items.len()
            invariant
                i <= value.items.len(),
                items.len() == i,
                reports == value.items.deep_view(),
                forall|j: int| 0 <= j < i ==> (#[trigger] items@[j])@ == record_of(reports[j]),
            decreases value.items.len() - i,
        {
            items.push(JsonResourceResult::from(value.items[i].clone()));
            i += 1;
        }
        assert(items.deep_view() =~= document_of(value@));
        JsonFullResult { items }
    }
}

/// The structured rendering of a run's outcome.
#[derive(Debug)]
pub struct Json {
    result: JsonFullResult,
}

impl Json {
    /// The records that the rendering holds.
    pub closed spec fn records(&self) -> Seq<JsonRecordModel> {
        self.result@
    }

    /// The structured rendering of `full_result`.
    pub fn new(full_result: FullResult) -> (r: Self)
        ensures
            r.records() == document_of(full_result@),
    {
        Json { result: JsonFullResult::from(full_result) }
    }

    /// The document to serialise.
    pub fn document(&self) -> (r: &JsonFullResult)
        ensures
            r@ == self.records(),
    {
        &self.result
    }
}

} // verus!
