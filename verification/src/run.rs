//! A run as a whole: what it reports, as a function of the catalog, the configuration
//! and the answers to its queries; and what holds of every run.

use crate::check::{
    contribution, decision_of, is_shown, outcomes_view, report_view, shown_reports, takes_part,
    targets, Checker, ReviewStatus, UnitModel,
};
use crate::config::ConfigModel;
use crate::discovery::{ResourceDescriptor, ResourceModel};
use crate::text::has_char;
use crate::types::{allows_any, FullResult, FullResultModel, ReportModel, ResourceCheckResult};
use crate::verbs::Verb;
use vstd::prelude::*;

verus! {

/// What the check of `resource` reports, given the outcomes of its queries in the order
/// in which they were made: an answer, or `None` for a query that failed.
pub open spec fn unit_outcome(
    config: ConfigModel,
    resource: ResourceModel,
    answers: Seq<Option<ReviewStatus>>,
) -> Option<ReportModel> {
    UnitModel::start(config, resource).record_all(answers).report()
}

/// The outcomes of the queries of the `i`-th unit; none where `answers` holds none for it.
pub open spec fn answers_of(answers: Seq<Seq<Option<ReviewStatus>>>, i: int) -> Seq<
    Option<ReviewStatus>,
> {
    if 0 <= i < answers.len() {
        answers[i]
    } else {
        Seq::empty()
    }
}

/// What the units of a run report: `answers[i]` holds the outcomes of the queries of the
/// unit of the `i`-th resource kind that takes part.
pub open spec fn unit_outcomes(
    config: ConfigModel,
    catalog: Seq<ResourceModel>,
    answers: Seq<Seq<Option<ReviewStatus>>>,
) -> Seq<Option<ReportModel>> {
    let units = targets(config, catalog);
    Seq::new(units.len(), |i: int| unit_outcome(config, units[i], answers_of(answers, i)))
}

/// The outcome of a run over `catalog` under `config`.
pub open spec fn run_outcome(
    config: ConfigModel,
    catalog: Seq<ResourceModel>,
    answers: Seq<Seq<Option<ReviewStatus>>>,
) -> FullResultModel {
    FullResultModel {
        config,
        items: shown_reports(config, unit_outcomes(config, catalog, answers)),
    }
}

/// Whether the first `n` of `answers` are there and none of them is a failure.
pub open spec fn all_answered(answers: Seq<Option<ReviewStatus>>, n: int) -> bool {
    n <= answers.len() && forall|i: int| 0 <= i < n ==> (#[trigger] answers[i]) is Some
}

/// The smaller of the two.
spec fn least(a: int, b: int) -> int {
    if a <= b {
        a
    } else {
        b
    }
}

/// What holds of a unit after any outcomes: it keeps its resource and its verbs; it has
/// failed exactly if one of the queries it made failed; otherwise it holds a decision
/// for exactly the verbs it has asked about, for each the one of the last query on it.
proof fn lemma_unit_state(
    config: ConfigModel,
    resource: ResourceModel,
    answers: Seq<Option<ReviewStatus>>,
)
    ensures
        ({
            let unit = UnitModel::start(config, resource).record_all(answers);
            let made = least(answers.len() as int, config.verbs.len() as int);
            &&& unit.resource == resource
            &&& unit.verbs == config.verbs
            &&& unit.answered <= made
            &&& unit.failed <==> !all_answered(answers, made)
            &&& !unit.failed ==> unit.answered == made
            &&& forall|v: Verb|
                unit.items.dom().contains(v) <==> exists|i: int|
                    0 <= i < unit.answered && #[trigger] config.verbs[i] == v
            &&& forall|i: int|
                0 <= i < unit.answered && (forall|j: int|
                    i < j < unit.answered ==> config.verbs[j] != config.verbs[i])
                    ==> answers[i] is Some && unit.items[#[trigger] config.verbs[i]]
                    == decision_of(answers[i]->0)
        }),
    decreases answers.len(),
{
    if answers.len() > 0 {
        let earlier = answers.drop_last();
        lemma_unit_state(config, resource, earlier);
        let before = UnitModel::start(config, resource).record_all(earlier);
        let unit = before.record(answers.last());
        let made_before = least(earlier.len() as int, config.verbs.len() as int);
        let made = least(answers.len() as int, config.verbs.len() as int);
        assert forall|i: int| 0 <= i < made_before implies earlier[i] == answers[i] by {
            // `earlier` is `answers` without its last
        }
        if before.pending() {
            let at = before.answered as int;
            assert(at == earlier.len());
            assert(answers[at] == answers.last());
            match answers.last() {
                Some(status) => {
                    assert(all_answered(answers, made));
                    assert forall|v: Verb| unit.items.dom().contains(v) implies exists|i: int|
                        0 <= i < unit.answered && #[trigger] config.verbs[i] == v by {
                        if v == config.verbs[at] {
                        } else {
                            let i = choose|i: int| 0 <= i < at && #[trigger] config.verbs[i] == v;
                            assert(config.verbs[i] == v);
                        }
                    }
                },
                None => {
                    assert(!all_answered(answers, made));
                },
            }
        } else {
            if before.failed {
                let bad = choose|i: int| 0 <= i < made_before && !((#[trigger] earlier[i]) is Some);
                assert(!(answers[bad] is Some));
            } else {
                assert(made == made_before);
            }
        }
    }
}

/// A unit reports exactly when each of its verbs got an answer. Its report is on its own
/// resource and holds a decision for exactly its verbs: for a verb that is probed once,
/// the decision that the answer to its query carries.
pub proof fn lemma_unit_outcome(
    config: ConfigModel,
    resource: ResourceModel,
    answers: Seq<Option<ReviewStatus>>,
)
    ensures
        unit_outcome(config, resource, answers) is Some <==> all_answered(
            answers,
            config.verbs.len() as int,
        ),
        unit_outcome(config, resource, answers) matches Some(report) ==> {
            &&& report.resource == resource
            &&& forall|v: Verb| report.items.dom().contains(v) <==> config.verbs.contains(v)
            &&& forall|i: int|
                0 <= i < config.verbs.len() && (forall|j: int|
                    i < j < config.verbs.len() ==> config.verbs[j] != config.verbs[i])
                    ==> report.items[#[trigger] config.verbs[i]] == decision_of(answers[i]->0)
        },
{
    lemma_unit_state(config, resource, answers);
    let unit = UnitModel::start(config, resource).record_all(answers);
    if let Some(report) = unit.report() {
        assert forall|v: Verb| report.items.dom().contains(v) <==> config.verbs.contains(v) by {
            if config.verbs.contains(v) {
                let i = choose|i: int| 0 <= i < config.verbs.len() && config.verbs[i] == v;
                assert(config.verbs[i] == v);
            }
        }
    }
}

/// What a unit contributes to the shown reports is among them.
proof fn lemma_shown_reports_keep(
    config: ConfigModel,
    outcomes: Seq<Option<ReportModel>>,
    at: int,
)
    requires
        0 <= at < outcomes.len(),
        contribution(config, outcomes[at]) is Some,
    ensures
        shown_reports(config, outcomes).contains(contribution(config, outcomes[at])->0),
    decreases outcomes.len(),
{
    let each = |o: Option<ReportModel>| contribution(config, o);
    let rest = outcomes.drop_last();
    if at == outcomes.len() - 1 {
        let all = shown_reports(config, outcomes);
        assert(all[all.len() - 1] == each(outcomes[at])->0);
    } else {
        lemma_shown_reports_keep(config, rest, at);
        let kept = shown_reports(config, rest);
        let i = choose|i: int| 0 <= i < kept.len() && kept[i] == each(rest[at])->0;
        assert(shown_reports(config, outcomes)[i] == kept[i]);
    }
}

/// Every shown report is one that a unit reported, and is one to show.
pub proof fn lemma_shown_reports_were_reported(
    config: ConfigModel,
    outcomes: Seq<Option<ReportModel>>,
    report: ReportModel,
)
    requires
        shown_reports(config, outcomes).contains(report),
    ensures
        outcomes.contains(Some(report)),
        is_shown(config, report),
{
    let each = |o: Option<ReportModel>| contribution(config, o);
    outcomes.lemma_filter_map_contains(each, report);
    let o = choose|o: Option<ReportModel>| #[trigger] outcomes.contains(o) && each(o) == Some(report);
    assert(o == Some(report));
}

/// Hiding what is forbidden: a report that allows no verb is among the shown reports
/// when nothing is hidden and not among them when the forbidden is hidden; a report that
/// allows a verb is among them either way.
pub proof fn lemma_hide_forbidden(
    config: ConfigModel,
    outcomes: Seq<Option<ReportModel>>,
    report: ReportModel,
)
    requires
        outcomes.contains(Some(report)),
    ensures
        !config.hide_forbidden ==> shown_reports(config, outcomes).contains(report),
        allows_any(report.items) ==> shown_reports(config, outcomes).contains(report),
        config.hide_forbidden && !allows_any(report.items) ==> !shown_reports(
            config,
            outcomes,
        ).contains(report),
{
    let at = choose|i: int| 0 <= i < outcomes.len() && outcomes[i] == Some(report);
    if is_shown(config, report) {
        lemma_shown_reports_keep(config, outcomes, at);
    } else if shown_reports(config, outcomes).contains(report) {
        lemma_shown_reports_were_reported(config, outcomes, report);
    }
}

/// Every report of a run is on a resource kind of the catalog that takes part, and holds
/// a decision for exactly the verbs of the configuration. A run invents no resource kind
/// and reports no verb that was not selected.
pub proof fn lemma_reports_are_on_the_catalog(
    config: ConfigModel,
    catalog: Seq<ResourceModel>,
    answers: Seq<Seq<Option<ReviewStatus>>>,
    report: ReportModel,
)
    requires
        run_outcome(config, catalog, answers).items.contains(report),
    ensures
        catalog.contains(report.resource),
        takes_part(config, report.resource),
        forall|v: Verb| report.items.dom().contains(v) <==> config.verbs.contains(v),
        is_shown(config, report),
{
    let outcomes = unit_outcomes(config, catalog, answers);
    lemma_shown_reports_were_reported(config, outcomes, report);
    let at = choose|i: int| 0 <= i < outcomes.len() && outcomes[i] == Some(report);
    let units = targets(config, catalog);
    let wanted = |r: ResourceModel| takes_part(config, r);
    lemma_unit_outcome(config, units[at], answers_of(answers, at));
    assert(report.resource == units[at]);
    catalog.lemma_filter_pred(wanted, at);
    assert(units.contains(units[at]));
    catalog.lemma_filter_contains_rev(wanted, units[at]);
}

/// Without subresources in the configuration, no report of a run is on a subresource: on
/// a resource whose name holds a `/`.
pub proof fn lemma_subresources_are_excluded(
    config: ConfigModel,
    catalog: Seq<ResourceModel>,
    answers: Seq<Seq<Option<ReviewStatus>>>,
    report: ReportModel,
)
    requires
        !config.subresources,
        run_outcome(config, catalog, answers).items.contains(report),
    ensures
        !report.resource.is_subresource(),
        !has_char(report.resource.name, '/'),
{
    lemma_reports_are_on_the_catalog(config, catalog, answers, report);
}

/// A resource kind that takes part, whose queries were all answered, is reported where
/// its report is one to show: a unit that completes is not dropped.
pub proof fn lemma_answered_units_are_reported(
    config: ConfigModel,
    catalog: Seq<ResourceModel>,
    answers: Seq<Seq<Option<ReviewStatus>>>,
    at: int,
)
    requires
        0 <= at < targets(config, catalog).len(),
        all_answered(answers_of(answers, at), config.verbs.len() as int),
    ensures
        unit_outcome(config, targets(config, catalog)[at], answers_of(answers, at)) matches Some(
            report,
        ) && (is_shown(config, report) ==> run_outcome(config, catalog, answers).items.contains(
            report,
        )),
{
    let units = targets(config, catalog);
    lemma_unit_outcome(config, units[at], answers_of(answers, at));
    let outcomes = unit_outcomes(config, catalog, answers);
    let report = unit_outcome(config, units[at], answers_of(answers, at))->0;
    assert(outcomes[at] == Some(report));
    if is_shown(config, report) {
        lemma_shown_reports_keep(config, outcomes, at);
    }
}

/// A resource kind with a query that failed is not reported by its unit: a unit reports
/// in full or not at all.
pub proof fn lemma_failed_units_report_nothing(
    config: ConfigModel,
    resource: ResourceModel,
    answers: Seq<Option<ReviewStatus>>,
    failed: int,
)
    requires
        0 <= failed < config.verbs.len(),
        failed < answers.len(),
        answers[failed] is None,
    ensures
        unit_outcome(config, resource, answers) is None,
{
    lemma_unit_outcome(config, resource, answers);
}

/// What recorded answers hold.
pub open spec fn answers_view(answers: Seq<Vec<Option<ReviewStatus>>>) -> Seq<
    Seq<Option<ReviewStatus>>,
> {
    answers.map_values(|row: Vec<Option<ReviewStatus>>| row@)
}

impl Checker {
    /// The outcome of the unit of `resource`, given the outcomes of its queries in order.
    fn check_resource(
        &self,
        resource: &ResourceDescriptor,
        answers: &Vec<Option<ReviewStatus>>,
    ) -> (r: Option<ResourceCheckResult>)
        ensures
            report_view(r) == unit_outcome(self.config@, resource@, answers@),
    {
        let mut unit = self.start(resource.clone());
        let ghost start = unit@;
        let mut i: usize = 0;
        assert(answers@.take(0) =~= Seq::<Option<ReviewStatus>>::empty());
        while i < answers.len()
            invariant
                i <= answers.len(),
                unit@ == start.record_all(answers@.take(i as int)),
            decreases answers.len() - i,
        {
            unit.record(answers[i]);
            assert(answers@.take(i + 1).drop_last() =~= answers@.take(i as int));
            i += 1;
        }
        assert(answers@.take(answers.len() as int) =~= answers@);
        unit.finish()
    }

    /// The outcome of a run over `catalog` whose queries had the outcomes `answers`:
    /// `answers[i]` holds, in the order of the queries, the outcomes of the queries on the
    /// `i`-th resource kind that takes part, `None` standing for a query that failed. What
    /// `answers` holds beyond the queries that are made is ignored.
    pub fn check_all(
        &self,
        catalog: &Vec<ResourceDescriptor>,
        answers: &Vec<Vec<Option<ReviewStatus>>>,
    ) -> (r: FullResult)
        ensures
            r@ == run_outcome(self.config@, catalog.deep_view(), answers_view(answers@)),
            forall|i: int|
                0 <= i < r@.items.len() ==> catalog.deep_view().contains(
                    (#[trigger] r@.items[i]).resource,
                ) && takes_part(self.config@, r@.items[i].resource),
            forall|i: int, v: Verb|
                0 <= i < r@.items.len() ==> ((#[trigger] r@.items[i]).items.dom().contains(v)
                    <==> #[trigger] self.config@.verbs.contains(v)),
    {
        let units = self.targets(catalog);
        let none: Vec<Option<ReviewStatus>> = Vec::new();
        let ghost expected = unit_outcomes(
            self.config@,
            catalog.deep_view(),
            answers_view(answers@),
        );
        let mut outcomes: Vec<Option<ResourceCheckResult>> = Vec::new();
        let mut i: usize = 0;
        assert(outcomes_view(outcomes@) =~= expected.take(0));
        while i < units.len()
            invariant
                i <= units.len(),
                none@ == Seq::<Option<ReviewStatus>>::empty(),
                units.deep_view() == targets(self.config@, catalog.deep_view()),
                expected == unit_outcomes(
                    self.config@,
                    catalog.deep_view(),
                    answers_view(answers@),
                ),
                outcomes_view(outcomes@) == expected.take(i as int),
            decreases units.len() - i,
        {
            let row = if i < answers.len() {
                &answers[i]
            } else {
                &none
            };
            assert(row@ == answers_of(answers_view(answers@), i as int));
            let outcome = self.check_resource(&units[i], row);
            assert(units.deep_view()[i as int] == units@[i as int]@);
            let ghost before = outcomes_view(outcomes@);
            outcomes.push(outcome);
            assert(outcomes_view(outcomes@) =~= before.push(report_view(outcome)));
            assert(expected.take(i + 1) =~= expected.take(i as int).push(expected[i as int]));
            i += 1;
        }
        assert(expected.take(units.len() as int) =~= expected);
        let r = self.assemble(&outcomes);
        proof {
            assert forall|i: int| 0 <= i < r@.items.len() implies catalog.deep_view().contains(
                (#[trigger] r@.items[i]).resource,
            ) && takes_part(self.config@, r@.items[i].resource) && (forall|v: Verb|
                r@.items[i].items.dom().contains(v) <==> self.config@.verbs.contains(v)) by {
                assert(r@.items.contains(r@.items[i]));
                lemma_reports_are_on_the_catalog(
                    self.config@,
                    catalog.deep_view(),
                    answers_view(answers@),
                    r@.items[i],
                );
            }
        }
        r
    }
}

} // verus!
