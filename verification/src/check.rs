//! The permission check: which queries a run makes, and what it reports of the answers.
//!
//! The queries themselves are sent by the caller. For each resource kind it takes a
//! `ResourceCheck` from the `Checker`, asks it for the next query, hands back the answer,
//! and so on until the unit has no query left; then it hands the outcomes of all units back
//! to the `Checker`, which assembles the report. A unit whose query failed reports nothing.

use crate::config::{Config, ConfigModel};
use crate::discovery::{ResourceDescriptor, ResourceModel};
use crate::text::{copy_opt_text, lower};
use crate::types::{
    allows_any, CheckResult, Decision, FullResult, FullResultModel, ReportModel,
    ResourceCheckResult, VerbMap,
};
use crate::verbs::Verb;
use crate::wire::{encode_review, review_document};
use vstd::prelude::*;

verus! {

/// What the control plane answered to one query.
#[derive(Clone, Copy, Debug, PartialEq, Eq)]
pub struct ReviewStatus {
    /// Whether the action is allowed.
    pub allowed: bool,
    /// Whether the action is explicitly denied; the control plane may leave this out.
    pub denied: Option<bool>,
}

/// The decision that an answer carries: the flags as received, a missing `denied` read as
/// "not denied".
pub open spec fn decision_of(status: ReviewStatus) -> Decision {
    Decision {
        allowed: status.allowed,
        denied: match status.denied {
            Some(denied) => denied,
            None => false,
        },
    }
}

impl CheckResult {
    /// The answer to the query on `verb`, as the control plane gave it.
    pub fn from_status(verb: Verb, status: ReviewStatus) -> (r: CheckResult)
        ensures
            r == CheckResult::of(verb, decision_of(status)),
            r.verb == verb,
            r.allowed == status.allowed,
            r.denied == (status.denied == Some(true)),
    {
        CheckResult {
            verb,
            allowed: status.allowed,
            denied: match status.denied {
                Some(denied) => denied,
                None => false,
            },
        }
    }
}

/// One authorization query: may the identity do `verb` on `resource`?
#[derive(Debug, PartialEq, Eq)]
pub struct AccessReview {
    /// API group of the resource; absent for the legacy API.
    pub group: Option<String>,
    /// Plural name of the resource.
    pub resource: String,
    /// Namespace that the query is scoped to; absent for a cluster-scoped query.
    pub namespace: Option<String>,
    /// The verb, in lower case.
    pub verb: String,
    /// The identity in whose name the query is evaluated; absent for the caller's own.
    pub impersonate: Option<String>,
}

/// What an `AccessReview` holds.
pub struct AccessReviewModel {
    pub group: Option<Seq<char>>,
    pub resource: Seq<char>,
    pub namespace: Option<Seq<char>>,
    pub verb: Seq<char>,
    pub impersonate: Option<Seq<char>>,
}

impl View for AccessReview {
    type V = AccessReviewModel;

    open spec fn view(&self) -> AccessReviewModel {
        AccessReviewModel {
            group: self.group.deep_view(),
            resource: self.resource@,
            namespace: self.namespace.deep_view(),
            verb: self.verb@,
            impersonate: self.impersonate.deep_view(),
        }
    }
}

impl DeepView for AccessReview {
    type V = AccessReviewModel;

    open spec fn deep_view(&self) -> AccessReviewModel {
        self@
    }
}

/// The query on `verb` for `resource`: it names the resource by its group and its plural
/// name and the verb in lower case, is scoped to `namespace`, and is evaluated in the name
/// of `impersonate`.
pub open spec fn review_of(
    resource: ResourceModel,
    verb: Verb,
    namespace: Option<Seq<char>>,
    impersonate: Option<Seq<char>>,
) -> AccessReviewModel {
    AccessReviewModel {
        group: resource.group,
        resource: resource.name,
        namespace,
        verb: lower(verb.label()),
        impersonate,
    }
}

/// The request headers that a query needs beyond those of any request: the one that names
/// the identity to act as, where there is one.
pub open spec fn headers_of(review: AccessReviewModel) -> Seq<(Seq<char>, Seq<char>)> {
    match review.impersonate {
        Some(user) => seq![("Impersonate-User"@, user)],
        None => Seq::empty(),
    }
}

/// Why a query could not be prepared.
#[derive(Clone, Copy, Debug, PartialEq, Eq, Structural)]
pub enum ReviewError {
    /// The body of the query could not be written.
    Encoding,
}

/// The body of the request that puts a query to the control plane: the JSON text that is
/// written for its group, resource, namespace and verb, or `Encoding` where none is
/// written. The identity to act as is no part of it.
pub open spec fn body_of(review: AccessReviewModel) -> Result<Seq<u8>, ReviewError> {
    match review_document(review.group, review.resource, review.namespace, review.verb) {
        Some(bytes) => Ok(bytes),
        None => Err(ReviewError::Encoding),
    }
}

/// What the body of a query holds, where there is one.
pub open spec fn body_view(body: Result<Vec<u8>, ReviewError>) -> Result<Seq<u8>, ReviewError> {
    match body {
        Ok(bytes) => Ok(bytes@),
        Err(e) => Err(e),
    }
}

impl ReviewError {
    /// The body of a query from the attempt to write it: the bytes that were written, or
    /// `Encoding` where writing failed.
    pub fn body_from(written: Result<Vec<u8>, serde_json::Error>) -> (r: Result<
        Vec<u8>,
        ReviewError,
    >)
        ensures
            written matches Ok(bytes) ==> body_view(r) == Ok::<Seq<u8>, ReviewError>(bytes@),
            written is Err ==> r == Err::<Vec<u8>, ReviewError>(ReviewError::Encoding),
    {
        match written {
            Ok(bytes) => Ok(bytes),
            Err(_) => Err(ReviewError::Encoding),
        }
    }
}

impl AccessReview {
    /// The query on `verb` for `resource`.
    pub fn new(
        resource: &ResourceDescriptor,
        verb: Verb,
        namespace: &Option<String>,
        impersonate: &Option<String>,
    ) -> (r: Self)
        ensures
            r@ == review_of(resource@, verb, namespace.deep_view(), impersonate.deep_view()),
    {
        AccessReview {
            group: copy_opt_text(&resource.group),
            resource: resource.name.clone(),
            namespace: copy_opt_text(namespace),
            verb: verb.wire_name().to_owned(),
            impersonate: copy_opt_text(impersonate),
        }
    }

    /// The body of the request that puts the query to the control plane: the JSON text of
    /// a self-subject access review with this query's group, resource, namespace and verb.
    /// The identity to act as is no part of it.
    pub fn body(&self) -> (r: Result<Vec<u8>, ReviewError>)
        ensures
            body_view(r) == body_of(self@),
    {
        ReviewError::body_from(
            encode_review(&self.group, &self.resource, &self.namespace, &self.verb),
        )
    }

    /// The request headers that the query needs beyond those of any request, as pairs of
    /// name and value.
    pub fn headers(&self) -> (r: Vec<(String, String)>)
        ensures
            r.deep_view() == headers_of(self@),
    {
        let mut r: Vec<(String, String)> = Vec::new();
        match &self.impersonate {
            Some(user) => {
                r.push(("Impersonate-User".to_owned(), user.clone()));
                assert(r.deep_view() =~= headers_of(self@));
            },
            None => {
                assert(r.deep_view() =~= headers_of(self@));
            },
        }
        r
    }
}

/// The state of the check of one resource kind.
pub struct UnitModel {
    /// The resource kind under check.
    pub resource: ResourceModel,
    /// The verbs to probe, in this order.
    pub verbs: Seq<Verb>,
    /// Namespace that the queries are scoped to.
    pub namespace: Option<Seq<char>>,
    /// Identity in whose name the queries are evaluated.
    pub impersonate: Option<Seq<char>>,
    /// How many of the verbs have their answer.
    pub answered: nat,
    /// The decisions so far.
    pub items: Map<Verb, Decision>,
    /// Whether a query has failed.
    pub failed: bool,
}

impl UnitModel {
    /// The check of `resource` under `config`, before its first query.
    pub open spec fn start(config: ConfigModel, resource: ResourceModel) -> UnitModel {
        UnitModel {
            resource,
            verbs: config.verbs,
            namespace: config.namespace,
            impersonate: config.impersonate,
            answered: 0,
            items: Map::empty(),
            failed: false,
        }
    }

    /// Whether a query is still to be made: none has failed, and not every verb has its
    /// answer.
    pub open spec fn pending(self) -> bool {
        !self.failed && self.answered < self.verbs.len()
    }

    /// The verb of the next query.
    pub open spec fn next_verb(self) -> Verb
        recommends
            self.pending(),
    {
        self.verbs[self.answered as int]
    }

    /// The next query.
    pub open spec fn request(self) -> AccessReviewModel
        recommends
            self.pending(),
    {
        review_of(self.resource, self.next_verb(), self.namespace, self.impersonate)
    }

    /// The state after the outcome of the pending query: its answer is filed under its
    /// verb, or, where the query failed, the unit has failed. Without a pending query the
    /// state stays as it is.
    pub open spec fn record(self, outcome: Option<ReviewStatus>) -> UnitModel {
        if !self.pending() {
            self
        } else {
            match outcome {
                Some(status) => UnitModel {
                    answered: self.answered + 1,
                    items: self.items.insert(self.next_verb(), decision_of(status)),
                    ..self
                },
                None => UnitModel { failed: true, ..self },
            }
        }
    }

    /// The state after the outcomes of the queries, one after the other.
    pub open spec fn record_all(self, outcomes: Seq<Option<ReviewStatus>>) -> UnitModel
        decreases outcomes.len(),
    {
        if outcomes.len() == 0 {
            self
        } else {
            self.record_all(outcomes.drop_last()).record(outcomes.last())
        }
    }

    /// The report of the unit: the decisions on all its verbs, once every verb has its
    /// answer. A unit that failed, or that has a query left, reports nothing.
    pub open spec fn report(self) -> Option<ReportModel> {
        if !self.failed && self.answered >= self.verbs.len() {
            Some(ReportModel { resource: self.resource, items: self.items })
        } else {
            None
        }
    }
}

/// The check of one resource kind: one query for each verb, one at a time.
#[derive(Debug)]
pub struct ResourceCheck {
    resource: ResourceDescriptor,
    verbs: Vec<Verb>,
    namespace: Option<String>,
    impersonate: Option<String>,
    answered: usize,
    items: VerbMap,
    failed: bool,
}

impl View for ResourceCheck {
    type V = UnitModel;

    closed spec fn view(&self) -> UnitModel {
        UnitModel {
            resource: self.resource@,
            verbs: self.verbs@,
            namespace: self.namespace.deep_view(),
            impersonate: self.impersonate.deep_view(),
            answered: self.answered as nat,
            items: self.items@,
            failed: self.failed,
        }
    }
}

/// What an optional query holds.
pub open spec fn review_view(review: Option<AccessReview>) -> Option<AccessReviewModel> {
    match review {
        Some(r) => Some(r@),
        None => None,
    }
}

/// What an optional report holds.
pub open spec fn report_view(report: Option<ResourceCheckResult>) -> Option<ReportModel> {
    match report {
        Some(r) => Some(r@),
        None => None,
    }
}

impl ResourceCheck {
    /// The next query to send, if one is left: the one on the first verb without an
    /// answer. None is left once a query has failed.
    pub fn next_request(&self) -> (r: Option<AccessReview>)
        ensures
            review_view(r) == if self@.pending() {
                Some(self@.request())
            } else {
                None::<AccessReviewModel>
            },
    {
        if !self.failed && self.answered < self.verbs.len() {
            let verb = self.verbs[self.answered];
            Some(AccessReview::new(&self.resource, verb, &self.namespace, &self.impersonate))
        } else {
            None
        }
    }

    /// Takes the outcome of the query that `next_request` gave: the control plane's
    /// answer, or `None` where the query failed or its response held no answer. Without a
    /// query left, nothing changes.
    pub fn record(&mut self, outcome: Option<ReviewStatus>)
        ensures
            final(self)@ == old(self)@.record(outcome),
    {
        if !self.failed && self.answered < self.verbs.len() {
            match outcome {
                Some(status) => {
                    let verb = self.verbs[self.answered];
                    self.items.insert(CheckResult::from_status(verb, status));
                    self.answered = self.answered + 1;
                },
                None => {
                    self.failed = true;
                },
            }
        }
    }

    /// The unit's report: the decision on each of its verbs, once every query has its
    /// answer; nothing where a query failed or is still to be made.
    pub fn finish(self) -> (r: Option<ResourceCheckResult>)
        ensures
            report_view(r) == self@.report(),
    {
        if !self.failed && self.answered >= self.verbs.len() {
            Some(ResourceCheckResult { resource: self.resource, items: self.items })
        } else {
            None
        }
    }
}

/// Whether a resource takes part in a run: a subresource only where the configuration
/// asks for subresources.
pub open spec fn takes_part(config: ConfigModel, resource: ResourceModel) -> bool {
    config.subresources || !resource.is_subresource()
}

/// The resource kinds to check, of those in the catalog, in the order of the catalog.
pub open spec fn targets(config: ConfigModel, catalog: Seq<ResourceModel>) -> Seq<ResourceModel> {
    catalog.filter(|r: ResourceModel| takes_part(config, r))
}

/// Whether a report is shown: where the configuration hides what is forbidden, only if
/// it allows a verb.
pub open spec fn is_shown(config: ConfigModel, report: ReportModel) -> bool {
    !config.hide_forbidden || allows_any(report.items)
}

/// The report that a unit's outcome contributes to the run's, if any: that of a unit
/// which completed, where it is shown.
pub open spec fn contribution(config: ConfigModel, outcome: Option<ReportModel>) -> Option<
    ReportModel,
> {
    match outcome {
        Some(report) => if is_shown(config, report) {
            Some(report)
        } else {
            None
        },
        None => None,
    }
}

/// The reports of a run: what the units' outcomes contribute, in their order.
pub open spec fn shown_reports(config: ConfigModel, outcomes: Seq<Option<ReportModel>>) -> Seq<
    ReportModel,
> {
    outcomes.filter_map(|o: Option<ReportModel>| contribution(config, o))
}

/// What the outcomes of units hold.
pub open spec fn outcomes_view(outcomes: Seq<Option<ResourceCheckResult>>) -> Seq<
    Option<ReportModel>,
> {
    outcomes.map_values(|o: Option<ResourceCheckResult>| report_view(o))
}

/// Coordinates the check of the resource kinds of a catalog under one configuration.
#[derive(Debug)]
pub struct Checker {
    /// The configuration of the run.
    pub config: Config,
}

impl Checker {
    /// A checker for runs under `config`.
    pub fn new(config: Config) -> (r: Self)
        ensures
            r.config@ == config@,
    {
        Checker { config }
    }

    /// The resource kinds to check: those of the catalog, without the subresources
    /// unless the configuration asks for them.
    pub fn targets(&self, catalog: &Vec<ResourceDescriptor>) -> (r: Vec<ResourceDescriptor>)
        ensures
            r.deep_view() == targets(self.config@, catalog.deep_view()),
    {
        let ghost config = self.config@;
        let ghost wanted = |r: ResourceModel| takes_part(config, r);
        let mut r: Vec<ResourceDescriptor> = Vec::new();
        let mut i: usize = 0;
        proof {
            reveal(Seq::filter);
            assert(catalog.deep_view().take(0) =~= Seq::<ResourceModel>::empty());
            assert(r.deep_view() =~= Seq::<ResourceModel>::empty());
        }
        while i < catalog.len()
            invariant
                i <= catalog.len(),
                config == self.config@,
                wanted == |r: ResourceModel| takes_part(config, r),
                r.deep_view() == catalog.deep_view().take(i as int).filter(wanted),
            decreases catalog.len() - i,
        {
            proof {
                reveal(Seq::filter);
                assert(catalog.deep_view().take(i + 1).drop_last() =~= catalog.deep_view().take(
                    i as int,
                ));
                assert(catalog.deep_view().take(i + 1).last() == catalog@[i as int]@);
            }
            let resource = &catalog[i];
            if self.config.subresources || !resource.is_subresource() {
                let ghost before = r.deep_view();
                r.push(resource.clone());
                assert(r.deep_view() =~= before.push(resource@));
            }
            i += 1;
        }
        assert(catalog.deep_view().take(catalog.len() as int) =~= catalog.deep_view());
        r
    }

    /// The check of `resource`, before its first query.
    pub fn start(&self, resource: ResourceDescriptor) -> (r: ResourceCheck)
        ensures
            r@ == UnitModel::start(self.config@, resource@),
    {
        let config = self.config.clone();
        ResourceCheck {
            resource,
            verbs: config.verbs,
            namespace: config.namespace,
            impersonate: config.impersonate,
            answered: 0,
            items: VerbMap::new(),
            failed: false,
        }
    }

    /// The outcome of the run, from the outcomes of its units: the report of each unit
    /// that completed, in the order of the units; where the configuration hides what is
    /// forbidden, without the reports that allow no verb.
    pub fn assemble(&self, outcomes: &Vec<Option<ResourceCheckResult>>) -> (r: FullResult)
        ensures
            r@.config == self.config@,
            r@.items == shown_reports(self.config@, outcomes_view(outcomes@)),
    {
        let ghost config = self.config@;
        let ghost all = outcomes_view(outcomes@);
        let ghost each = |o: Option<ReportModel>| contribution(config, o);
        let mut items: Vec<ResourceCheckResult> = Vec::new();
        let mut i: usize = 0;
        proof {
            assert(all.take(0) =~= Seq::<Option<ReportModel>>::empty());
            assert(items.deep_view() =~= Seq::<ReportModel>::empty());
        }
        while i < outcomes.len()
            invariant
                i <= outcomes.len(),
                config == self.config@,
                all == outcomes_view(outcomes@),
                each == |o: Option<ReportModel>| contribution(config, o),
                items.deep_view() == all.take(i as int).filter_map(each),
            decreases outcomes.len() - i,
        {
            proof {
                all.lemma_filter_map_take_succ(each, i as int);
            }
            match &outcomes[i] {
                Some(report) => {
                    if !self.config.hide_forbidden || report.items.any_allowed() {
                        let ghost before = items.deep_view();
                        items.push(report.clone());
                        assert(items.deep_view() =~= before + seq![report@]);
                    }
                },
                None => {},
            }
            i += 1;
        }
        assert(all.take(outcomes.len() as int) =~= all);
        FullResult { config: self.config.clone(), items }
    }
}

} // verus!
