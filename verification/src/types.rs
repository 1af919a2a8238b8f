//! What a run reports: one decision for each verb probed, for each resource kind.

use crate::config::{Config, ConfigModel};
use crate::discovery::{ResourceDescriptor, ResourceModel};
use crate::verbs::{lemma_vocabulary_is_indexed_by_ordinal, vocabulary, Verb};
use vstd::prelude::*;

verus! {

/// The answer to one authorization query.
///
/// A query may be allowed, or explicitly denied, or neither: the control plane then has no
/// opinion, and the action is not allowed. The two flags are kept as they were received.
#[derive(Clone, Copy, Debug, PartialEq, Eq, Structural)]
pub struct CheckResult {
    /// The verb that was asked about.
    pub verb: Verb,
    /// Whether the action is allowed.
    pub allowed: bool,
    /// Whether the action is explicitly denied.
    pub denied: bool,
}

/// What the control plane decided on one verb.
#[derive(Clone, Copy, Debug, PartialEq, Eq, Structural)]
pub struct Decision {
    /// Whether the action is allowed.
    pub allowed: bool,
    /// Whether the action is explicitly denied.
    pub denied: bool,
}

impl CheckResult {
    /// The decision that this answer carries.
    pub open spec fn decision(self) -> Decision {
        Decision { allowed: self.allowed, denied: self.denied }
    }

    /// The answer that files `decision` under `verb`.
    pub open spec fn of(verb: Verb, decision: Decision) -> CheckResult {
        CheckResult { verb, allowed: decision.allowed, denied: decision.denied }
    }
}

/// The decisions on the verbs probed for one resource kind, at most one for each verb.
///
/// A verb without a decision was never probed.
#[derive(Debug, PartialEq, Eq)]
pub struct VerbMap {
    slots: [Option<Decision>; 8],
}

impl View for VerbMap {
    type V = Map<Verb, Decision>;

    closed spec fn view(&self) -> Map<Verb, Decision> {
        Map::new(|v: Verb| self.slots@[v.ordinal()] is Some, |v: Verb| self.slots@[v.ordinal()]->0)
    }
}

impl DeepView for VerbMap {
    type V = Map<Verb, Decision>;

    open spec fn deep_view(&self) -> Map<Verb, Decision> {
        self@
    }
}

/// Whether `m` holds a decision that allows its verb.
pub open spec fn allows_any(m: Map<Verb, Decision>) -> bool {
    exists|v: Verb| m.dom().contains(v) && (#[trigger] m[v]).allowed
}

impl VerbMap {
    /// A map without decisions.
    pub fn new() -> (r: Self)
        ensures
            r@ == Map::<Verb, Decision>::empty(),
    {
        let r = VerbMap { slots: [None, None, None, None, None, None, None, None] };
        assert(r@ =~= Map::<Verb, Decision>::empty());
        r
    }

    /// Files the decision of `result` under its verb, in place of an earlier decision on
    /// that verb.
    pub fn insert(&mut self, result: CheckResult)
        ensures
            final(self)@ == old(self)@.insert(result.verb, result.decision()),
    {
        let i = result.verb.index();
        self.slots[i] = Some(Decision { allowed: result.allowed, denied: result.denied });
        assert(self@ =~= old(self)@.insert(result.verb, result.decision()));
    }

    /// The decision on `verb`, if it was probed.
    pub fn get(&self, verb: Verb) -> (r: Option<CheckResult>)
        ensures
            r == if self@.dom().contains(verb) {
                Some(CheckResult::of(verb, self@[verb]))
            } else {
                None::<CheckResult>
            },
    {
        match self.slots[verb.index()] {
            Some(d) => Some(CheckResult { verb, allowed: d.allowed, denied: d.denied }),
            None => None,
        }
    }

    /// Whether a decision allows its verb.
    pub fn any_allowed(&self) -> (r: bool)
        ensures
            r == allows_any(self@),
    {
        let mut i: usize = 0;
        while i < 8
            invariant
                i <= 8,
                forall|v: Verb|
                    v.ordinal() < i && self@.dom().contains(v) ==> !(#[trigger] self@[v]).allowed,
            decreases 8 - i,
        {
            match self.slots[i] {
                Some(found) => {
                    if found.allowed {
                        proof {
                            lemma_vocabulary_is_indexed_by_ordinal(Verb::Get);
                            let v = vocabulary()[i as int];
                            assert(self@.dom().contains(v) && self@[v].allowed);
                        }
                        return true;
                    }
                },
                None => {},
            }
            i += 1;
        }
        false
    }
}

impl Clone for VerbMap {
    fn clone(&self) -> (r: Self)
        ensures
            r@ == self@,
    {
        VerbMap { slots: self.slots }
    }
}

/// The report on one resource kind.
#[derive(Debug, PartialEq, Eq)]
pub struct ResourceCheckResult {
    /// The resource kind that was probed.
    pub resource: ResourceDescriptor,
    /// The decision on each verb probed.
    pub items: VerbMap,
}

/// What a `ResourceCheckResult` holds.
pub struct ReportModel {
    pub resource: ResourceModel,
    pub items: Map<Verb, Decision>,
}

impl View for ResourceCheckResult {
    type V = ReportModel;

    open spec fn view(&self) -> ReportModel {
        ReportModel { resource: self.resource@, items: self.items@ }
    }
}

impl DeepView for ResourceCheckResult {
    type V = ReportModel;

    open spec fn deep_view(&self) -> ReportModel {
        self@
    }
}

impl Clone for ResourceCheckResult {
    fn clone(&self) -> (r: Self)
        ensures
            r@ == self@,
    {
        ResourceCheckResult { resource: self.resource.clone(), items: self.items.clone() }
    }
}

/// The outcome of a run: the configuration it ran under, and one report for each resource
/// kind that was probed in full and not filtered out.
#[derive(Debug, PartialEq, Eq)]
pub struct FullResult {
    /// The configuration of the run.
    pub config: Config,
    /// The reports, in the order of the catalog.
    pub items: Vec<ResourceCheckResult>,
}

/// What a `FullResult` holds.
pub struct FullResultModel {
    pub config: ConfigModel,
    pub items: Seq<ReportModel>,
}

impl View for FullResult {
    type V = FullResultModel;

    open spec fn view(&self) -> FullResultModel {
        FullResultModel { config: self.config@, items: self.items.deep_view() }
    }
}

impl Clone for FullResult {
    fn clone(&self) -> (r: Self)
        ensures
            r@ == self@,
    {
        let mut items: Vec<ResourceCheckResult> = Vec::new();
        let mut i: usize = 0;
        while i < self.items.len()
            invariant
                i <= self.items.len(),
                items.len() == i,
                forall|j: int| 0 <= j < i ==> items@[j]@ == self.items@[j]@,
            decreases self.items.len() - i,
        {
            items.push(self.items[i].clone());
            i += 1;
        }
        assert(items.deep_view() =~= self.items.deep_view());
        FullResult { config: self.config.clone(), items }
    }
}

} // verus!
