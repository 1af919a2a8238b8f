//! The renderings of a run's outcome.

pub mod cell;
pub mod json;
pub mod order;
pub mod pretty;
pub mod table;

use crate::config::Config;
use crate::formatter::json::{document_of, verb_entry, Json};
use crate::formatter::cell::{allowed_cell, forbidden_cell};
use crate::formatter::pretty::{verb_cell, Pretty};
use crate::text::{lower, same_text};
use crate::types::{Decision, FullResult};
use crate::verbs::Verb;
use vstd::prelude::*;

verus! {

/// A rendering of a run's outcome, in the format that the caller chose.
#[derive(Debug)]
pub enum Formatter {
    /// As a table.
    Pretty(Pretty),
    /// As a structured document.
    Json(Json),
}

impl Formatter {
    /// The rendering of `result` in `format`: structured for `json`, a table for
    /// anything else.
    pub fn new(format: String, config: Config, result: FullResult) -> (r: Self)
        ensures
            format@ == "json"@ ==> (r matches Formatter::Json(j) && j.records() == document_of(
                result@,
            )),
            format@ != "json"@ ==> (r matches Formatter::Pretty(p) && p.config() == config@
                && p.result() == result@),
    {
        if same_text(format.as_str(), "json") {
            Formatter::Json(Json::new(result))
        } else {
            Formatter::Pretty(Pretty::new(config, result))
        }
    }
}

/// Both renderings show of a decision whether it allows, and nothing else: the table marks
/// the verb as allowed or as not allowed, the document holds that flag under the verb's
/// lower-case name.
pub proof fn lemma_renderings_show_whether_allowed(items: Map<Verb, Decision>, verb: Verb)
    requires
        items.dom().contains(verb),
    ensures
        items[verb].allowed ==> verb_cell(items, verb) == allowed_cell(),
        !items[verb].allowed ==> verb_cell(items, verb) == forbidden_cell(),
        verb_entry(items, verb) == Some((lower(verb.label()), items[verb].allowed)),
        allowed_cell() != forbidden_cell(),
{
}

/// A verb that is denied and a verb on which the control plane has no opinion are
/// rendered alike, as not allowed, though their decisions differ.
pub proof fn lemma_denied_and_no_opinion_render_alike(items: Map<Verb, Decision>, verb: Verb)
    ensures
        ({
            let denied = items.insert(verb, Decision { allowed: false, denied: true });
            let silent = items.insert(verb, Decision { allowed: false, denied: false });
            &&& verb_cell(denied, verb) == forbidden_cell()
            &&& verb_cell(silent, verb) == forbidden_cell()
            &&& verb_entry(denied, verb) == verb_entry(silent, verb)
            &&& verb_entry(denied, verb) == Some((lower(verb.label()), false))
            &&& denied[verb] != silent[verb]
        }),
{
}

} // verus!
