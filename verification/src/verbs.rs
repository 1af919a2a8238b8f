//! The verb vocabulary, and the choice of the verbs to probe.

use crate::text::{chars_of, eq_ignore_case, lower, matches_ignore_case, runs, split, split_chars};
use vstd::prelude::*;

verus! {

/// An action category subject to authorization.
#[derive(Clone, Copy, Debug, PartialEq, Eq, Structural)]
pub enum Verb {
    Get,
    List,
    Watch,
    Create,
    Delete,
    Update,
    Patch,
    DeleteCollection,
}

/// Every verb, in the order in which reports list them.
pub open spec fn vocabulary() -> Seq<Verb> {
    seq![
        Verb::Get,
        Verb::List,
        Verb::Watch,
        Verb::Create,
        Verb::Delete,
        Verb::Update,
        Verb::Patch,
        Verb::DeleteCollection,
    ]
}

/// The verbs probed when the caller names none.
pub open spec fn default_selection() -> Seq<Verb> {
    seq![Verb::Get, Verb::Create, Verb::Delete, Verb::Update]
}

impl Verb {
    /// Position of the verb in the vocabulary.
    pub open spec fn ordinal(self) -> int {
        match self {
            Verb::Get => 0,
            Verb::List => 1,
            Verb::Watch => 2,
            Verb::Create => 3,
            Verb::Delete => 4,
            Verb::Update => 5,
            Verb::Patch => 6,
            Verb::DeleteCollection => 7,
        }
    }

    /// The name under which reports show the verb.
    pub open spec fn label(self) -> Seq<char> {
        match self {
            Verb::Get => "Get"@,
            Verb::List => "List"@,
            Verb::Watch => "Watch"@,
            Verb::Create => "Create"@,
            Verb::Delete => "Delete"@,
            Verb::Update => "Update"@,
            Verb::Patch => "Patch"@,
            Verb::DeleteCollection => "DeleteCollection"@,
        }
    }

    /// The name under which an authorization query states the verb.
    pub open spec fn wire_label(self) -> Seq<char> {
        match self {
            Verb::Get => "get"@,
            Verb::List => "list"@,
            Verb::Watch => "watch"@,
            Verb::Create => "create"@,
            Verb::Delete => "delete"@,
            Verb::Update => "update"@,
            Verb::Patch => "patch"@,
            Verb::DeleteCollection => "deletecollection"@,
        }
    }

    /// Position of the verb in the vocabulary.
    pub fn index(self) -> (i: usize)
        ensures
            i == self.ordinal(),
            i < 8,
    {
        match self {
            Verb::Get => 0,
            Verb::List => 1,
            Verb::Watch => 2,
            Verb::Create => 3,
            Verb::Delete => 4,
            Verb::Update => 5,
            Verb::Patch => 6,
            Verb::DeleteCollection => 7,
        }
    }

    /// The name under which reports show the verb.
    pub fn name(self) -> (s: &'static str)
        ensures
            s@ == self.label(),
    {
        match self {
            Verb::Get => "Get",
            Verb::List => "List",
            Verb::Watch => "Watch",
            Verb::Create => "Create",
            Verb::Delete => "Delete",
            Verb::Update => "Update",
            Verb::Patch => "Patch",
            Verb::DeleteCollection => "DeleteCollection",
        }
    }

    /// The name under which an authorization query states the verb: the report name in
    /// lower case.
    pub fn wire_name(self) -> (s: &'static str)
        ensures
            s@ == self.wire_label(),
            s@ == lower(self.label()),
    {
        proof {
            lemma_wire_label_is_lower_case(self);
        }
        match self {
            Verb::Get => "get",
            Verb::List => "list",
            Verb::Watch => "watch",
            Verb::Create => "create",
            Verb::Delete => "delete",
            Verb::Update => "update",
            Verb::Patch => "patch",
            Verb::DeleteCollection => "deletecollection",
        }
    }
}

/// The wire name of a verb is its report name in lower case.
pub proof fn lemma_wire_label_is_lower_case(v: Verb)
    ensures
        v.wire_label() == lower(v.label()),
{
    reveal_strlit("Get");
    reveal_strlit("List");
    reveal_strlit("Watch");
    reveal_strlit("Create");
    reveal_strlit("Delete");
    reveal_strlit("Update");
    reveal_strlit("Patch");
    reveal_strlit("DeleteCollection");
    reveal_strlit("get");
    reveal_strlit("list");
    reveal_strlit("watch");
    reveal_strlit("create");
    reveal_strlit("delete");
    reveal_strlit("update");
    reveal_strlit("patch");
    reveal_strlit("deletecollection");
    assert(v.wire_label() =~= lower(v.label()));
}

/// The vocabulary lists each verb once, at its ordinal.
pub proof fn lemma_vocabulary_is_indexed_by_ordinal(v: Verb)
    ensures
        vocabulary().len() == 8,
        0 <= v.ordinal() < 8,
        vocabulary()[v.ordinal()] == v,
        forall|i: int| 0 <= i < 8 ==> (#[trigger] vocabulary()[i]).ordinal() == i,
{
}

/// Whether `token` names `v`, whatever the case of its letters.
pub open spec fn names_verb(token: Seq<char>, v: Verb) -> bool {
    eq_ignore_case(token, v.label())
}

/// Whether one of `tokens` names `v`.
pub open spec fn requested(tokens: Seq<Seq<char>>, v: Verb) -> bool {
    exists|i: int| 0 <= i < tokens.len() && names_verb(#[trigger] tokens[i], v)
}

/// The verbs that a comma-separated list selects.
///
/// An absent or empty list selects the default verbs. Any other list selects the verbs of
/// the vocabulary that one of its items names, in the order of the vocabulary; an item that
/// names no verb selects nothing.
pub open spec fn selected_verbs(input: Option<Seq<char>>) -> Seq<Verb> {
    match input {
        None => default_selection(),
        Some(list) => if list.len() == 0 {
            default_selection()
        } else {
            vocabulary().filter(|v: Verb| requested(split(list, ','), v))
        },
    }
}

/// A list that is not empty selects a verb exactly if one of its items names it,
/// whatever the case of its letters; an absent or empty list selects the default verbs.
/// Either way the verbs selected are in the order of the vocabulary, each once.
pub proof fn lemma_selected_verbs(input: Option<Seq<char>>)
    ensures
        input matches Some(list) ==> (list.len() > 0 ==> forall|v: Verb|
            selected_verbs(input).contains(v) <==> requested(split(list, ','), v)),
        input is None || input->0.len() == 0 ==> selected_verbs(input) == default_selection(),
        forall|i: int, j: int|
            0 <= i < j < selected_verbs(input).len() ==> (#[trigger] selected_verbs(input)[i]).ordinal()
                < (#[trigger] selected_verbs(input)[j]).ordinal(),
{
    match input {
        Some(list) if list.len() > 0 => {
            let wanted = |v: Verb| requested(split(list, ','), v);
            let chosen = vocabulary().filter(wanted);
            assert forall|v: Verb| chosen.contains(v) <==> requested(split(list, ','), v) by {
                if chosen.contains(v) {
                    let i = choose|i: int| 0 <= i < chosen.len() && chosen[i] == v;
                    vocabulary().lemma_filter_pred(wanted, i);
                }
                if requested(split(list, ','), v) {
                    lemma_vocabulary_is_indexed_by_ordinal(v);
                    vocabulary().lemma_filter_contains(wanted, v.ordinal());
                }
            }
            lemma_filter_keeps_order(vocabulary(), wanted);
            assert forall|i: int, j: int| 0 <= i < j < chosen.len() implies (#[trigger] chosen[i]).ordinal()
                < (#[trigger] chosen[j]).ordinal() by {
                let (a, b) = choose|a: int, b: int|
                    0 <= a < b < vocabulary().len() && vocabulary()[a] == chosen[i] && vocabulary()[b]
                        == chosen[j];
                lemma_vocabulary_is_indexed_by_ordinal(chosen[i]);
            }
        },
        _ => {},
    }
}

/// What a filter keeps, it keeps in order: two items of the result stand in the same
/// order in the sequence that was filtered.
proof fn lemma_filter_keeps_order(s: Seq<Verb>, keep: spec_fn(Verb) -> bool)
    ensures
        forall|i: int, j: int|
            0 <= i < j < s.filter(keep).len() ==> exists|a: int, b: int|
                0 <= a < b < s.len() && s[a] == #[trigger] s.filter(keep)[i] && s[b]
                    == #[trigger] s.filter(keep)[j],
        forall|i: int|
            0 <= i < s.filter(keep).len() ==> exists|a: int|
                0 <= a < s.len() && s[a] == #[trigger] s.filter(keep)[i],
    decreases s.len(),
{
    reveal(Seq::filter);
    if s.len() > 0 {
        let rest = s.drop_last();
        lemma_filter_keeps_order(rest, keep);
        let kept = s.filter(keep);
        let before = rest.filter(keep);
        assert forall|i: int| 0 <= i < kept.len() implies exists|a: int|
            0 <= a < s.len() && s[a] == #[trigger] kept[i] by {
            if i < before.len() {
                assert(kept[i] == before[i]);
                let a = choose|a: int| 0 <= a < rest.len() && rest[a] == before[i];
                assert(s[a] == kept[i]);
            } else {
                assert(s[s.len() - 1] == kept[i]);
            }
        }
        assert forall|i: int, j: int| 0 <= i < j < kept.len() implies exists|a: int, b: int|
            0 <= a < b < s.len() && s[a] == #[trigger] kept[i] && s[b] == #[trigger] kept[j] by {
            if j < before.len() {
                assert(kept[i] == before[i] && kept[j] == before[j]);
                let (a, b) = choose|a: int, b: int|
                    0 <= a < b < rest.len() && rest[a] == before[i] && rest[b] == before[j];
                assert(s[a] == kept[i] && s[b] == kept[j]);
            } else {
                assert(kept[i] == before[i]);
                let a = choose|a: int| 0 <= a < rest.len() && rest[a] == before[i];
                assert(s[a] == kept[i] && s[s.len() - 1] == kept[j]);
            }
        }
    }
}

/// Every verb, in the order in which reports list them.
pub fn all_verbs() -> (verbs: Vec<Verb>)
    ensures
        verbs@ == vocabulary(),
{
    let verbs = vec![
        Verb::Get,
        Verb::List,
        Verb::Watch,
        Verb::Create,
        Verb::Delete,
        Verb::Update,
        Verb::Patch,
        Verb::DeleteCollection,
    ];
    assert(verbs@ =~= vocabulary());
    verbs
}

/// The verbs probed when the caller names none.
pub fn default_verbs() -> (verbs: Vec<Verb>)
    ensures
        verbs@ == default_selection(),
{
    let verbs = vec![Verb::Get, Verb::Create, Verb::Delete, Verb::Update];
    assert(verbs@ =~= default_selection());
    verbs
}

/// Whether one of `tokens` names `v`.
fn is_requested(tokens: &Vec<Vec<char>>, v: Verb) -> (r: bool)
    ensures
        r == requested(runs(tokens@), v),
{
    let name = chars_of(v.name());
    let mut i: usize = 0;
    while i < tokens.len()
        invariant
            i <= tokens.len(),
            name@ == v.label(),
            forall|j: int| 0 <= j < i ==> !names_verb(#[trigger] runs(tokens@)[j], v),
        decreases tokens.len() - i,
    {
        if matches_ignore_case(&tokens[i], &name) {
            assert(names_verb(runs(tokens@)[i as int], v));
            return true;
        }
        i += 1;
    }
    false
}

/// Resolves the caller's comma-separated list of verb names against the vocabulary.
pub fn handle_verbs(verbs: Option<String>) -> (selected: Vec<Verb>)
    ensures
        selected@ == selected_verbs(verbs.deep_view()),
{
    match verbs {
        None => default_verbs(),
        Some(list) => {
            let chars = chars_of(list.as_str());
            if chars.len() == 0 {
                return default_verbs();
            }
            let tokens = split_chars(&chars, ',');
            let all = all_verbs();
            let ghost wanted = |v: Verb| requested(split(list@, ','), v);
            let mut selected: Vec<Verb> = Vec::new();
            let mut i: usize = 0;
            proof {
                reveal(Seq::filter);
                assert(all@.take(0) =~= Seq::<Verb>::empty());
            }
            while i < all.len()
                invariant
                    i <= all.len(),
                    all@ == vocabulary(),
                    runs(tokens@) == split(list@, ','),
                    wanted == |v: Verb| requested(split(list@, ','), v),
                    selected@ == all@.take(i as int).filter(wanted),
                decreases all.len() - i,
            {
                let v = all[i];
                proof {
                    reveal(Seq::filter);
                    assert(all@.take(i + 1).drop_last() =~= all@.take(i as int));
                    assert(all@.take(i + 1).last() == v);
                }
                if is_requested(&tokens, v) {
                    selected.push(v);
                }
                i += 1;
            }
            assert(all@.take(all.len() as int) =~= all@);
            selected
        },
    }
}

} // verus!
