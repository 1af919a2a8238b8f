use wcid::verbs::{all_verbs, default_verbs, handle_verbs, Verb};

fn chosen(list: &str) -> Vec<Verb> {
    handle_verbs(Some(list.to_string()))
}

#[test]
fn absent_list_selects_the_default_verbs() {
    assert_eq!(
        handle_verbs(None),
        vec![Verb::Get, Verb::Create, Verb::Delete, Verb::Update]
    );
}

#[test]
fn empty_list_selects_the_default_verbs() {
    assert_eq!(
        chosen(""),
        vec![Verb::Get, Verb::Create, Verb::Delete, Verb::Update]
    );
}

#[test]
fn default_verbs_are_get_create_delete_update() {
    assert_eq!(
        default_verbs(),
        vec![Verb::Get, Verb::Create, Verb::Delete, Verb::Update]
    );
}

#[test]
fn vocabulary_has_eight_verbs_in_order() {
    assert_eq!(
        all_verbs(),
        vec![
            Verb::Get,
            Verb::List,
            Verb::Watch,
            Verb::Create,
            Verb::Delete,
            Verb::Update,
            Verb::Patch,
            Verb::DeleteCollection
        ]
    );
}

#[test]
fn listed_verbs_are_selected() {
    assert_eq!(chosen("get,delete"), vec![Verb::Get, Verb::Delete]);
}

#[test]
fn verb_names_match_whatever_their_case() {
    assert_eq!(chosen("GET,List,wAtCh"), vec![Verb::Get, Verb::List, Verb::Watch]);
    assert_eq!(chosen("DELETECOLLECTION"), vec![Verb::DeleteCollection]);
    assert_eq!(chosen("deletecollection"), vec![Verb::DeleteCollection]);
}

#[test]
fn unknown_verbs_are_dropped() {
    assert_eq!(chosen("get,frobnicate,patch"), vec![Verb::Get, Verb::Patch]);
    assert_eq!(chosen("frobnicate"), Vec::<Verb>::new());
}

#[test]
fn selection_follows_the_vocabulary_not_the_list() {
    assert_eq!(
        chosen("patch,update,get"),
        vec![Verb::Get, Verb::Update, Verb::Patch]
    );
}

#[test]
fn a_verb_listed_twice_is_selected_once() {
    assert_eq!(chosen("get,Get,GET"), vec![Verb::Get]);
}

#[test]
fn items_are_not_trimmed() {
    assert_eq!(chosen("get, list"), vec![Verb::Get]);
    assert_eq!(chosen(" get"), Vec::<Verb>::new());
}

#[test]
fn empty_items_name_no_verb() {
    assert_eq!(chosen(","), Vec::<Verb>::new());
    assert_eq!(chosen("get,,list,"), vec![Verb::Get, Verb::List]);
}

#[test]
fn a_prefix_of_a_name_is_no_name() {
    assert_eq!(chosen("delete"), vec![Verb::Delete]);
    assert_eq!(chosen("del"), Vec::<Verb>::new());
    assert_eq!(chosen("deletes"), Vec::<Verb>::new());
}

#[test]
fn only_ascii_letters_fold_case() {
    // U+212A, the Kelvin sign, is no `k`, and no verb holds one anyway.
    assert_eq!(chosen("get\u{212a}"), Vec::<Verb>::new());
    assert_eq!(chosen("G\u{0415}T"), Vec::<Verb>::new());
}

#[test]
fn verbs_have_a_report_name_and_a_wire_name() {
    let names: Vec<&str> = all_verbs().into_iter().map(|v| v.name()).collect();
    assert_eq!(
        names,
        vec!["Get", "List", "Watch", "Create", "Delete", "Update", "Patch", "DeleteCollection"]
    );
    let wire: Vec<&str> = all_verbs().into_iter().map(|v| v.wire_name()).collect();
    assert_eq!(
        wire,
        vec!["get", "list", "watch", "create", "delete", "update", "patch", "deletecollection"]
    );
}

#[test]
fn wire_names_are_the_report_names_in_lower_case() {
    for verb in all_verbs() {
        assert_eq!(verb.wire_name(), verb.name().to_ascii_lowercase());
    }
}

#[test]
fn verbs_are_indexed_by_their_place_in_the_vocabulary() {
    for (at, verb) in all_verbs().into_iter().enumerate() {
        assert_eq!(verb.index(), at);
    }
}

#[test]
fn selection_agrees_with_unicode_case_folding() {
    let lists = [
        "get", "GET", "gEt,LIST", "Watch,watch", "create,delete,update,patch",
        "DeleteCollection", "deletecollection,get", "x", ",", "get,", ",get", "g\u{212a}t",
        "patch\u{212a}", "\u{130}", "LIST,\u{3a3}", "upd\u{c4}te", "Get,List,Watch,Create,Delete,Update,Patch,DeleteCollection",
    ];
    for list in lists {
        let expected: Vec<Verb> = all_verbs()
            .into_iter()
            .filter(|verb| {
                list.split(',')
                    .any(|supplied| supplied.to_lowercase() == verb.name().to_lowercase())
            })
            .collect();
        assert_eq!(chosen(list), expected, "{:?}", list);
    }
}
