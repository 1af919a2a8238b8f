use wcid::text::{
    chars_of, comes_before, contains_char, copy_opt_text, copy_texts, lower_code,
    matches_ignore_case, same_text, split_chars,
};

fn run(s: &str) -> Vec<char> {
    s.chars().collect()
}

fn pieces(s: &str, sep: char) -> Vec<String> {
    split_chars(&run(s), sep)
        .into_iter()
        .map(|p| p.into_iter().collect())
        .collect()
}

#[test]
fn chars_of_gives_the_characters_in_order() {
    assert_eq!(chars_of("pods"), vec!['p', 'o', 'd', 's']);
    assert_eq!(chars_of(""), Vec::<char>::new());
    assert_eq!(chars_of("a✔b"), vec!['a', '✔', 'b']);
}

#[test]
fn split_cuts_at_every_separator() {
    assert_eq!(pieces("get,list,watch", ','), vec!["get", "list", "watch"]);
    assert_eq!(pieces("apps/v1", '/'), vec!["apps", "v1"]);
}

#[test]
fn split_of_a_text_without_separator_is_the_text() {
    assert_eq!(pieces("v1", '/'), vec!["v1"]);
}

#[test]
fn split_of_the_empty_text_is_one_empty_piece() {
    assert_eq!(pieces("", ','), vec![""]);
}

#[test]
fn split_keeps_empty_pieces() {
    assert_eq!(pieces(",", ','), vec!["", ""]);
    assert_eq!(pieces(",a", ','), vec!["", "a"]);
    assert_eq!(pieces("a,", ','), vec!["a", ""]);
    assert_eq!(pieces("a,,b", ','), vec!["a", "", "b"]);
}

#[test]
fn split_agrees_with_the_standard_library() {
    for text in ["", "a", ",", "a,b", ",,", "get,,list,", "x/y/z", "✔,✖"] {
        let expected: Vec<String> = text.split(',').map(|s| s.to_string()).collect();
        assert_eq!(pieces(text, ','), expected);
    }
}

#[test]
fn the_pieces_of_a_split_join_back_to_the_text() {
    for text in ["", "a", ",", "a,b", ",,", "get,,list,", ",x,", "✔,✖"] {
        let parts = pieces(text, ',');
        assert!(!parts.is_empty());
        assert!(parts.iter().all(|part| !part.contains(',')));
        assert_eq!(parts.join(","), text);
    }
}

#[test]
fn lower_code_folds_ascii_capitals_only() {
    assert_eq!(lower_code('A'), 'a' as u32);
    assert_eq!(lower_code('Z'), 'z' as u32);
    assert_eq!(lower_code('a'), 'a' as u32);
    assert_eq!(lower_code('@'), '@' as u32);
    assert_eq!(lower_code('['), '[' as u32);
    assert_eq!(lower_code('É'), 'É' as u32);
}

#[test]
fn texts_match_whatever_the_case_of_their_letters() {
    assert!(matches_ignore_case(&run("Get"), &run("gET")));
    assert!(matches_ignore_case(&run(""), &run("")));
    assert!(!matches_ignore_case(&run("Get"), &run("Gets")));
    assert!(!matches_ignore_case(&run("Get"), &run("Got")));
    assert!(!matches_ignore_case(&run("É"), &run("é")));
}

#[test]
fn same_text_compares_character_by_character() {
    assert!(same_text("json", "json"));
    assert!(!same_text("json", "JSON"));
    assert!(!same_text("json", "jso"));
    assert!(same_text("", ""));
}

#[test]
fn contains_char_finds_a_character() {
    assert!(contains_char("pods/log", '/'));
    assert!(!contains_char("pods", '/'));
    assert!(!contains_char("", '/'));
    assert!(contains_char("/", '/'));
}

#[test]
fn comes_before_is_the_lexicographic_order() {
    assert!(comes_before(&run("Pod"), &run("Service")));
    assert!(!comes_before(&run("Service"), &run("Pod")));
    assert!(!comes_before(&run("Pod"), &run("Pod")));
    assert!(comes_before(&run("Pod"), &run("Pods")));
    assert!(!comes_before(&run("Pods"), &run("Pod")));
    assert!(comes_before(&run(""), &run("a")));
    assert!(!comes_before(&run(""), &run("")));
    assert!(comes_before(&run("Z"), &run("a")));
}

#[test]
fn comes_before_agrees_with_the_order_of_strings() {
    let texts = ["", "a", "A", "ab", "b", "Pod", "pod", "é", "z", "✔", "\u{10000}", "\u{ffff}"];
    for a in texts {
        for b in texts {
            assert_eq!(comes_before(&run(a), &run(b)), a < b, "{:?} {:?}", a, b);
        }
    }
}

#[test]
fn copies_hold_the_same_texts() {
    assert_eq!(copy_opt_text(&Some("apps".to_string())), Some("apps".to_string()));
    assert_eq!(copy_opt_text(&None), None);
    let texts = vec!["get".to_string(), "list".to_string()];
    assert_eq!(copy_texts(&texts), texts);
    assert_eq!(copy_texts(&Vec::new()), Vec::<String>::new());
}
