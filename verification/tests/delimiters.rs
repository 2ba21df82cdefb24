use lyra::delimiters::{join_delimiters, parse_delimiters_input};

#[test]
fn parse_splits_trims_and_drops_empties() {
    assert_eq!(
        parse_delimiters_input(" feat. |  &  |  | , | "),
        vec!["feat.".to_string(), "&".to_string(), ",".to_string()]
    );
}

#[test]
fn parse_requires_spaces_around_bar() {
    assert_eq!(parse_delimiters_input("a|b | c"), vec!["a|b".to_string(), "c".to_string()]);
    assert_eq!(parse_delimiters_input(""), Vec::<String>::new());
}

#[test]
fn parse_matches_std_split() {
    for text in ["x | y", " | a | | b", "a |  | b", "one", "a | b | ", "   "] {
        let expected: Vec<String> = text
            .split(" | ")
            .map(str::trim)
            .filter(|s| !s.is_empty())
            .map(str::to_string)
            .collect();
        assert_eq!(parse_delimiters_input(text), expected, "{text:?}");
    }
}

#[test]
fn join_then_parse_round_trips() {
    let ds = vec!["feat.".to_string(), "&".to_string(), "vs.".to_string()];
    let text = join_delimiters(&ds);
    assert_eq!(text, "feat. | & | vs.");
    assert_eq!(parse_delimiters_input(&text), ds);
    assert_eq!(join_delimiters(&vec![]), "");
}
