use vocab::parser::parse_txt;

fn pairs(text: &str) -> Vec<(String, String)> {
    parse_txt(text)
        .into_iter()
        .map(|p| (p.word, p.definition))
        .collect()
}

fn pair(w: &str, d: &str) -> (String, String) {
    (w.to_string(), d.to_string())
}

#[test]
fn parses_each_separator() {
    assert_eq!(pairs("apple\tA fruit"), vec![pair("apple", "A fruit")]);
    assert_eq!(pairs("run - to move fast"), vec![pair("run", "to move fast")]);
    assert_eq!(pairs("cat | a pet"), vec![pair("cat", "a pet")]);
    assert_eq!(pairs("dog|an animal"), vec![pair("dog", "an animal")]);
    assert_eq!(pairs("苹果：apple"), vec![pair("苹果", "apple")]);
    assert_eq!(pairs("sun:a star"), vec![pair("sun", "a star")]);
}

#[test]
fn prefers_earlier_separators() {
    assert_eq!(pairs("a - b:c"), vec![pair("a", "b:c")]);
    assert_eq!(pairs("a:b - c"), vec![pair("a:b", "c")]);
    assert_eq!(pairs("x:y\tz - w"), vec![pair("x:y", "z - w")]);
    assert_eq!(pairs("p|q | r"), vec![pair("p|q", "r")]);
    assert_eq!(pairs("k:v：w"), vec![pair("k:v", "w")]);
}

#[test]
fn splits_at_first_occurrence() {
    assert_eq!(pairs("a:b:c"), vec![pair("a", "b:c")]);
    assert_eq!(pairs("one - two - three"), vec![pair("one", "two - three")]);
}

#[test]
fn trims_lines_and_parts_and_skips_blank_lines() {
    let text = "  apple :  fruit  \r\n\n   \nbanana|yellow\r\n";
    assert_eq!(pairs(text), vec![pair("apple", "fruit"), pair("banana", "yellow")]);
    assert_eq!(pairs("\u{3000}词：释义\u{3000}"), vec![pair("词", "释义")]);
}

#[test]
fn skips_lines_without_separator() {
    assert_eq!(pairs("hello\nworld - earth\njust words"), vec![pair("world", "earth")]);
    assert_eq!(pairs("a-b"), vec![]);
}

#[test]
fn keeps_empty_parts() {
    assert_eq!(pairs("word:"), vec![pair("word", "")]);
    assert_eq!(pairs(":def"), vec![pair("", "def")]);
}

#[test]
fn empty_text_gives_nothing() {
    assert!(parse_txt("").is_empty());
    assert!(parse_txt("\n\n  \r\n").is_empty());
}

#[test]
fn lines_read_independently() {
    let a = "alpha - first\nnot an entry";
    let b = "beta:second\n gamma | third ";
    let joined = format!("{}\n{}", a, b);
    let mut expected = pairs(a);
    expected.extend(pairs(b));
    assert_eq!(pairs(&joined), expected);
}

#[test]
fn entries_have_no_edge_whitespace() {
    let text = " a \t b \n\u{2003}c\u{2003}:\u{00A0}d\u{00A0}\n e | f ";
    let out = parse_txt(text);
    assert_eq!(out.len(), 3);
    for p in &out {
        assert_eq!(p.word.trim(), p.word);
        assert_eq!(p.definition.trim(), p.definition);
    }
    assert_eq!(out[1].word, "c");
    assert_eq!(out[1].definition, "d");
}

#[test]
fn tab_joined_pairs_read_back_unchanged() {
    let list = vec![
        pair("apple", "a red fruit"),
        pair("über", "over: above"),
        pair("a - b", "c | d\tstill definition"),
        pair("x", "y"),
    ];
    let text = list
        .iter()
        .map(|(w, d)| format!("{}\t{}", w, d))
        .collect::<Vec<_>>()
        .join("\n");
    assert_eq!(pairs(&text), list);
}
