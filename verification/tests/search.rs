use tendril::runners::normalize_title;
use tendril::search::{term_of, tokenize};

#[test]
fn tokenizes_strings() {
    let test_string =
        "A tested, tokenized string. This could represent a note, a bookmark, or an idea.";
    let tokens = [
        "tested",
        "tokenized",
        "string",
        "could",
        "represent",
        "note",
        "bookmark",
        "idea",
    ];
    let tokenized = tokenize(test_string);
    assert_eq!(tokenized, tokens);
}

#[test]
fn tokenizes_strings_with_links() {
    let test_string = "[[link|https://teukka.tech/luanvim.html]]";
    let tokens = ["link", "teukka", "tech", "luanvim", "html"];
    let tokenized = tokenize(test_string);
    assert_eq!(tokenized, tokens);
}

#[test]
fn normalizes_wiki_title() {
    let mut test_title = "testing: a neat thing";
    let result = normalize_title(test_title);
    assert_ne!(String::from(test_title), result);
    assert_eq!(String::from("testing a neat thing"), result);
    test_title =
        "lots of characters. A really long title. Maybe with some / and \\ and -- chars";
    let result = normalize_title(test_title);
    assert_ne!(String::from(test_title), result);
    assert_eq!(
        String::from("lots of characters A really long title Maybe with..."),
        result
    );
}

#[test]
fn lowered_words_become_terms() {
    assert_eq!(term_of("wo\nrd"), Some("word".to_string()));
    assert_eq!(term_of("the"), None);
    assert_eq!(term_of("\n"), None);
}
