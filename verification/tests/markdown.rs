use tendril::html::{to_html, Html};
use tendril::machine::{Event, ParserMachine, ParserMachineContext, ParserState};
use tendril::urls::format_links;

#[test]
fn html_format_links_properly() {
    let http_link = "https://example.com";
    assert_eq!(String::from("https://example.com"), format_links(http_link));
    let wiki_page = "My Cool Page";
    assert_eq!(String::from("/My%20Cool%20Page"), format_links(wiki_page));
}

#[test]
fn machine_format_links_properly() {
    let http_link = "https://example.com";
    assert_eq!(String::from("https://example.com"), tendril::machine::format_links(http_link));
    let wiki_page = "My Cool Page";
    assert_eq!(String::from("/My%20Cool%20Page"), tendril::machine::format_links(wiki_page));
}

#[test]
fn parses_md_to_html_with_wikilinks() {
    let test_string = "[[Some Page]]";
    let test_html = Html {
        outlinks: vec!["Some Page".into()],
        body: "<div class=\"text-block\"><a href=\"/Some%20Page\">Some Page</a></div>".into(),
    };
    let parsed = to_html(test_string);
    assert_eq!(parsed.outlinks, test_html.outlinks);
    assert_eq!(parsed.body, test_html.body);

    let test_string = "# Title\n[[Some Page]]. Another thing\n * Hi\n * List\n * Output";
    let test_html = Html {
        outlinks: vec!["Some Page".into()],
        body: "<div class=\"text-block\"><h2>Title</h2></div><div class=\"text-block\"><a href=\"/Some%20Page\">Some Page</a>. Another thing</div><div class=\"text-block\"> * Hi</div><div class=\"text-block\"> * List</div><div class=\"text-block\"> * Output</div>".into()
    };
    let parsed = to_html(test_string);
    assert_eq!(parsed.outlinks, test_html.outlinks);
    assert_eq!(parsed.body, test_html.body);
}

fn run_transitions(transitions: Vec<ParserState>, next_states: Vec<ParserState>, events: Vec<Event>) {
    let outlinks: Vec<String> = Vec::new();
    let mut parser_machine = ParserMachine {
        context: ParserMachineContext {
            link_location: String::new(),
            outlinks,
        },
        state: ParserState::Accept,
    };
    for (indx, event) in events.iter().enumerate() {
        let message = &transitions[indx];
        let state = &next_states[indx];
        let (machine, machine_event) = parser_machine.send(message.to_owned());
        parser_machine = machine;
        assert_eq!(machine_event, *event);
        assert_eq!(parser_machine.state, *state);
    }
}

#[test]
fn valid_state_transitions() {
    let valid_transitions = vec![
        ParserState::LinkStart,
        ParserState::LinkStart,
        ParserState::LocationParsing("Testing!".into()),
        ParserState::LinkEnd,
        ParserState::Accept,
    ];
    let valid_next_states = vec![
        ParserState::LinkStart,
        ParserState::LocationParsing("".into()),
        ParserState::LocationParsing("Testing!".into()),
        ParserState::LinkEnd,
        ParserState::Accept,
    ];
    let valid_events = vec![
        Event::Text("".into()),
        Event::Text("".into()),
        Event::Text("".into()),
        Event::Text("".into()),
        Event::Text("".into()),
    ];
    run_transitions(valid_transitions, valid_next_states, valid_events);
}

#[test]
fn valid_state_transitions_with_transclusion() {
    let valid_transitions = vec![
        ParserState::LinkStart,
        ParserState::LinkStart,
        ParserState::LocationParsing("Testing!".into()),
        ParserState::LinkEnd,
        ParserState::Accept,
        ParserState::TranscludeStart,
        ParserState::TranscludeStart,
        ParserState::TranscludeParsing("asdf".into()),
        ParserState::TranscludeEnd,
        ParserState::TranscludeEnd,
        ParserState::Accept,
    ];
    let valid_next_states = vec![
        ParserState::LinkStart,
        ParserState::LocationParsing("".into()),
        ParserState::LocationParsing("Testing!".into()),
        ParserState::LinkEnd,
        ParserState::Accept,
        ParserState::TranscludeStart,
        ParserState::TranscludeParsing("asdf".into()),
        ParserState::TranscludeParsing("asdf".into()),
        ParserState::TranscludeEnd,
        ParserState::Accept,
    ];
    let valid_events = vec![
        Event::Text("".into()),
        Event::Text("".into()),
        Event::Text("".into()),
        Event::Text("".into()),
        Event::Text("".into()),
        Event::Text("".into()),
        Event::Text("".into()),
        Event::Text("".into()),
    ];
    run_transitions(valid_transitions, valid_next_states, valid_events);
}
