//! The state machine that recognises wiki links (`[[...]]`) and transclusions
//! (`{{...}}`) one bracket event at a time.
use vstd::prelude::*;

use crate::text::{chars_of, split_chars, split_char, string_of};
pub use crate::urls::format_links;
use crate::urls::{format_links_defined, spec_format_links};

verus! {

/// Where the link parser stands, and the messages sent to it.
#[derive(Debug, Clone, PartialEq, Eq)]
pub enum ParserState {
    /// `[`
    LinkStart,
    /// `[[` followed by link text
    LocationParsing(String),
    /// `]`
    LinkEnd,
    /// `{`
    TranscludeStart,
    /// `{{` followed by a transcluded title
    TranscludeParsing(String),
    /// `}`
    TranscludeEnd,
    /// ordinary text
    Accept,
}

/// What the parser hands back for each message: text to keep, or markup.
#[derive(Debug, Clone, PartialEq, Eq)]
pub enum Event {
    Text(String),
    Html(String),
}

/// The link being read and the links found so far.
#[derive(Debug, Clone)]
pub struct ParserMachineContext {
    pub link_location: String,
    pub outlinks: Vec<String>,
}

/// The parser: its state and its context.
#[derive(Debug, Clone)]
pub struct ParserMachine {
    pub state: ParserState,
    pub context: ParserMachineContext,
}

/// A parser state with its texts taken by their characters.
pub enum StateView {
    LinkStart,
    LocationParsing(Seq<char>),
    LinkEnd,
    TranscludeStart,
    TranscludeParsing(Seq<char>),
    TranscludeEnd,
    Accept,
}

impl View for ParserState {
    type V = StateView;

    open spec fn view(&self) -> StateView {
        match self {
            ParserState::LinkStart => StateView::LinkStart,
            ParserState::LocationParsing(t) => StateView::LocationParsing(t@),
            ParserState::LinkEnd => StateView::LinkEnd,
            ParserState::TranscludeStart => StateView::TranscludeStart,
            ParserState::TranscludeParsing(t) => StateView::TranscludeParsing(t@),
            ParserState::TranscludeEnd => StateView::TranscludeEnd,
            ParserState::Accept => StateView::Accept,
        }
    }
}

/// An event with its text taken by its characters.
pub enum EventView {
    Text(Seq<char>),
    Html(Seq<char>),
}

impl View for Event {
    type V = EventView;

    open spec fn view(&self) -> EventView {
        match self {
            Event::Text(t) => EventView::Text(t@),
            Event::Html(t) => EventView::Html(t@),
        }
    }
}

/// The whole parser by its values: state, link being read, links found.
pub struct MachineView {
    pub state: StateView,
    pub link_location: Seq<char>,
    pub outlinks: Seq<Seq<char>>,
}

impl View for ParserMachine {
    type V = MachineView;

    open spec fn view(&self) -> MachineView {
        MachineView {
            state: self.state@,
            link_location: self.context.link_location@,
            outlinks: self.context.outlinks@.map_values(|o: String| o@),
        }
    }
}

/// The number of `|` in a text.
pub open spec fn bar_count(s: Seq<char>) -> nat {
    (split_char(s, '|').len() - 1) as nat
}

/// The target of a finished link: the part after `|` in `text|target`, else the whole.
pub open spec fn link_target(loc: Seq<char>) -> Seq<char> {
    let parts = split_char(loc, '|');
    if parts.len() > 1 {
        parts[1]
    } else {
        loc
    }
}

/// The shown text of a finished link: the part before `|`, else the whole.
pub open spec fn link_text(loc: Seq<char>) -> Seq<char> {
    split_char(loc, '|')[0]
}

/// The transitions that the parser accepts. Every other pairing of a message
/// with the current state is a malformed sequence of brackets, on which `send`
/// is not defined; closing a link whose text holds two or more `|` is not either.
pub open spec fn transition_defined(
    message: StateView,
    state: StateView,
    link_location: Seq<char>,
) -> bool {
    match message {
        StateView::Accept => !(state is LocationParsing) && !(state is TranscludeParsing),
        StateView::LinkStart => !(state is LocationParsing) && !(state is LinkEnd) && !(
        state is TranscludeEnd),
        StateView::LocationParsing(_) => state is LinkStart || state is LocationParsing,
        StateView::LinkEnd => match state {
            StateView::Accept => true,
            StateView::LocationParsing(_) => true,
            StateView::LinkEnd => {
                &&& bar_count(link_location) < 2
                &&& format_links_defined(link_target(link_location))
            },
            _ => false,
        },
        StateView::TranscludeStart => state is Accept || state is LinkStart
            || state is LocationParsing || state is TranscludeStart,
        StateView::TranscludeParsing(_) => state is TranscludeStart || state is TranscludeParsing,
        StateView::TranscludeEnd => !(state is Accept) && !(state is LinkEnd),
    }
}

/// The state after a message, on a defined transition.
pub open spec fn next_state(message: StateView, state: StateView) -> StateView {
    match (message, state) {
        (StateView::LinkStart, StateView::LinkStart) => StateView::LocationParsing(Seq::empty()),
        (StateView::LocationParsing(text), StateView::LocationParsing(_)) => {
            StateView::LocationParsing(text)
        },
        (StateView::LinkEnd, StateView::Accept) => StateView::Accept,
        (StateView::LinkEnd, StateView::LinkEnd) => StateView::Accept,
        (StateView::TranscludeStart, StateView::LinkStart) => StateView::Accept,
        (StateView::TranscludeStart, StateView::LocationParsing(_)) => {
            StateView::LocationParsing(Seq::empty())
        },
        (StateView::TranscludeStart, StateView::TranscludeStart) => {
            StateView::TranscludeParsing("asdf"@)
        },
        (StateView::TranscludeParsing(_), StateView::TranscludeParsing(title)) => {
            StateView::TranscludeParsing(title)
        },
        (StateView::TranscludeEnd, StateView::LinkStart) => StateView::Accept,
        (StateView::TranscludeEnd, StateView::LocationParsing(_)) => {
            StateView::LocationParsing(Seq::empty())
        },
        (StateView::TranscludeEnd, StateView::TranscludeStart) => StateView::Accept,
        _ => message,
    }
}

/// The event a defined transition hands back.
pub open spec fn next_event(message: StateView, state: StateView, link_location: Seq<char>) -> EventView {
    match (message, state) {
        (StateView::LocationParsing(text), StateView::LinkStart) => EventView::Text(text),
        (StateView::LinkEnd, StateView::Accept) => EventView::Text("]"@),
        (StateView::LinkEnd, StateView::LinkEnd) => EventView::Html(
            "<a href=\""@ + spec_format_links(link_target(link_location)) + "\">"@
                + link_text(link_location) + "</a>"@,
        ),
        _ => EventView::Text(Seq::empty()),
    }
}

/// The link being read after a transition: text inside `[[` accumulates, and a
/// closed link clears it.
pub open spec fn next_link_location(message: StateView, state: StateView, link_location: Seq<char>) -> Seq<char> {
    match (message, state) {
        (StateView::LocationParsing(text), StateView::LocationParsing(_)) => link_location + text,
        (StateView::LinkEnd, StateView::LinkEnd) => Seq::empty(),
        _ => link_location,
    }
}

/// The links found after a transition: closing a link records its target.
pub open spec fn next_outlinks(message: StateView, state: StateView, m: MachineView) -> Seq<Seq<char>> {
    match (message, state) {
        (StateView::LinkEnd, StateView::LinkEnd) => m.outlinks.push(link_target(m.link_location)),
        _ => m.outlinks,
    }
}

impl ParserMachine {
    /// Feeds one message to the parser; gives back the parser in its next state
    /// and the event that the message produced.
    pub fn send(self, message: ParserState) -> (r: (ParserMachine, Event))
        requires
            transition_defined(message@, self.state@, self.context.link_location@),
        ensures
            r.0@.state == next_state(message@, self.state@),
            r.0@.link_location == next_link_location(message@, self.state@, self@.link_location),
            r.0@.outlinks == next_outlinks(message@, self.state@, self@),
            r.1@ == next_event(message@, self.state@, self@.link_location),
    {
        let ParserMachine { state, mut context } = self;
        match (message, state) {
            (ParserState::LinkStart, ParserState::LinkStart) => (
                ParserMachine { state: ParserState::LocationParsing(String::new()), context },
                Event::Text(String::new()),
            ),
            (ParserState::LocationParsing(text), ParserState::LinkStart) => {
                let ev = text.clone();
                (
                    ParserMachine { state: ParserState::LocationParsing(text), context },
                    Event::Text(ev),
                )
            },
            (ParserState::LocationParsing(text), ParserState::LocationParsing(_)) => {
                context.link_location.append(text.as_str());
                (
                    ParserMachine { state: ParserState::LocationParsing(text), context },
                    Event::Text(String::new()),
                )
            },
            (ParserState::LinkEnd, ParserState::Accept) => (
                ParserMachine { state: ParserState::Accept, context },
                Event::Text(String::from_str("]")),
            ),
            (ParserState::LinkEnd, ParserState::LinkEnd) => {
                let loc = chars_of(context.link_location.as_str());
                let parts = split_chars(loc.as_slice(), '|');
                proof {
                    crate::text::lemma_split_char_nonempty(loc@, '|');
                }
                let (location, text) = if parts.len() > 1 {
                    (string_of(parts[1].as_slice()), string_of(parts[0].as_slice()))
                } else {
                    (string_of(loc.as_slice()), string_of(parts[0].as_slice()))
                };
                let href = format_links(location.as_str());
                let mut html = String::from_str("<a href=\"");
                html.append(href.as_str());
                html.append("\">");
                html.append(text.as_str());
                html.append("</a>");
                context.link_location = String::new();
                context.outlinks.push(location);
                (ParserMachine { state: ParserState::Accept, context }, Event::Html(html))
            },
            (ParserState::TranscludeStart, ParserState::LinkStart) => (
                ParserMachine { state: ParserState::Accept, context },
                Event::Text(String::new()),
            ),
            (ParserState::TranscludeStart, ParserState::LocationParsing(_)) => (
                ParserMachine { state: ParserState::LocationParsing(String::new()), context },
                Event::Text(String::new()),
            ),
            (ParserState::TranscludeStart, ParserState::TranscludeStart) => (
                ParserMachine {
                    state: ParserState::TranscludeParsing(String::from_str("asdf")),
                    context,
                },
                Event::Text(String::new()),
            ),
            (ParserState::TranscludeParsing(_), ParserState::TranscludeParsing(title)) => (
                ParserMachine { state: ParserState::TranscludeParsing(title), context },
                Event::Text(String::new()),
            ),
            (ParserState::TranscludeEnd, ParserState::LinkStart) => (
                ParserMachine { state: ParserState::Accept, context },
                Event::Text(String::new()),
            ),
            (ParserState::TranscludeEnd, ParserState::LocationParsing(_)) => (
                ParserMachine { state: ParserState::LocationParsing(String::new()), context },
                Event::Text(String::new()),
            ),
            (ParserState::TranscludeEnd, ParserState::TranscludeStart) => (
                ParserMachine { state: ParserState::Accept, context },
                Event::Text(String::new()),
            ),
            (message, _) => (ParserMachine { state: message, context }, Event::Text(String::new())),
        }
    }
}


/// Closing a link `[[text|target]]` records its target, links to the target's
/// address and shows the text; the link's text is cleared and the parser is back
/// to plain text.
pub proof fn law_closed_link_records_target(m: MachineView, text: Seq<char>, target: Seq<char>)
    requires
        !text.contains('|'),
        !target.contains('|'),
        m.link_location == text + "|"@ + target,
    ensures
        next_outlinks(StateView::LinkEnd, StateView::LinkEnd, m) == m.outlinks.push(target),
        next_event(StateView::LinkEnd, StateView::LinkEnd, m.link_location) == EventView::Html(
            "<a href=\""@ + spec_format_links(target) + "\">"@ + text + "</a>"@,
        ),
        next_link_location(StateView::LinkEnd, StateView::LinkEnd, m.link_location)
            == Seq::<char>::empty(),
        next_state(StateView::LinkEnd, StateView::LinkEnd) == StateView::Accept,
{
    reveal_strlit("|");
    assert(text + "|"@ + target =~= text + seq!['|'] + target);
    crate::text::lemma_split_concat(text, target, '|');
    crate::text::lemma_split_no_sep_piece(text, '|');
    crate::text::lemma_split_no_sep_piece(target, '|');
    assert(split_char(m.link_location, '|') =~= seq![text, target]);
}

/// Closing a link `[[location]]` without `|` records the location, links to its
/// address and shows it.
pub proof fn law_closed_plain_link_records_location(m: MachineView)
    requires
        !m.link_location.contains('|'),
    ensures
        next_outlinks(StateView::LinkEnd, StateView::LinkEnd, m) == m.outlinks.push(
            m.link_location,
        ),
        next_event(StateView::LinkEnd, StateView::LinkEnd, m.link_location) == EventView::Html(
            "<a href=\""@ + spec_format_links(m.link_location) + "\">"@ + m.link_location
                + "</a>"@,
        ),
{
    crate::text::lemma_split_no_sep_piece(m.link_location, '|');
}

} // verus!
