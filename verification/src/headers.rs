//! Notes whose header runs to the first empty line: the parser state machine,
//! the parser, the printer and the conversions to and from edits.
use vstd::prelude::*;

use crate::html::{strings_to_chars, strs};
use crate::metadata::{
    entries_text, entry_line, entry_lines, header_key, header_value, index_of_key, insert_entry,
    is_header_line, keys_distinct, lemma_entries_text, lemma_entry_line_reads_back,
    lemma_index_of_key, lookup, printable_entry, split_header_line, Entries, Metadata,
};
use crate::patch::PatchData;
use crate::meta::patch_entries;
use crate::tags::{parse_tags, TagsArray};
use crate::text::{chars_of, join, lemma_split_join, lines, lines_of, split_char, string_of, strip_cr};

verus! {

/// Where the parser of a header stands.
#[derive(Copy, Clone, PartialEq, Eq, Debug, Structural)]
pub enum HeaderParserState {
    Parsing,
    End,
}

/// The parser's state machine.
#[derive(Copy, Clone)]
pub struct HeaderParserMachine {
    pub state: HeaderParserState,
}

impl HeaderParserMachine {
    /// A machine reading the header.
    pub fn new() -> (r: HeaderParserMachine)
        ensures
            r.state == HeaderParserState::Parsing,
    {
        HeaderParserMachine { state: HeaderParserState::Parsing }
    }

    /// Moves to `next_state`.
    pub fn send(&mut self, next_state: HeaderParserState)
        ensures
            final(self).state == next_state,
    {
        self.state = next_state;
    }

    /// The current state.
    pub fn current_state(self) -> (r: HeaderParserState)
        ensures
            r == self.state,
    {
        self.state
    }
}

/// The parser after one more line: the first empty line ends the header, header
/// lines are stored, and non-empty lines after the header join the content (each
/// after a newline); empty lines after the header are dropped.
pub open spec fn header_step(
    st: (HeaderParserState, Entries, Seq<char>),
    line: Seq<char>,
) -> (HeaderParserState, Entries, Seq<char>) {
    let (s, e, c) = st;
    if line.len() == 0 {
        (HeaderParserState::End, e, c)
    } else {
        match s {
            HeaderParserState::Parsing => (
                s,
                insert_entry(e, header_key(line), header_value(line)),
                c,
            ),
            HeaderParserState::End => (s, e, c + "\n"@ + line),
        }
    }
}

/// The parser after all of `ls`.
pub open spec fn header_parse(ls: Seq<Seq<char>>) -> (HeaderParserState, Entries, Seq<char>)
    decreases ls.len(),
{
    if ls.len() == 0 {
        (HeaderParserState::Parsing, Seq::<(Seq<char>, Seq<char>)>::empty(), Seq::<char>::empty())
    } else {
        header_step(header_parse(ls.drop_last()), ls.last())
    }
}

/// Every line that the parser reads as a header line has a `": "`.
pub open spec fn header_parse_defined(ls: Seq<Seq<char>>) -> bool {
    forall|i: int|
        0 <= i < ls.len() && (#[trigger] header_parse(ls.take(i))).0 == HeaderParserState::Parsing
            && ls[i].len() > 0 ==> is_header_line(ls[i])
}

/// A note with a header.
#[derive(Debug)]
pub struct NoteHeader {
    pub metadata: Metadata,
    pub content: String,
}

impl Default for NoteHeader {
    fn default() -> (r: NoteHeader)
        ensures
            r.metadata@.len() == 0,
            r.content@.len() == 0,
    {
        NoteHeader { metadata: Metadata::new(), content: String::new() }
    }
}

/// The entries, an empty line, then the content.
pub open spec fn header_text(e: Entries, content: Seq<char>) -> Seq<char> {
    entries_text(e) + "\n"@ + content
}

/// Parses lines given as character vectors.
pub fn parse_header_lines(ls: &Vec<Vec<char>>) -> (r: NoteHeader)
    requires
        header_parse_defined(ls@.map_values(|l: Vec<char>| l@)),
    ensures
        ({
            let p = header_parse(ls@.map_values(|l: Vec<char>| l@));
            r.metadata@ == p.1 && r.content@ == p.2
        }),
{
    let ghost lv = ls@.map_values(|l: Vec<char>| l@);
    let mut parser = HeaderParserMachine::new();
    let mut notemeta = NoteHeader::default();
    let mut i: usize = 0;
    assert(lv.take(0) =~= Seq::<Seq<char>>::empty());
    assert(notemeta.metadata@ =~= Seq::<(Seq<char>, Seq<char>)>::empty());
    assert(notemeta.content@ =~= Seq::<char>::empty());
    while i < ls.len()
        invariant
            i <= ls.len(),
            lv == ls@.map_values(|l: Vec<char>| l@),
            header_parse_defined(lv),
            header_parse(lv.take(i as int)) == (
                parser.state,
                notemeta.metadata@,
                notemeta.content@,
            ),
        decreases ls.len() - i,
    {
        let line = &ls[i];
        proof {
            assert(lv.take(i as int + 1).drop_last() =~= lv.take(i as int));
            assert(lv.take(i as int + 1).last() == line@);
            assert(lv[i as int] == line@);
        }
        if line.len() == 0 {
            if parser.current_state() == HeaderParserState::Parsing {
                parser.send(HeaderParserState::End);
            }
        } else {
            match parser.current_state() {
                HeaderParserState::Parsing => {
                    assert(is_header_line(line@)) by {
                        assert(header_parse(lv.take(i as int)).0 == HeaderParserState::Parsing);
                    }
                    let kv = split_header_line(line.as_slice());
                    match kv {
                        Some((k, v)) => {
                            notemeta.metadata.insert(
                                string_of(k.as_slice()),
                                string_of(v.as_slice()),
                            );
                        },
                        None => {},
                    }
                },
                HeaderParserState::End => {
                    notemeta.content.append("\n");
                    notemeta.content.append(string_of(line.as_slice()).as_str());
                },
            }
        }
        i += 1;
    }
    assert(lv.take(ls.len() as int) =~= lv);
    notemeta
}

/// Parses a note given as lines. The marker names the source in messages.
pub fn parse_meta(lines: &Vec<String>, debug_marker: &str) -> (r: NoteHeader)
    requires
        header_parse_defined(strs(lines@)),
    ensures
        r.metadata@ == header_parse(strs(lines@)).1,
        r.content@ == header_parse(strs(lines@)).2,
{
    let ls = strings_to_chars(lines);
    parse_header_lines(&ls)
}

impl NoteHeader {
    /// Parses a whole note.
    pub fn from_string(stringified: String) -> (r: NoteHeader)
        requires
            header_parse_defined(lines(stringified@)),
        ensures
            r.metadata@ == header_parse(lines(stringified@)).1,
            r.content@ == header_parse(lines(stringified@)).2,
    {
        let v = chars_of(stringified.as_str());
        let ls = lines_of(v.as_slice());
        parse_header_lines(&ls)
    }

    /// The note for an edit: the edit's metadata with its title and tags stored,
    /// and its body as the content.
    pub fn from_patch(data: PatchData) -> (r: NoteHeader)
        ensures
            r.metadata@ == patch_entries(data.metadata@, data.title@, strs(data.tags@)),
            r.content@ == data.body@,
    {
        let mut metadata = data.metadata;
        metadata.insert(String::from_str("title"), data.title);
        let tags = TagsArray::from_values(data.tags);
        metadata.insert(String::from_str("tags"), tags.write());
        NoteHeader { metadata, content: data.body }
    }

    /// The note for an edit, leaving the edit as it is.
    pub fn from_patch_ref(data: &PatchData) -> (r: NoteHeader)
        ensures
            r.metadata@ == patch_entries(data.metadata@, data.title@, strs(data.tags@)),
            r.content@ == data.body@,
    {
        let mut metadata = data.metadata.duplicate();
        metadata.insert(String::from_str("title"), data.title.clone());
        let tags = TagsArray::from_values(clone_strings(&data.tags));
        metadata.insert(String::from_str("tags"), tags.write());
        NoteHeader { metadata, content: data.body.clone() }
    }

    /// The edit that stores this note as it is: its title (also as the title it
    /// had), its tags read from the header, its content as the body.
    pub fn into_patch(self) -> (r: PatchData)
        requires
            lookup(self.metadata@, "title"@) is Some,
            lookup(self.metadata@, "tags"@) is Some,
        ensures
            r.title@ == lookup(self.metadata@, "title"@).unwrap(),
            r.old_title@ == r.title@,
            strs(r.tags@) == parse_tags(lookup(self.metadata@, "tags"@).unwrap()),
            r.body@ == self.content@,
            r.metadata@ == self.metadata@,
    {
        let title = match self.metadata.get("title") {
            Some(t) => t.clone(),
            None => String::new(),
        };
        let tags = match self.metadata.get("tags") {
            Some(t) => TagsArray::new(t.as_str()),
            None => TagsArray::new(""),
        };
        let old_title = title.clone();
        PatchData { body: self.content, tags: tags.values, title, old_title, metadata: self.metadata }
    }

    /// The note as text.
    pub fn into_string(self) -> (r: String)
        ensures
            r@ == header_text(self.metadata@, self.content@),
    {
        let mut formatted_string = String::new();
        self.metadata.write_entries(&mut formatted_string);
        formatted_string.append("\n");
        formatted_string.append(self.content.as_str());
        formatted_string
    }
}

/// Copies a vector of strings.
pub fn clone_strings(v: &Vec<String>) -> (r: Vec<String>)
    ensures
        r@ == v@,
{
    let mut out: Vec<String> = Vec::new();
    let mut i: usize = 0;
    while i < v.len()
        invariant
            i <= v.len(),
            out@ == v@.take(i as int),
        decreases v.len() - i,
    {
        out.push(v[i].clone());
        assert(out@ =~= v@.take(i as int + 1));
        i += 1;
    }
    assert(v@.take(v.len() as int) =~= v@);
    out
}


/// The content made of the given lines, each after a newline, as parsing
/// collects it.
pub open spec fn content_of(ls: Seq<Seq<char>>) -> Seq<char>
    decreases ls.len(),
{
    if ls.len() == 0 {
        Seq::<char>::empty()
    } else {
        content_of(ls.drop_last()) + "\n"@ + ls.last()
    }
}

/// A content line that reads back as written: not empty, no newline, and no
/// carriage return at its end.
pub open spec fn content_line_ok(l: Seq<char>) -> bool {
    l.len() > 0 && !l.contains('\n') && l.last() != '\r'
}

/// The pieces of a printed note between its newlines.
pub open spec fn printed_pieces(e: Entries, ls: Seq<Seq<char>>) -> Seq<Seq<char>> {
    entry_lines(e) + seq![Seq::<char>::empty(), Seq::<char>::empty()] + ls
}

/// Joining one more piece.
proof fn lemma_join_push(p: Seq<Seq<char>>, x: Seq<char>, sep: Seq<char>)
    requires
        p.len() > 0,
    ensures
        join(p.push(x), sep) == join(p, sep) + sep + x,
{
    assert(p.push(x).drop_last() =~= p);
}

/// A printed note is its pieces joined by newlines.
proof fn lemma_text_is_join(e: Entries, ls: Seq<Seq<char>>)
    ensures
        header_text(e, content_of(ls)) == join(printed_pieces(e, ls), "\n"@),
    decreases ls.len(),
{
    let two = seq![Seq::<char>::empty(), Seq::<char>::empty()];
    if ls.len() == 0 {
        let l = entry_lines(e);
        assert(printed_pieces(e, ls) =~= l + two);
        if e.len() > 0 {
            lemma_entries_text(e);
            lemma_join_push(l, Seq::<char>::empty(), "\n"@);
            assert(l + two =~= l.push(Seq::<char>::empty()).push(Seq::<char>::empty()));
            lemma_join_push(l.push(Seq::<char>::empty()), Seq::<char>::empty(), "\n"@);
            assert(header_text(e, content_of(ls)) =~= join(l + two, "\n"@));
        } else {
            assert(l =~= Seq::<Seq<char>>::empty());
            assert(l + two =~= two);
            assert(two.drop_last() =~= seq![Seq::<char>::empty()]);
            assert(entries_text(e) =~= Seq::<char>::empty());
            assert(content_of(ls) =~= Seq::<char>::empty());
            assert(join(seq![Seq::<char>::empty()], "\n"@) =~= Seq::<char>::empty());
            assert(join(two, "\n"@) == join(two.drop_last(), "\n"@) + "\n"@ + two.last());
            assert(header_text(e, content_of(ls)) =~= join(two, "\n"@));
        }
    } else {
        let d = ls.drop_last();
        lemma_text_is_join(e, d);
        assert(printed_pieces(e, ls) =~= printed_pieces(e, d).push(ls.last()));
        lemma_join_push(printed_pieces(e, d), ls.last(), "\n"@);
        assert(header_text(e, content_of(ls)) =~= header_text(e, content_of(d)) + "\n"@ + ls.last());
    }
}

/// The lines a printed note is read as.
pub open spec fn read_lines(e: Entries, ls: Seq<Seq<char>>) -> Seq<Seq<char>> {
    if ls.len() == 0 {
        entry_lines(e).push(Seq::<char>::empty())
    } else {
        printed_pieces(e, ls)
    }
}

/// Reading a printed note gives its pieces (less a final empty one).
proof fn lemma_lines_printed(e: Entries, ls: Seq<Seq<char>>)
    requires
        forall|i: int| 0 <= i < e.len() ==> printable_entry(#[trigger] e[i]),
        forall|j: int| 0 <= j < ls.len() ==> content_line_ok(#[trigger] ls[j]),
    ensures
        lines(header_text(e, content_of(ls))) == read_lines(e, ls),
{
    reveal_strlit("\n");
    reveal_strlit(": ");
    assert("\n"@ =~= seq!['\n']);
    let p = printed_pieces(e, ls);
    let n = entry_lines(e).len();
    lemma_text_is_join(e, ls);
    let text = header_text(e, content_of(ls));
    assert forall|i: int| 0 <= i < p.len() implies !(#[trigger] p[i]).contains('\n') && strip_cr(p[i])
        == p[i] by {
        if i < n {
            let q = e[i];
            assert(printable_entry(q));
            assert(p[i] == entry_line(q));
            if p[i].contains('\n') {
                let j = choose|j: int| 0 <= j < p[i].len() && p[i][j] == '\n';
                if j < q.0.len() {
                    assert(q.0[j] == '\n');
                } else if j >= q.0.len() + 2 {
                    assert(q.1[j - q.0.len() - 2] == '\n');
                } else {
                    assert(": "@[j - q.0.len()] == '\n');
                }
            }
            if q.1.len() > 0 {
                assert(p[i].last() == q.1.last());
            } else {
                assert(p[i].last() == ' ');
            }
        } else if i < n + 2 {
            assert(p[i] =~= Seq::<char>::empty());
        } else {
            assert(p[i] == ls[i - n - 2]);
            assert(content_line_ok(ls[i - n - 2]));
        }
    }
    lemma_split_join(p, '\n');
    assert(split_char(text, '\n') == p);
    let mapped = p.drop_last().map_values(|l: Seq<char>| strip_cr(l));
    assert(mapped =~= p.drop_last());
    lemma_join_push(p.drop_last(), p.last(), seq!['\n']);
    assert(p.drop_last().push(p.last()) =~= p);
    if ls.len() == 0 {
        assert(p.last() =~= Seq::<char>::empty());
        assert(text.last() == '\n');
        assert(p.drop_last() =~= entry_lines(e).push(Seq::<char>::empty()));
    } else {
        assert(p.last() == ls.last());
        assert(content_line_ok(ls[ls.len() - 1]));
        assert(text.last() == ls.last().last());
        assert(text.last() != '\n') by {
            assert(ls.last()[ls.last().len() - 1] == ls.last().last());
        }
    }
}

/// Where the parser stands after the first `k` lines of a printed note.
pub open spec fn printed_state(e: Entries, ls: Seq<Seq<char>>, k: int) -> (HeaderParserState, Entries, Seq<char>) {
    let n = e.len() as int;
    if k <= n {
        (HeaderParserState::Parsing, e.take(k), Seq::<char>::empty())
    } else if k <= n + 2 {
        (HeaderParserState::End, e, Seq::<char>::empty())
    } else {
        (HeaderParserState::End, e, content_of(ls.take(k - n - 2)))
    }
}

/// The parser walks through a printed note as `printed_state` says.
proof fn lemma_parse_printed(e: Entries, ls: Seq<Seq<char>>, k: int)
    requires
        keys_distinct(e),
        forall|i: int| 0 <= i < e.len() ==> printable_entry(#[trigger] e[i]),
        forall|j: int| 0 <= j < ls.len() ==> content_line_ok(#[trigger] ls[j]),
        0 <= k <= read_lines(e, ls).len(),
    ensures
        header_parse(read_lines(e, ls).take(k)) == printed_state(e, ls, k),
    decreases k,
{
    let r = read_lines(e, ls);
    let n = e.len() as int;
    if k == 0 {
        assert(r.take(0) =~= Seq::<Seq<char>>::empty());
        assert(e.take(0) =~= Seq::<(Seq<char>, Seq<char>)>::empty());
    } else {
        lemma_parse_printed(e, ls, k - 1);
        assert(r.take(k).drop_last() =~= r.take(k - 1));
        assert(r.take(k).last() == r[k - 1]);
        let line = r[k - 1];
        if k - 1 < n {
            let q = e[k - 1];
            assert(printable_entry(q));
            assert(line == entry_line(q));
            lemma_entry_line_reads_back(q);
            assert(line.len() > 0) by {
                reveal_strlit(": ");
                assert(line.len() >= 2);
            }
            let t = e.take(k - 1);
            lemma_index_of_key(t, q.0);
            assert forall|j: int| 0 <= j < t.len() implies (#[trigger] t[j]).0 != q.0 by {
                assert(t[j] == e[j]);
            }
            assert(index_of_key(e.take(k - 1), q.0) is None);
            assert(e.take(k - 1).push(q) =~= e.take(k));
        } else if k - 1 == n {
            assert(line =~= Seq::<char>::empty());
            assert(e.take(n) =~= e);
        } else if k - 1 == n + 1 {
            assert(line =~= Seq::<char>::empty());
        } else {
            let j = k - 1 - n - 2;
            assert(line == ls[j]);
            assert(content_line_ok(ls[j]));
            assert(ls.take(j + 1).drop_last() =~= ls.take(j));
            assert(ls.take(j + 1).last() == ls[j]);
            if j == 0 {
                assert(ls.take(0) =~= Seq::<Seq<char>>::empty());
            }
        }
    }
}

/// A note whose entries and content lines read back as written, once printed
/// and parsed, is the same note: the same metadata, in the same order, and the
/// same content.
pub proof fn law_note_reads_back(e: Entries, ls: Seq<Seq<char>>)
    requires
        keys_distinct(e),
        forall|i: int| 0 <= i < e.len() ==> printable_entry(#[trigger] e[i]),
        forall|j: int| 0 <= j < ls.len() ==> content_line_ok(#[trigger] ls[j]),
    ensures
        header_parse_defined(lines(header_text(e, content_of(ls)))),
        header_parse(lines(header_text(e, content_of(ls)))).1 == e,
        header_parse(lines(header_text(e, content_of(ls)))).2 == content_of(ls),
{
    lemma_lines_printed(e, ls);
    let r = read_lines(e, ls);
    let n = e.len() as int;
    lemma_parse_printed(e, ls, r.len() as int);
    assert(r.take(r.len() as int) =~= r);
    if ls.len() > 0 {
        assert(ls.take(ls.len() as int) =~= ls);
    }
    assert forall|i: int|
        0 <= i < r.len() && (#[trigger] header_parse(r.take(i))).0 == HeaderParserState::Parsing
            && r[i].len() > 0 implies is_header_line(r[i]) by {
        lemma_parse_printed(e, ls, i);
        if i < n {
            assert(r[i] == entry_line(e[i]));
            assert(printable_entry(e[i]));
            lemma_entry_line_reads_back(e[i]);
        } else {
            assert(i == n);
            assert(r[i] =~= Seq::<char>::empty());
        }
    }
}


/// Whether every line that the parser reads as a header line has a `": "`.
pub fn header_lines_ok(ls: &Vec<Vec<char>>) -> (r: bool)
    ensures
        r == header_parse_defined(ls@.map_values(|l: Vec<char>| l@)),
{
    let ghost lv = ls@.map_values(|l: Vec<char>| l@);
    let sep = chars_of(": ");
    let mut parsing = true;
    let mut i: usize = 0;
    assert(lv.take(0) =~= Seq::<Seq<char>>::empty());
    while i < ls.len()
        invariant
            i <= ls.len(),
            lv == ls@.map_values(|l: Vec<char>| l@),
            sep@ == ": "@,
            parsing == (header_parse(lv.take(i as int)).0 == HeaderParserState::Parsing),
            forall|j: int|
                0 <= j < i && (#[trigger] header_parse(lv.take(j))).0 == HeaderParserState::Parsing
                    && lv[j].len() > 0 ==> is_header_line(lv[j]),
        decreases ls.len() - i,
    {
        assert(lv.take(i as int + 1).drop_last() =~= lv.take(i as int));
        assert(lv[i as int] == ls@[i as int]@);
        if ls[i].len() == 0 {
            parsing = false;
        } else if parsing {
            let found = crate::text::slice_find_from(ls[i].as_slice(), sep.as_slice(), 0);
            if found.is_none() {
                assert(!is_header_line(lv[i as int]));
                assert(!header_parse_defined(lv));
                return false;
            }
        }
        i += 1;
    }
    assert(lv.take(ls.len() as int) =~= lv);
    true
}

/// Whether every header line of a note's text has a `": "`.
pub fn header_text_ok(text: &str) -> (r: bool)
    ensures
        r == header_parse_defined(lines(text@)),
{
    let v = chars_of(text);
    let ls = lines_of(v.as_slice());
    header_lines_ok(&ls)
}


/// The parser on lines that start with a printed header: it reads the entries,
/// the empty line ends the header, and nothing after changes the metadata.
proof fn lemma_parse_after_header(e: Entries, r: Seq<Seq<char>>, k: int)
    requires
        keys_distinct(e),
        forall|i: int| 0 <= i < e.len() ==> printable_entry(#[trigger] e[i]),
        r.len() > e.len(),
        forall|i: int| 0 <= i < e.len() ==> r[i] == entry_line(#[trigger] e[i]),
        r[e.len() as int] == Seq::<char>::empty(),
        0 <= k <= r.len(),
    ensures
        k <= e.len() ==> header_parse(r.take(k)) == (
            HeaderParserState::Parsing,
            e.take(k),
            Seq::<char>::empty(),
        ),
        k > e.len() ==> header_parse(r.take(k)).0 == HeaderParserState::End && header_parse(
            r.take(k),
        ).1 == e,
    decreases k,
{
    let n = e.len() as int;
    if k == 0 {
        assert(r.take(0) =~= Seq::<Seq<char>>::empty());
        assert(e.take(0) =~= Seq::<(Seq<char>, Seq<char>)>::empty());
    } else {
        lemma_parse_after_header(e, r, k - 1);
        assert(r.take(k).drop_last() =~= r.take(k - 1));
        assert(r.take(k).last() == r[k - 1]);
        if k - 1 < n {
            let q = e[k - 1];
            assert(printable_entry(q));
            lemma_entry_line_reads_back(q);
            assert(r[k - 1].len() > 0) by {
                reveal_strlit(": ");
                assert(r[k - 1] == entry_line(e[k - 1]));
            }
            let t = e.take(k - 1);
            lemma_index_of_key(t, q.0);
            assert forall|j: int| 0 <= j < t.len() implies (#[trigger] t[j]).0 != q.0 by {
                assert(t[j] == e[j]);
            }
            assert(t.push(q) =~= e.take(k));
        } else if k - 1 == n {
            assert(e.take(n) =~= e);
        }
    }
}

/// Whatever the content, a printed note reads back with the metadata it was
/// printed with: the same entries in the same order.
pub proof fn law_metadata_reads_back(e: Entries, c: Seq<char>)
    requires
        keys_distinct(e),
        forall|i: int| 0 <= i < e.len() ==> printable_entry(#[trigger] e[i]),
    ensures
        header_parse_defined(lines(header_text(e, c))),
        header_parse(lines(header_text(e, c))).1 == e,
{
    reveal_strlit("\n");
    reveal_strlit(": ");
    assert("\n"@ =~= seq!['\n']);
    let l = entry_lines(e);
    let p = l.push(Seq::<char>::empty());
    let n = e.len() as int;
    assert forall|i: int| 0 <= i < p.len() implies !(#[trigger] p[i]).contains('\n') && strip_cr(p[i])
        == p[i] by {
        if i < n {
            let q = e[i];
            assert(printable_entry(q));
            assert(p[i] == entry_line(q));
            if p[i].contains('\n') {
                let j = choose|j: int| 0 <= j < p[i].len() && p[i][j] == '\n';
                if j < q.0.len() {
                    assert(q.0[j] == '\n');
                } else if j >= q.0.len() + 2 {
                    assert(q.1[j - q.0.len() - 2] == '\n');
                } else {
                    assert(": "@[j - q.0.len()] == '\n');
                }
            }
            if q.1.len() > 0 {
                assert(p[i].last() == q.1.last());
            } else {
                assert(p[i].last() == ' ');
            }
        } else {
            assert(p[i] =~= Seq::<char>::empty());
        }
    }
    let a = join(p, seq!['\n']);
    if n > 0 {
        lemma_entries_text(e);
        lemma_join_push(l, Seq::<char>::empty(), seq!['\n']);
        assert(header_text(e, c) =~= a + seq!['\n'] + c);
    } else {
        assert(l =~= Seq::<Seq<char>>::empty());
        assert(p =~= seq![Seq::<char>::empty()]);
        assert(a =~= Seq::<char>::empty());
        assert(entries_text(e) =~= Seq::<char>::empty());
        assert(header_text(e, c) =~= a + seq!['\n'] + c);
    }
    lemma_split_join(p, '\n');
    crate::text::lemma_split_concat(a, c, '\n');
    crate::text::lemma_split_char_nonempty(c, '\n');
    let text = header_text(e, c);
    let parts = split_char(text, '\n');
    assert(parts == p + split_char(c, '\n'));
    let r = lines(text);
    assert(r.len() >= p.len());
    assert forall|i: int| 0 <= i < p.len() implies r[i] == p[i] by {
        assert(parts[i] == p[i]);
        assert(i < parts.len() - 1);
    }
    assert forall|i: int| 0 <= i < n implies r[i] == entry_line(#[trigger] e[i]) by {
        assert(r[i] == p[i]);
    }
    assert(r[n] == p[n]);
    lemma_parse_after_header(e, r, r.len() as int);
    assert(r.take(r.len() as int) =~= r);
    assert forall|i: int|
        0 <= i < r.len() && (#[trigger] header_parse(r.take(i))).0 == HeaderParserState::Parsing
            && r[i].len() > 0 implies is_header_line(r[i]) by {
        lemma_parse_after_header(e, r, i);
        if i < n {
            assert(r[i] == entry_line(e[i]));
            assert(printable_entry(e[i]));
            lemma_entry_line_reads_back(e[i]);
        } else {
            assert(i == n);
        }
    }
}

} // verus!
