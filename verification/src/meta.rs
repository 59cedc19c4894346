//! Notes whose header is fenced by `---` lines: the parser state machine, the
//! parser and the printer.
use vstd::prelude::*;

use crate::html::{strings_to_chars, strs};
use crate::metadata::{
    entries_text, entry_line, entry_lines, header_key, header_value, index_of_key, insert_entry,
    is_header_line, keys_distinct, lemma_entries_text, lemma_entry_line_reads_back,
    lemma_index_of_key, printable_entry, split_header_line, Entries, Metadata,
};
use crate::patch::PatchData;
use crate::tags::{tags_text, TagsArray};
use crate::text::{
    chars_of, lemma_split_char_nonempty, lemma_split_concat, lemma_split_join,
    lemma_split_no_sep_piece, lines, lines_of, split_char, string_of, strip_cr,
};
use crate::urls::chars_eq;

verus! {

/// Where the parser of a fenced header stands.
#[derive(Copy, Clone, PartialEq, Eq, Debug, Structural)]
pub enum MetaParserState {
    Ready,
    Parsing,
    End,
}

/// The parser's state machine.
#[derive(Copy, Clone)]
pub struct MetaParserMachine {
    pub state: MetaParserState,
}

impl MetaParserMachine {
    /// A machine that has not seen the opening fence.
    pub fn new() -> (r: MetaParserMachine)
        ensures
            r.state == MetaParserState::Ready,
    {
        MetaParserMachine { state: MetaParserState::Ready }
    }

    /// Moves to `next_state`.
    pub fn send(&mut self, next_state: MetaParserState)
        ensures
            final(self).state == next_state,
    {
        self.state = next_state;
    }

    /// The current state.
    pub fn current_state(self) -> (r: MetaParserState)
        ensures
            r == self.state,
    {
        self.state
    }
}

/// A fence line.
pub open spec fn is_fence(line: Seq<char>) -> bool {
    line == "---"@
}

/// The parser after one more line: fences open and close the header, header
/// lines are stored, lines after the header join the content (each after a
/// newline), and everything else is skipped.
pub open spec fn meta_step(
    st: (MetaParserState, Entries, Seq<char>),
    line: Seq<char>,
) -> (MetaParserState, Entries, Seq<char>) {
    let (s, e, c) = st;
    if is_fence(line) {
        match s {
            MetaParserState::Ready => (MetaParserState::Parsing, e, c),
            MetaParserState::Parsing => (MetaParserState::End, e, c),
            MetaParserState::End => st,
        }
    } else {
        match s {
            MetaParserState::Parsing => (
                s,
                insert_entry(e, header_key(line), header_value(line)),
                c,
            ),
            MetaParserState::End => (s, e, c + "\n"@ + line),
            MetaParserState::Ready => st,
        }
    }
}

/// The parser after all of `ls`.
pub open spec fn meta_parse(ls: Seq<Seq<char>>) -> (MetaParserState, Entries, Seq<char>)
    decreases ls.len(),
{
    if ls.len() == 0 {
        (MetaParserState::Ready, Seq::<(Seq<char>, Seq<char>)>::empty(), Seq::<char>::empty())
    } else {
        meta_step(meta_parse(ls.drop_last()), ls.last())
    }
}

/// Every line that the parser reads as a header line has a `": "`.
pub open spec fn meta_parse_defined(ls: Seq<Seq<char>>) -> bool {
    forall|i: int|
        0 <= i < ls.len() && (#[trigger] meta_parse(ls.take(i))).0 == MetaParserState::Parsing
            && !is_fence(ls[i]) ==> is_header_line(ls[i])
}

/// A note with a fenced header.
#[derive(Debug)]
pub struct NoteMeta {
    pub metadata: Metadata,
    pub content: String,
}

impl Default for NoteMeta {
    fn default() -> (r: NoteMeta)
        ensures
            r.metadata@.len() == 0,
            r.content@.len() == 0,
    {
        NoteMeta { metadata: Metadata::new(), content: String::new() }
    }
}

/// `---`, the entries, `---`, then the content.
pub open spec fn meta_text(e: Entries, content: Seq<char>) -> Seq<char> {
    "---\n"@ + entries_text(e) + "---\n"@ + content
}

/// The metadata of an edit: its own, then its title and its tags.
pub open spec fn patch_entries(e: Entries, title: Seq<char>, tags: Seq<Seq<char>>) -> Entries {
    insert_entry(insert_entry(e, "title"@, title), "tags"@, tags_text(tags))
}

/// Parses lines given as character vectors.
pub fn parse_meta_lines(ls: &Vec<Vec<char>>) -> (r: NoteMeta)
    requires
        meta_parse_defined(ls@.map_values(|l: Vec<char>| l@)),
    ensures
        ({
            let p = meta_parse(ls@.map_values(|l: Vec<char>| l@));
            r.metadata@ == p.1 && r.content@ == p.2
        }),
{
    let ghost lv = ls@.map_values(|l: Vec<char>| l@);
    let mut parser = MetaParserMachine::new();
    let mut notemeta = NoteMeta::default();
    let fence = chars_of("---");
    let mut i: usize = 0;
    assert(lv.take(0) =~= Seq::<Seq<char>>::empty());
    assert(notemeta.metadata@ =~= Seq::<(Seq<char>, Seq<char>)>::empty());
    assert(notemeta.content@ =~= Seq::<char>::empty());
    while i < ls.len()
        invariant
            i <= ls.len(),
            lv == ls@.map_values(|l: Vec<char>| l@),
            fence@ == "---"@,
            meta_parse_defined(lv),
            meta_parse(lv.take(i as int)) == (
                parser.state,
                notemeta.metadata@,
                notemeta.content@,
            ),
        decreases ls.len() - i,
    {
        let line = &ls[i];
        proof {
            assert(lv.take(i as int + 1).drop_last() =~= lv.take(i as int));
            assert(lv.take(i as int + 1).last() == line@);
            assert(lv[i as int] == line@);
        }
        if chars_eq(line.as_slice(), fence.as_slice()) {
            match parser.current_state() {
                MetaParserState::Ready => parser.send(MetaParserState::Parsing),
                MetaParserState::Parsing => parser.send(MetaParserState::End),
                _ => {},
            }
        } else {
            match parser.current_state() {
                MetaParserState::Parsing => {
                    assert(is_header_line(line@)) by {
                        assert(meta_parse(lv.take(i as int)).0 == MetaParserState::Parsing);
                    }
                    let kv = split_header_line(line.as_slice());
                    match kv {
                        Some((k, v)) => {
                            notemeta.metadata.insert(
                                string_of(k.as_slice()),
                                string_of(v.as_slice()),
                            );
                        },
                        None => {},
                    }
                },
                MetaParserState::End => {
                    notemeta.content.append("\n");
                    notemeta.content.append(string_of(line.as_slice()).as_str());
                },
                _ => {},
            }
        }
        i += 1;
    }
    assert(lv.take(ls.len() as int) =~= lv);
    notemeta
}

/// Parses a note given as lines. The marker names the source in messages.
pub fn parse_meta(lines: &Vec<String>, debug_marker: &str) -> (r: NoteMeta)
    requires
        meta_parse_defined(strs(lines@)),
    ensures
        r.metadata@ == meta_parse(strs(lines@)).1,
        r.content@ == meta_parse(strs(lines@)).2,
{
    let ls = strings_to_chars(lines);
    parse_meta_lines(&ls)
}

impl NoteMeta {
    /// Parses a whole note.
    pub fn from_string(stringified: String) -> (r: NoteMeta)
        requires
            meta_parse_defined(lines(stringified@)),
        ensures
            r.metadata@ == meta_parse(lines(stringified@)).1,
            r.content@ == meta_parse(lines(stringified@)).2,
    {
        let v = chars_of(stringified.as_str());
        let ls = lines_of(v.as_slice());
        parse_meta_lines(&ls)
    }

    /// The note for an edit: the edit's metadata with its title and tags stored,
    /// and its body as the content.
    pub fn from_patch(data: PatchData) -> (r: NoteMeta)
        ensures
            r.metadata@ == patch_entries(data.metadata@, data.title@, strs(data.tags@)),
            r.content@ == data.body@,
    {
        let mut metadata = data.metadata;
        metadata.insert(String::from_str("title"), data.title);
        let tags = TagsArray::from_values(data.tags);
        metadata.insert(String::from_str("tags"), tags.write());
        NoteMeta { metadata, content: data.body }
    }

    /// The note as text.
    pub fn into_string(self) -> (r: String)
        ensures
            r@ == meta_text(self.metadata@, self.content@),
    {
        let mut formatted_string = String::from_str("---\n");
        self.metadata.write_entries(&mut formatted_string);
        formatted_string.append("---\n");
        formatted_string.append(self.content.as_str());
        formatted_string
    }
}


/// Whether every line that the parser reads as a header line has a `": "`.
pub fn meta_lines_ok(ls: &Vec<Vec<char>>) -> (r: bool)
    ensures
        r == meta_parse_defined(ls@.map_values(|l: Vec<char>| l@)),
{
    let ghost lv = ls@.map_values(|l: Vec<char>| l@);
    let sep = chars_of(": ");
    let fence = chars_of("---");
    let mut state = MetaParserState::Ready;
    let mut i: usize = 0;
    assert(lv.take(0) =~= Seq::<Seq<char>>::empty());
    while i < ls.len()
        invariant
            i <= ls.len(),
            lv == ls@.map_values(|l: Vec<char>| l@),
            sep@ == ": "@,
            fence@ == "---"@,
            state == meta_parse(lv.take(i as int)).0,
            forall|j: int|
                0 <= j < i && (#[trigger] meta_parse(lv.take(j))).0 == MetaParserState::Parsing
                    && !is_fence(lv[j]) ==> is_header_line(lv[j]),
        decreases ls.len() - i,
    {
        assert(lv.take(i as int + 1).drop_last() =~= lv.take(i as int));
        assert(lv[i as int] == ls@[i as int]@);
        if chars_eq(ls[i].as_slice(), fence.as_slice()) {
            state = match state {
                MetaParserState::Ready => MetaParserState::Parsing,
                MetaParserState::Parsing => MetaParserState::End,
                MetaParserState::End => MetaParserState::End,
            };
        } else if state == MetaParserState::Parsing {
            let found = crate::text::slice_find_from(ls[i].as_slice(), sep.as_slice(), 0);
            if found.is_none() {
                assert(!is_header_line(lv[i as int]));
                assert(!meta_parse_defined(lv));
                return false;
            }
        }
        i += 1;
    }
    assert(lv.take(ls.len() as int) =~= lv);
    true
}

/// Whether every header line of a note's text has a `": "`.
pub fn meta_text_ok(text: &str) -> (r: bool)
    ensures
        r == meta_parse_defined(lines(text@)),
{
    let v = chars_of(text);
    let ls = lines_of(v.as_slice());
    meta_lines_ok(&ls)
}


/// The parser on lines that start with a printed fenced header: the opening
/// fence starts the header, the entries are read, the closing fence ends it,
/// and nothing after changes the metadata.
proof fn lemma_parse_after_fences(e: Entries, r: Seq<Seq<char>>, k: int)
    requires
        keys_distinct(e),
        forall|i: int| 0 <= i < e.len() ==> printable_entry(#[trigger] e[i]),
        r.len() > e.len() + 1,
        is_fence(r[0]),
        forall|i: int| 0 <= i < e.len() ==> r[i + 1] == entry_line(#[trigger] e[i]),
        is_fence(r[e.len() as int + 1]),
        0 <= k <= r.len(),
    ensures
        k == 0 ==> meta_parse(r.take(k)).0 == MetaParserState::Ready && meta_parse(r.take(k)).1
            == Seq::<(Seq<char>, Seq<char>)>::empty(),
        1 <= k <= e.len() + 1 ==> meta_parse(r.take(k)).0 == MetaParserState::Parsing
            && meta_parse(r.take(k)).1 == e.take(k - 1),
        k > e.len() + 1 ==> meta_parse(r.take(k)).0 == MetaParserState::End && meta_parse(
            r.take(k),
        ).1 == e,
    decreases k,
{
    let n = e.len() as int;
    if k == 0 {
        assert(r.take(0) =~= Seq::<Seq<char>>::empty());
    } else {
        lemma_parse_after_fences(e, r, k - 1);
        assert(r.take(k).drop_last() =~= r.take(k - 1));
        assert(r.take(k).last() == r[k - 1]);
        if k - 1 == 0 {
            assert(e.take(0) =~= Seq::<(Seq<char>, Seq<char>)>::empty());
        } else if k - 1 <= n {
            let q = e[k - 2];
            assert(printable_entry(q));
            assert(r[k - 1] == entry_line(q));
            lemma_entry_line_reads_back(q);
            assert(!is_fence(r[k - 1])) by {
                reveal_strlit("---");
                reveal_strlit(": ");
                let l = entry_line(q);
                if l == "---"@ {
                    assert(l[q.0.len() as int] == ':');
                    assert(l[q.0.len() as int] == '-');
                }
            }
            let t = e.take(k - 2);
            lemma_index_of_key(t, q.0);
            assert forall|j: int| 0 <= j < t.len() implies (#[trigger] t[j]).0 != q.0 by {
                assert(t[j] == e[j]);
            }
            assert(index_of_key(t, q.0) is None);
            assert(t.push(q) =~= e.take(k - 1));
        } else if k - 1 == n + 1 {
            assert(e.take(n) =~= e);
        }
    }
}

/// Whatever the content, a note printed with a fenced header reads back with
/// the metadata it was printed with: the same entries in the same order.
pub proof fn law_fenced_metadata_reads_back(e: Entries, c: Seq<char>)
    requires
        keys_distinct(e),
        forall|i: int| 0 <= i < e.len() ==> printable_entry(#[trigger] e[i]),
    ensures
        meta_parse_defined(lines(meta_text(e, c))),
        meta_parse(lines(meta_text(e, c))).1 == e,
{
    reveal_strlit("\n");
    reveal_strlit("---\n");
    reveal_strlit("---");
    reveal_strlit(": ");
    let fence = "---"@;
    assert("\n"@ =~= seq!['\n']);
    assert("---\n"@ =~= fence + seq!['\n']);
    let l = entry_lines(e);
    let n = e.len() as int;
    assert forall|i: int| 0 <= i < n implies !(#[trigger] l[i]).contains('\n') && strip_cr(l[i])
        == l[i] by {
        let q = e[i];
        assert(printable_entry(q));
        assert(l[i] == entry_line(q));
        if l[i].contains('\n') {
            let j = choose|j: int| 0 <= j < l[i].len() && l[i][j] == '\n';
            if j < q.0.len() {
                assert(q.0[j] == '\n');
            } else if j >= q.0.len() + 2 {
                assert(q.1[j - q.0.len() - 2] == '\n');
            } else {
                assert(": "@[j - q.0.len()] == '\n');
            }
        }
        if q.1.len() > 0 {
            assert(l[i].last() == q.1.last());
        } else {
            assert(l[i].last() == ' ');
        }
    }
    assert(!fence.contains('\n')) by {
        if fence.contains('\n') {
            let j = choose|j: int| 0 <= j < fence.len() && fence[j] == '\n';
            assert(fence[j] == '-');
        }
    }
    lemma_split_no_sep_piece(fence, '\n');
    lemma_split_char_nonempty(c, '\n');
    let tail = fence + seq!['\n'] + c;
    lemma_split_concat(fence, c, '\n');
    assert(split_char(tail, '\n') == seq![fence] + split_char(c, '\n'));
    let rest = entries_text(e) + tail;
    let after = if n > 0 {
        lemma_entries_text(e);
        lemma_split_join(l, '\n');
        let a = crate::text::join(l, seq!['\n']);
        assert(rest =~= a + seq!['\n'] + tail);
        lemma_split_concat(a, tail, '\n');
        l + split_char(tail, '\n')
    } else {
        assert(entries_text(e) =~= Seq::<char>::empty());
        assert(rest =~= tail);
        assert(l =~= Seq::<Seq<char>>::empty());
        split_char(tail, '\n')
    };
    assert(split_char(rest, '\n') == after);
    let text = meta_text(e, c);
    assert(text =~= fence + seq!['\n'] + rest);
    lemma_split_concat(fence, rest, '\n');
    let parts = split_char(text, '\n');
    assert(parts =~= seq![fence] + l + seq![fence] + split_char(c, '\n'));
    let r = lines(text);
    assert(r.len() >= n + 2);
    assert(r[0] == fence) by {
        assert(parts[0] == fence);
        assert(strip_cr(fence) == fence);
    }
    assert forall|i: int| 0 <= i < n implies r[i + 1] == entry_line(#[trigger] e[i]) by {
        assert(parts[i + 1] == l[i]);
    }
    assert(r[n + 1] == fence) by {
        assert(parts[n + 1] == fence);
        assert(strip_cr(fence) == fence);
    }
    lemma_parse_after_fences(e, r, r.len() as int);
    assert(r.take(r.len() as int) =~= r);
    assert forall|i: int|
        0 <= i < r.len() && (#[trigger] meta_parse(r.take(i))).0 == MetaParserState::Parsing
            && !is_fence(r[i]) implies is_header_line(r[i]) by {
        lemma_parse_after_fences(e, r, i);
        if 1 <= i <= n {
            assert(r[i] == entry_line(e[i - 1]));
            assert(printable_entry(e[i - 1]));
            lemma_entry_line_reads_back(e[i - 1]);
        }
    }
}

} // verus!
