//! Rendering of note text to HTML: headings, text blocks and wiki links.
use vstd::prelude::*;

use crate::text::{
    append_chars, chars_of, ends_with, join, join_chars, lemma_split_char_nonempty, replace,
    replace_chars, slice_ends_with, slice_starts_with, split_char, split_chars, starts_with,
    string_of, sub_chars, trim, trim_chars,
};
pub use crate::urls::format_links;
use crate::urls::{format_links_defined, spec_format_links};

verus! {

/// ASCII punctuation, the class `[[:punct:]]` of the `regex` crate.
pub open spec fn is_ascii_punct(c: char) -> bool {
    ('!' <= c && c <= '/') || (':' <= c && c <= '@') || ('[' <= c && c <= '`') || ('{' <= c && c
        <= '~')
}

/// Whether a word closes a wiki link: it ends in `]]`, or in `]]` and one ASCII
/// punctuation character.
pub open spec fn is_link_end(w: Seq<char>) -> bool {
    ends_with(w, "]]"@) || (w.len() >= 3 && w.subrange(w.len() - 3, w.len() - 1) == "]]"@
        && is_ascii_punct(w.last()))
}

/// The punctuation that follows the closing `]]` of a word (empty when the word
/// ends in `]]`).
pub open spec fn link_end_punct(w: Seq<char>) -> Seq<char> {
    if ends_with(w, "]]"@) {
        Seq::empty()
    } else {
        seq![w.last()]
    }
}

/// Calls the `regex` crate with the pattern `(.*)(\]\])([[:punct:]]?$)`: there is a
/// match exactly when the word ends in `]]`, possibly followed by one ASCII
/// punctuation character, and the third group is that character (the greedy
/// first group leaves it empty when the word ends in `]]`).
#[verifier::external_body]
pub(crate) fn link_end_capture(word: &str) -> (r: Option<String>)
    ensures
        r is Some <==> is_link_end(word@),
        r matches Some(p) ==> p@ == link_end_punct(word@),
{
    let re = regex::Regex::new(r"(.*)(\]\])([[:punct:]]?$)").unwrap();
    match re.captures(word) {
        Some(caps) => match caps.get(3) {
            Some(m) => Some(m.as_str().to_string()),
            None => Some(String::new()),
        },
        None => None,
    }
}

/// The markup of a link with address `href` shown as `text`, where `text` ends a
/// link: the closing brackets and the trailing punctuation are taken out of the
/// shown text and the punctuation is put after the link.
pub open spec fn spec_wiki_link(href: Seq<char>, text: Seq<char>) -> Seq<char> {
    let punct = link_end_punct(text);
    "<a href=\""@ + href + "\">"@ + replace(replace(text, "]]"@, Seq::empty()), punct, Seq::empty())
        + "</a>"@ + punct
}

/// A block of markup wrapped in the wiki's text-block container.
pub open spec fn spec_text_block(inner: Seq<char>) -> Seq<char> {
    "<div class=\"text-block\">"@ + inner + "</div>"@
}

/// Wraps a block of rendered markup in the wiki's text-block container.
pub fn format_text_block(inner: &str) -> (r: String)
    ensures
        r@ == spec_text_block(inner@),
{
    let mut s = String::from_str("<div class=\"text-block\">");
    s.append(inner);
    s.append("</div>");
    s
}

/// Appends to `parsed` the markup of a link with address `href` shown as `text`.
pub fn construct_wiki_link(string_collection: &mut Vec<String>, parts: (&str, &str))
    requires
        is_link_end(parts.1@),
    ensures
        final(string_collection)@.len() == old(string_collection)@.len() + 1,
        final(string_collection)@.drop_last() == old(string_collection)@,
        final(string_collection)@.last()@ == spec_wiki_link(parts.0@, parts.1@),
{
    let punct = link_end_capture(parts.1);
    let punct = match punct {
        Some(p) => p,
        None => String::new(),
    };
    let text = chars_of(parts.1);
    let close = chars_of("]]");
    let empty: Vec<char> = Vec::new();
    proof {
        reveal_strlit("]]");
    }
    let no_close = replace_chars(text.as_slice(), close.as_slice(), empty.as_slice());
    let p = chars_of(punct.as_str());
    let formatted = if p.len() > 0 {
        replace_chars(no_close.as_slice(), p.as_slice(), empty.as_slice())
    } else {
        no_close
    };
    let mut out = String::from_str("<a href=\"");
    out.append(parts.0);
    out.append("\">");
    let f = string_of(formatted.as_slice());
    out.append(f.as_str());
    out.append("</a>");
    out.append(punct.as_str());
    assert(empty@ =~= Seq::<char>::empty());
    string_collection.push(out);
}


/// What rendering a line has produced after some of its words: the rendered
/// words, the text of a link opened by `[[` and not yet closed, the links found,
/// and whether every word so far was one that rendering is defined on.
pub struct LineAcc {
    pub parsed: Seq<Seq<char>>,
    pub pending: Option<Seq<char>>,
    pub outlinks: Seq<Seq<char>>,
    pub ok: bool,
}

/// A link target is recorded as an outlink unless it is a web address.
pub open spec fn record_link(outlinks: Seq<Seq<char>>, target: Seq<char>, by: Seq<char>) -> Seq<
    Seq<char>,
> {
    if starts_with(by, "http"@) {
        outlinks
    } else {
        outlinks.push(target)
    }
}

/// Rendering one more word of a line.
/// - A word that both opens (`[[`) and closes a link is a whole link, `[[target]]`
///   or `[[text|target]]`.
/// - A word that only opens a link starts one; its text waits for the closing word.
/// - A closing word ends the pending link: `[[text| target]]` links `text` to the
///   closing word, `[[first ...last]]` joins the two words into the target.
/// - Every other word is kept as it is.
pub open spec fn word_step(acc: LineAcc, w: Seq<char>) -> LineAcc {
    if starts_with(w, "[["@) && is_link_end(w) {
        let aliases = split_char(w.subrange(2, w.len() as int), '|');
        if aliases.len() > 1 {
            LineAcc {
                parsed: acc.parsed.push(spec_wiki_link(spec_format_links(aliases[1]), aliases[0])),
                pending: acc.pending,
                outlinks: record_link(acc.outlinks, aliases[1], aliases[1]),
                ok: acc.ok && is_link_end(aliases[0]) && format_links_defined(aliases[1]),
            }
        } else {
            LineAcc {
                parsed: acc.parsed.push(spec_wiki_link(spec_format_links(aliases[0]), aliases[0])),
                pending: acc.pending,
                outlinks: record_link(acc.outlinks, aliases[0], aliases[0]),
                ok: acc.ok && is_link_end(aliases[0]) && format_links_defined(aliases[0]),
            }
        }
    } else if starts_with(w, "[["@) {
        LineAcc { pending: Some(w.subrange(2, w.len() as int)), ..acc }
    } else if is_link_end(w) {
        match acc.pending {
            None => LineAcc { parsed: acc.parsed.push(w), ..acc },
            Some(prev) => if ends_with(prev, "|"@) {
                LineAcc {
                    parsed: acc.parsed.push(spec_wiki_link(spec_format_links(prev.drop_last()), w)),
                    pending: None,
                    outlinks: record_link(acc.outlinks, prev, w),
                    ok: acc.ok && format_links_defined(prev.drop_last()),
                }
            } else {
                let second_half = replace(
                    replace(w, "]]"@, Seq::empty()),
                    link_end_punct(w),
                    Seq::empty(),
                );
                let constructed = prev + " "@ + second_half;
                LineAcc {
                    parsed: acc.parsed.push(
                        spec_wiki_link(spec_format_links(constructed), prev + " "@ + w),
                    ),
                    pending: None,
                    outlinks: record_link(acc.outlinks, constructed, w),
                    ok: acc.ok && format_links_defined(constructed) && is_link_end(
                        prev + " "@ + w,
                    ),
                }
            },
        }
    } else {
        LineAcc { parsed: acc.parsed.push(w), ..acc }
    }
}

/// A one-word wiki link `[[target]]` (its closing brackets and any punctuation
/// included, as the link's word holds them) records what follows `[[` as an
/// outlink, unless that is a web address.
pub proof fn law_one_word_link_recorded(acc: LineAcc, body: Seq<char>)
    requires
        is_link_end("[["@ + body),
        !body.contains('|'),
    ensures
        !starts_with(body, "http"@) ==> word_step(acc, "[["@ + body).outlinks == acc.outlinks.push(
            body,
        ),
        starts_with(body, "http"@) ==> word_step(acc, "[["@ + body).outlinks == acc.outlinks,
{
    reveal_strlit("[[");
    let w = "[["@ + body;
    assert(w.subrange(0, 2) =~= "[["@);
    assert(w.subrange(2, w.len() as int) =~= body);
    crate::text::lemma_split_no_sep_piece(body, '|');
}

/// A one-word wiki link `[[text|target]]` records its target (what follows `|`)
/// as an outlink, unless that is a web address.
pub proof fn law_aliased_link_recorded(acc: LineAcc, text: Seq<char>, target: Seq<char>)
    requires
        is_link_end("[["@ + text + "|"@ + target),
        !text.contains('|'),
        !target.contains('|'),
    ensures
        !starts_with(target, "http"@) ==> word_step(acc, "[["@ + text + "|"@ + target).outlinks
            == acc.outlinks.push(target),
        starts_with(target, "http"@) ==> word_step(acc, "[["@ + text + "|"@ + target).outlinks
            == acc.outlinks,
{
    reveal_strlit("[[");
    reveal_strlit("|");
    let w = "[["@ + text + "|"@ + target;
    assert(w.subrange(0, 2) =~= "[["@);
    assert(w.subrange(2, w.len() as int) =~= text + seq!['|'] + target);
    crate::text::lemma_split_concat(text, target, '|');
    crate::text::lemma_split_no_sep_piece(text, '|');
    crate::text::lemma_split_no_sep_piece(target, '|');
    assert(split_char(w.subrange(2, w.len() as int), '|') =~= seq![text, target]);
}

/// A note that is one wiki link `[[target]]` lists that link, and only it, among
/// its outlinks (unless it is a web address).
pub proof fn law_linked_note_lists_its_link(body: Seq<char>)
    requires
        is_link_end("[["@ + body),
        !body.contains('|'),
        !body.contains(' '),
        !body.contains('\n'),
        !starts_with(body, "http"@),
    ensures
        spec_to_html("[["@ + body).1 == seq![body],
{
    reveal_strlit("[[");
    reveal_strlit("#");
    let w = "[["@ + body;
    assert("[["@ =~= seq!['[', '[']);
    assert(!w.contains('\n')) by {
        if w.contains('\n') {
            let j = choose|j: int| 0 <= j < w.len() && w[j] == '\n';
            if j >= 2 {
                assert(body[j - 2] == '\n');
            }
        }
    }
    assert(!w.contains(' ')) by {
        if w.contains(' ') {
            let j = choose|j: int| 0 <= j < w.len() && w[j] == ' ';
            if j >= 2 {
                assert(body[j - 2] == ' ');
            }
        }
    }
    crate::text::lemma_split_no_sep_piece(w, '\n');
    crate::text::lemma_split_no_sep_piece(w, ' ');
    assert(!starts_with(w, "#"@)) by {
        assert(w[0] == '[');
        assert("#"@[0] == '#');
    }
    let ls = seq![w];
    assert(ls.drop_last() =~= Seq::<Seq<char>>::empty());
    let ws = seq![w];
    assert(ws.drop_last() =~= Seq::<Seq<char>>::empty());
    let init = LineAcc { parsed: Seq::empty(), pending: None, outlinks: Seq::empty(), ok: true };
    assert(run_words(ws.drop_last()) == init);
    assert(ws.last() == w);
    assert(run_words(ws) == word_step(init, w));
    law_one_word_link_recorded(init, body);
    assert(run_lines(ls.drop_last()).1 =~= Seq::<Seq<char>>::empty());
    assert(line_html(w).1 == seq![body]);
    assert(Seq::<Seq<char>>::empty() + seq![body] =~= seq![body]);
    assert(split_char(w, '\n') == ls);
}

/// Rendering the words of a line in order.
pub open spec fn run_words(words: Seq<Seq<char>>) -> LineAcc
    decreases words.len(),
{
    if words.len() == 0 {
        LineAcc { parsed: Seq::empty(), pending: None, outlinks: Seq::empty(), ok: true }
    } else {
        word_step(run_words(words.drop_last()), words.last())
    }
}

/// One rendered line: its block, its links, and whether rendering is defined on it.
/// A line starting with `#` is a heading; any other line is rendered word by word
/// (words are separated by single spaces) and its words are joined again by spaces.
pub open spec fn line_html(line: Seq<char>) -> (Seq<char>, Seq<Seq<char>>, bool) {
    if starts_with(line, "#"@) {
        (
            spec_text_block("<h2>"@ + trim(line.subrange(1, line.len() as int)) + "</h2>"@),
            Seq::empty(),
            true,
        )
    } else {
        let acc = run_words(split_char(line, ' '));
        (spec_text_block(join(acc.parsed, " "@)), acc.outlinks, acc.ok)
    }
}

/// A rendered document: the blocks of its lines in order, the links of its lines
/// in order, and whether rendering is defined on every line.
pub open spec fn run_lines(lines: Seq<Seq<char>>) -> (Seq<char>, Seq<Seq<char>>, bool)
    decreases lines.len(),
{
    if lines.len() == 0 {
        (Seq::empty(), Seq::empty(), true)
    } else {
        let prev = run_lines(lines.drop_last());
        let cur = line_html(lines.last());
        (prev.0 + cur.0, prev.1 + cur.1, prev.2 && cur.2)
    }
}

/// The rendering of a note's text, line by line (lines are separated by `'\n'`).
pub open spec fn spec_to_html(md: Seq<char>) -> (Seq<char>, Seq<Seq<char>>, bool) {
    run_lines(split_char(md, '\n'))
}

/// Whether `to_html` is defined on a text. It is not where a one-word link
/// `[[text|target]]` has a `text` that does not itself end a link, or where a
/// link points at the bare word `files`.
pub open spec fn to_html_defined(md: Seq<char>) -> bool {
    spec_to_html(md).2
}

/// Rendered note text and the links it holds.
pub struct Html {
    pub outlinks: Vec<String>,
    pub body: String,
}

/// The views of a vector of strings.
pub open spec fn strs(v: Seq<String>) -> Seq<Seq<char>> {
    v.map_values(|s: String| s@)
}

/// Renders one word and updates the line state.
fn render_word(
    w: &Vec<char>,
    parsed: &mut Vec<String>,
    pending: &mut Option<Vec<char>>,
    outlinks: &mut Vec<String>,
    Ghost(acc): Ghost<LineAcc>,
)
    requires
        acc.parsed == strs(old(parsed)@),
        acc.outlinks == strs(old(outlinks)@),
        acc.pending == match *old(pending) {
            Some(p) => Some(p@),
            None => None::<Seq<char>>,
        },
        word_step(acc, w@).ok,
    ensures
        ({
            let n = word_step(acc, w@);
            &&& n.parsed == strs(final(parsed)@)
            &&& n.outlinks == strs(final(outlinks)@)
            &&& n.pending == match *final(pending) {
                Some(p) => Some(p@),
                None => None::<Seq<char>>,
            }
        }),
{
    let open = chars_of("[[");
    let http = chars_of("http");
    proof {
        reveal_strlit("[[");
    }
    let ws = string_of(w.as_slice());
    let end = link_end_capture(ws.as_str());
    let starts = slice_starts_with(w.as_slice(), open.as_slice());
    if starts && end.is_some() {
        let inner = sub_chars(w.as_slice(), 2, w.len());
        let aliases = split_chars(inner.as_slice(), '|');
        proof {
            lemma_split_char_nonempty(inner@, '|');
        }
        let target = if aliases.len() > 1 {
            string_of(aliases[1].as_slice())
        } else {
            string_of(aliases[0].as_slice())
        };
        let text = string_of(aliases[0].as_slice());
        let href = format_links(target.as_str());
        let ghost before = strs(parsed@);
        construct_wiki_link(parsed, (href.as_str(), text.as_str()));
        assert(strs(parsed@) =~= before.push(parsed@.last()@));
        let t = chars_of(target.as_str());
        if !slice_starts_with(t.as_slice(), http.as_slice()) {
            let ghost ob = strs(outlinks@);
            outlinks.push(target);
            assert(strs(outlinks@) =~= ob.push(t@));
        }
    } else if starts {
        *pending = Some(sub_chars(w.as_slice(), 2, w.len()));
    } else if end.is_some() {
        let cur = pending.take();
        match cur {
            None => {
                let ghost before = strs(parsed@);
                parsed.push(ws);
                assert(strs(parsed@) =~= before.push(w@));
            },
            Some(prev) => {
                let bar = chars_of("|");
                if slice_ends_with(prev.as_slice(), bar.as_slice()) {
                    proof {
                        reveal_strlit("|");
                    }
                    let trimmed = string_of(sub_chars(prev.as_slice(), 0, prev.len() - 1).as_slice());
                    let href = format_links(trimmed.as_str());
                    let ghost before = strs(parsed@);
                    construct_wiki_link(parsed, (href.as_str(), ws.as_str()));
                    assert(strs(parsed@) =~= before.push(parsed@.last()@));
                    if !slice_starts_with(w.as_slice(), http.as_slice()) {
                        let ghost ob = strs(outlinks@);
                        outlinks.push(string_of(prev.as_slice()));
                        assert(strs(outlinks@) =~= ob.push(prev@));
                    }
                } else {
                    let close = chars_of("]]");
                    let empty: Vec<char> = Vec::new();
                    proof {
                        reveal_strlit("]]");
                    }
                    let mut half = replace_chars(w.as_slice(), close.as_slice(), empty.as_slice());
                    let punct = match end {
                        Some(p) => chars_of(p.as_str()),
                        None => Vec::new(),
                    };
                    if punct.len() > 0 {
                        half = replace_chars(half.as_slice(), punct.as_slice(), empty.as_slice());
                    }
                    assert(empty@ =~= Seq::<char>::empty());
                    let mut constructed = prev.clone();
                    constructed.push(' ');
                    append_chars(&mut constructed, half.as_slice());
                    let mut shown = prev.clone();
                    shown.push(' ');
                    append_chars(&mut shown, w.as_slice());
                    proof {
                        reveal_strlit(" ");
                        assert(prev@.push(' ') =~= prev@ + " "@);
                    }
                    let cs = string_of(constructed.as_slice());
                    let href = format_links(cs.as_str());
                    let ss = string_of(shown.as_slice());
                    let ghost before = strs(parsed@);
                    construct_wiki_link(parsed, (href.as_str(), ss.as_str()));
                    assert(strs(parsed@) =~= before.push(parsed@.last()@));
                    if !slice_starts_with(w.as_slice(), http.as_slice()) {
                        let ghost ob = strs(outlinks@);
                        outlinks.push(cs);
                        assert(strs(outlinks@) =~= ob.push(constructed@));
                    }
                }
            },
        }
    } else {
        let ghost before = strs(parsed@);
        parsed.push(ws);
        assert(strs(parsed@) =~= before.push(w@));
    }
}


/// Renders one line; gives its block and appends its links to `outlinks`.
fn render_line(line: &Vec<char>, outlinks: &mut Vec<String>) -> (r: String)
    requires
        line_html(line@).2,
    ensures
        r@ == line_html(line@).0,
        strs(final(outlinks)@) == strs(old(outlinks)@) + line_html(line@).1,
{
    let hash = chars_of("#");
    if slice_starts_with(line.as_slice(), hash.as_slice()) {
        proof {
            reveal_strlit("#");
        }
        let rest = sub_chars(line.as_slice(), 1, line.len());
        let t = trim_chars(rest.as_slice());
        let mut inner = String::from_str("<h2>");
        let ts = string_of(t.as_slice());
        inner.append(ts.as_str());
        inner.append("</h2>");
        assert(strs(outlinks@) + Seq::<Seq<char>>::empty() =~= strs(outlinks@));
        return format_text_block(inner.as_str());
    }
    let words = split_chars(line.as_slice(), ' ');
    let ghost ws = words@.map_values(|p: Vec<char>| p@);
    let (parsed, found) = render_words(&words);
    let pv = strings_to_chars(&parsed);
    let sp = chars_of(" ");
    let joined = join_chars(&pv, sp.as_slice());
    let js = string_of(joined.as_slice());
    extend_strings(outlinks, &found);
    format_text_block(js.as_str())
}

/// Renders the words of a line: the rendered words and the links found.
fn render_words(words: &Vec<Vec<char>>) -> (r: (Vec<String>, Vec<String>))
    requires
        run_words(words@.map_values(|p: Vec<char>| p@)).ok,
    ensures
        strs(r.0@) == run_words(words@.map_values(|p: Vec<char>| p@)).parsed,
        strs(r.1@) == run_words(words@.map_values(|p: Vec<char>| p@)).outlinks,
{
    let ghost ws = words@.map_values(|p: Vec<char>| p@);
    let mut parsed: Vec<String> = Vec::new();
    let mut pending: Option<Vec<char>> = None;
    let mut found: Vec<String> = Vec::new();
    let mut i: usize = 0;
    while i < words.len()
        invariant
            i <= words.len(),
            ws == words@.map_values(|p: Vec<char>| p@),
            run_words(ws).ok,
            run_words(ws.take(i as int)).parsed == strs(parsed@),
            run_words(ws.take(i as int)).outlinks == strs(found@),
            run_words(ws.take(i as int)).pending == match pending {
                Some(p) => Some(p@),
                None => None::<Seq<char>>,
            },
        decreases words.len() - i,
    {
        let ghost acc = run_words(ws.take(i as int));
        proof {
            lemma_run_words_ok_prefix(ws, i + 1);
        }
        assert(ws.take(i + 1).drop_last() =~= ws.take(i as int));
        assert(ws.take(i + 1).last() == words@[i as int]@);
        render_word(&words[i], &mut parsed, &mut pending, &mut found, Ghost(acc));
        i += 1;
    }
    assert(ws.take(words.len() as int) =~= ws);
    (parsed, found)
}

/// The characters of each string.
pub fn strings_to_chars(v: &Vec<String>) -> (r: Vec<Vec<char>>)
    ensures
        r@.map_values(|p: Vec<char>| p@) == strs(v@),
{
    let mut pv: Vec<Vec<char>> = Vec::new();
    let mut j: usize = 0;
    while j < v.len()
        invariant
            j <= v.len(),
            pv@.map_values(|p: Vec<char>| p@) == strs(v@).take(j as int),
        decreases v.len() - j,
    {
        let ghost old_pv = pv@.map_values(|p: Vec<char>| p@);
        let c = chars_of(v[j].as_str());
        pv.push(c);
        assert(pv@.map_values(|p: Vec<char>| p@) =~= old_pv.push(v@[j as int]@));
        j += 1;
        assert(strs(v@).take(j as int) =~= strs(v@).take(j - 1).push(v@[j - 1]@));
    }
    assert(strs(v@).take(v.len() as int) =~= strs(v@));
    pv
}

/// Appends copies of the strings of `src` to `dst`.
pub fn extend_strings(dst: &mut Vec<String>, src: &Vec<String>)
    ensures
        strs(final(dst)@) == strs(old(dst)@) + strs(src@),
{
    let ghost base = strs(dst@);
    let mut k: usize = 0;
    while k < src.len()
        invariant
            k <= src.len(),
            strs(dst@) == base + strs(src@).take(k as int),
        decreases src.len() - k,
    {
        let ghost ob = strs(dst@);
        dst.push(src[k].clone());
        assert(strs(dst@) =~= ob.push(src@[k as int]@));
        k += 1;
        assert(strs(src@).take(k as int) =~= strs(src@).take(k - 1).push(src@[k - 1]@));
    }
    assert(strs(src@).take(src.len() as int) =~= strs(src@));
}

/// Rendering is defined on every prefix of the words when it is on all of them.
pub proof fn lemma_run_words_ok_prefix(ws: Seq<Seq<char>>, k: int)
    requires
        run_words(ws).ok,
        0 <= k <= ws.len(),
    ensures
        run_words(ws.take(k)).ok,
    decreases ws.len(),
{
    if ws.len() > 0 {
        if k == ws.len() {
            assert(ws.take(k) =~= ws);
        } else {
            assert(ws.drop_last().take(k) =~= ws.take(k));
            lemma_run_words_ok_prefix(ws.drop_last(), k);
        }
    } else {
        assert(ws.take(k) =~= ws);
    }
}

/// Rendering is defined on every prefix of the lines when it is on all of them.
pub proof fn lemma_run_lines_ok_prefix(ls: Seq<Seq<char>>, k: int)
    requires
        run_lines(ls).2,
        0 <= k <= ls.len(),
    ensures
        run_lines(ls.take(k)).2,
        k < ls.len() ==> line_html(ls[k]).2,
    decreases ls.len(),
{
    if ls.len() > 0 {
        if k == ls.len() {
            assert(ls.take(k) =~= ls);
        } else {
            assert(ls.drop_last().take(k) =~= ls.take(k));
            lemma_run_lines_ok_prefix(ls.drop_last(), k);
        }
    } else {
        assert(ls.take(k) =~= ls);
    }
}

/// Renders a note's text to HTML and collects the links it holds.
pub fn to_html(md: &str) -> (r: Html)
    requires
        to_html_defined(md@),
    ensures
        r.body@ == spec_to_html(md@).0,
        strs(r.outlinks@) == spec_to_html(md@).1,
{
    let v = chars_of(md);
    let lines = split_chars(v.as_slice(), '\n');
    let ghost ls = lines@.map_values(|p: Vec<char>| p@);
    let mut body = String::new();
    let mut outlinks: Vec<String> = Vec::new();
    let mut i: usize = 0;
    while i < lines.len()
        invariant
            i <= lines.len(),
            ls == lines@.map_values(|p: Vec<char>| p@),
            run_lines(ls).2,
            body@ == run_lines(ls.take(i as int)).0,
            strs(outlinks@) == run_lines(ls.take(i as int)).1,
        decreases lines.len() - i,
    {
        proof {
            lemma_run_lines_ok_prefix(ls, i as int);
        }
        assert(ls.take(i + 1).drop_last() =~= ls.take(i as int));
        assert(ls.take(i + 1).last() == lines@[i as int]@);
        let block = render_line(&lines[i], &mut outlinks);
        body.append(block.as_str());
        i += 1;
    }
    assert(ls.take(lines.len() as int) =~= ls);
    Html { outlinks, body }
}

/// Whether a link target can be formatted (it is not the bare word `files`).
fn target_ok(t: &Vec<char>) -> (r: bool)
    ensures
        r == format_links_defined(t@),
{
    !crate::urls::chars_eq(t.as_slice(), chars_of("files").as_slice())
}

/// One word of a line: whether rendering is defined on it, given
/// the pending link, and the pending link after it.
fn check_word(w: &Vec<char>, pending: &mut Option<Vec<char>>, Ghost(acc): Ghost<LineAcc>) -> (r: bool)
    requires
        acc.pending == match *old(pending) {
            Some(p) => Some(p@),
            None => None::<Seq<char>>,
        },
    ensures
        acc.ok ==> r == word_step(acc, w@).ok,
        word_step(acc, w@).pending == match *final(pending) {
            Some(p) => Some(p@),
            None => None::<Seq<char>>,
        },
{
    let open = chars_of("[[");
    let bar = chars_of("|");
    proof {
        reveal_strlit("[[");
        reveal_strlit("|");
    }
    let ws = string_of(w.as_slice());
    let end = link_end_capture(ws.as_str());
    let starts = slice_starts_with(w.as_slice(), open.as_slice());
    if starts && end.is_some() {
        let inner = sub_chars(w.as_slice(), 2, w.len());
        let aliases = split_chars(inner.as_slice(), '|');
        proof {
            lemma_split_char_nonempty(inner@, '|');
        }
        let first = string_of(aliases[0].as_slice());
        let first_ends = link_end_capture(first.as_str()).is_some();
        if aliases.len() > 1 {
            first_ends && target_ok(&aliases[1])
        } else {
            first_ends && target_ok(&aliases[0])
        }
    } else if starts {
        *pending = Some(sub_chars(w.as_slice(), 2, w.len()));
        true
    } else if end.is_some() {
        let cur = pending.take();
        match cur {
            None => true,
            Some(prev) => {
                if slice_ends_with(prev.as_slice(), bar.as_slice()) {
                    let t = sub_chars(prev.as_slice(), 0, prev.len() - 1);
                    assert(t@ =~= prev@.drop_last());
                    target_ok(&t)
                } else {
                    let end_text = string_of(w.as_slice());
                    let punct = match link_end_capture(end_text.as_str()) {
                        Some(p) => p,
                        None => String::new(),
                    };
                    let close = chars_of("]]");
                    let pv = chars_of(punct.as_str());
                    proof {
                        reveal_strlit("]]");
                    }
                    let none: Vec<char> = Vec::new();
                    let a = replace_chars(w.as_slice(), close.as_slice(), none.as_slice());
                    let second_half = if pv.len() > 0 {
                        replace_chars(a.as_slice(), pv.as_slice(), none.as_slice())
                    } else {
                        a
                    };
                    proof {
                        if pv.len() == 0 {
                            assert(replace(a@, pv@, Seq::empty()) == a@);
                        }
                    }
                    let mut constructed = prev.clone();
                    constructed.push(' ');
                    append_chars(&mut constructed, second_half.as_slice());
                    assert(constructed@ =~= prev@ + " "@ + second_half@) by {
                        reveal_strlit(" ");
                    }
                    let mut whole = prev.clone();
                    whole.push(' ');
                    append_chars(&mut whole, w.as_slice());
                    assert(whole@ =~= prev@ + " "@ + w@) by {
                        reveal_strlit(" ");
                    }
                    let whole_text = string_of(whole.as_slice());
                    assert(second_half@ == replace(
                        replace(w@, "]]"@, Seq::empty()),
                        link_end_punct(w@),
                        Seq::empty(),
                    ));
                    target_ok(&constructed) && link_end_capture(whole_text.as_str()).is_some()
                }
            },
        }
    } else {
        true
    }
}

/// Whether rendering is defined on a line's words.
fn check_words(words: &Vec<Vec<char>>) -> (r: bool)
    ensures
        r == run_words(words@.map_values(|p: Vec<char>| p@)).ok,
{
    let ghost ws = words@.map_values(|p: Vec<char>| p@);
    let mut pending: Option<Vec<char>> = None;
    let mut ok = true;
    let mut i: usize = 0;
    while i < words.len()
        invariant
            i <= words.len(),
            ws == words@.map_values(|p: Vec<char>| p@),
            run_words(ws.take(i as int)).ok == ok,
            run_words(ws.take(i as int)).pending == match pending {
                Some(p) => Some(p@),
                None => None::<Seq<char>>,
            },
        decreases words.len() - i,
    {
        let ghost acc = run_words(ws.take(i as int));
        assert(ws.take(i + 1).drop_last() =~= ws.take(i as int));
        assert(ws.take(i + 1).last() == words@[i as int]@);
        let step_ok = check_word(&words[i], &mut pending, Ghost(acc));
        ok = ok && step_ok;
        i += 1;
    }
    assert(ws.take(words.len() as int) =~= ws);
    ok
}

/// Whether `to_html` is defined on a text: no one-word link `[[text|target]]`
/// whose text does not end a link, and no link to the bare word `files`.
pub fn html_defined(md: &str) -> (r: bool)
    ensures
        r == to_html_defined(md@),
{
    let v = chars_of(md);
    let lines = split_chars(v.as_slice(), '\n');
    let ghost ls = lines@.map_values(|p: Vec<char>| p@);
    let hash = chars_of("#");
    let mut ok = true;
    let mut i: usize = 0;
    while i < lines.len()
        invariant
            i <= lines.len(),
            ls == lines@.map_values(|p: Vec<char>| p@),
            hash@ == "#"@,
            run_lines(ls.take(i as int)).2 == ok,
        decreases lines.len() - i,
    {
        assert(ls.take(i + 1).drop_last() =~= ls.take(i as int));
        assert(ls.take(i + 1).last() == lines@[i as int]@);
        let line_ok = if slice_starts_with(lines[i].as_slice(), hash.as_slice()) {
            true
        } else {
            let words = split_chars(lines[i].as_slice(), ' ');
            check_words(&words)
        };
        ok = ok && line_ok;
        i += 1;
    }
    assert(ls.take(lines.len() as int) =~= ls);
    ok
}

} // verus!
