//! Search: splitting text into index terms, counting them per document, and
//! the small decisions of ranking and index maintenance.
use vstd::prelude::*;

use crate::html::{extend_strings, is_ascii_punct, strs};
use crate::text::{
    chars_of, contains_seq, lines, lines_of, slice_contains, split_char, split_chars, string_of,
    utf8_len_at_most,
};
use crate::urls::chars_eq;

verus! {

/// ASCII punctuation replaced by spaces.
pub open spec fn punct_to_space(s: Seq<char>) -> Seq<char> {
    s.map_values(|c: char| if is_ascii_punct(c) { ' ' } else { c })
}

/// Calls the `regex` crate to replace every match of `[[:punct:]]` (one ASCII
/// punctuation character) by a space.
#[verifier::external_body]
pub(crate) fn replace_punctuation(s: &str) -> (r: String)
    ensures
        r@ == punct_to_space(s@),
{
    let re = regex::Regex::new(r"[[[:punct:]]]").unwrap();
    re.replace_all(s, " ").into_owned()
}

/// What `str::to_lowercase` gives for a text (the Unicode `Lowercase` mapping).
pub uninterp spec fn lowercase(s: Seq<char>) -> Seq<char>;

/// Whether every character of a text is ASCII.
pub open spec fn is_ascii_text(s: Seq<char>) -> bool {
    forall|i: int| 0 <= i < s.len() ==> (#[trigger] s[i] as u32) < 128
}

/// An ASCII capital letter made small; any other character as it is.
pub open spec fn ascii_lower(c: char) -> char {
    if 'A' <= c && c <= 'Z' {
        ((c as u32) + 32) as char
    } else {
        c
    }
}

/// Calls std's `str::to_lowercase`; its result is named by `lowercase`. As
/// std documents, an ASCII text has its letters `A`–`Z` made `a`–`z` and every
/// other character kept.
#[verifier::external_body]
pub(crate) fn to_lowercase(s: &str) -> (r: String)
    ensures
        r@ == lowercase(s@),
        is_ascii_text(s@) ==> r@ == s@.map_values(|c: char| ascii_lower(c)),
{
    s.to_lowercase()
}

/// A text with its newline characters removed.
pub open spec fn remove_newlines(s: Seq<char>) -> Seq<char>
    decreases s.len(),
{
    if s.len() == 0 {
        s
    } else if s.last() == '\n' {
        remove_newlines(s.drop_last())
    } else {
        remove_newlines(s.drop_last()).push(s.last())
    }
}

/// Words too common to be worth indexing.
pub open spec fn stop_words() -> Seq<Seq<char>> {
    seq![
        "a"@, "about"@, "an"@, "are"@, "and"@, "as"@, "at"@, "be"@, "but"@, "by"@, "co"@, "com"@,
        "do"@, "don't"@, "for"@, "from"@, "has"@, "have"@, "he"@, "his"@, "her"@, "hers"@, "http"@,
        "https"@, "i"@, "i'm"@, "in"@, "is"@, "it"@, "it's"@, "just"@, "like"@, "me"@, "my"@, "not"@,
        "of"@, "on"@, "or"@, "so"@, "that"@, "the"@, "they"@, "this"@, "to"@, "was"@, "www"@, "we"@,
        "were"@, "with"@, "you"@, "your"@,
    ]
}

/// Whether a word is kept as a search term: not a stop word, not empty, and at
/// most 80 bytes long in UTF-8.
pub open spec fn is_term(w: Seq<char>) -> bool {
    !stop_words().contains(w) && w.len() > 0 && vstd::utf8::encode_utf8(w).len() <= 80
}

/// The search terms of the words, in order: each word lower-cased with its
/// newlines removed, and kept when it is a term.
pub open spec fn terms_of_words(words: Seq<Seq<char>>) -> Seq<Seq<char>>
    decreases words.len(),
{
    if words.len() == 0 {
        Seq::empty()
    } else {
        let w = remove_newlines(lowercase(words.last()));
        if is_term(w) {
            terms_of_words(words.drop_last()).push(w)
        } else {
            terms_of_words(words.drop_last())
        }
    }
}

/// The search terms of a text: punctuation becomes spaces, the text is split at
/// single spaces, and each piece is normalised and filtered.
pub open spec fn spec_tokenize(s: Seq<char>) -> Seq<Seq<char>> {
    terms_of_words(split_char(punct_to_space(s), ' '))
}

/// Whether a word is one of the stop words.
pub fn is_stop_word(w: &[char]) -> (r: bool)
    ensures
        r == stop_words().contains(w@),
{
    let words: Vec<&str> = vec![
        "a", "about", "an", "are", "and", "as", "at", "be", "but", "by", "co", "com", "do",
        "don't", "for", "from", "has", "have", "he", "his", "her", "hers", "http", "https", "i",
        "i'm", "in", "is", "it", "it's", "just", "like", "me", "my", "not", "of", "on", "or", "so",
        "that", "the", "they", "this", "to", "was", "www", "we", "were", "with", "you", "your",
    ];
    assert(words@.map_values(|s: &str| s@) =~= stop_words());
    let mut i: usize = 0;
    while i < words.len()
        invariant
            i <= words.len(),
            words@.map_values(|s: &str| s@) == stop_words(),
            forall|j: int| 0 <= j < i ==> stop_words()[j] != w@,
        decreases words.len() - i,
    {
        let c = chars_of(words[i]);
        assert(c@ == stop_words()[i as int]);
        if chars_eq(c.as_slice(), w) {
            return true;
        }
        i += 1;
    }
    false
}

/// Removes newline characters.
pub fn strip_newlines(v: &[char]) -> (r: Vec<char>)
    ensures
        r@ == remove_newlines(v@),
{
    let mut out: Vec<char> = Vec::new();
    let mut i: usize = 0;
    while i < v.len()
        invariant
            i <= v.len(),
            out@ == remove_newlines(v@.take(i as int)),
        decreases v.len() - i,
    {
        assert(v@.take(i + 1).drop_last() =~= v@.take(i as int));
        if v[i] != '\n' {
            out.push(v[i]);
        }
        i += 1;
    }
    assert(v@.take(v.len() as int) =~= v@);
    out
}

/// The search term a lower-cased word gives: the word without its newlines,
/// when that is a term.
pub fn term_of(lowered: &str) -> (r: Option<String>)
    ensures
        match r {
            Some(t) => is_term(remove_newlines(lowered@)) && t@ == remove_newlines(lowered@),
            None => !is_term(remove_newlines(lowered@)),
        },
{
    let lv = chars_of(lowered);
    let word_v = strip_newlines(lv.as_slice());
    if !is_stop_word(word_v.as_slice()) && word_v.len() > 0 && utf8_len_at_most(
        word_v.as_slice(),
        80,
    ) {
        Some(string_of(word_v.as_slice()))
    } else {
        None
    }
}

/// Splits a text into its search terms.
pub fn tokenize(slice: &str) -> (r: Vec<String>)
    ensures
        strs(r@) == spec_tokenize(slice@),
{
    let spaced = replace_punctuation(slice);
    let v = chars_of(spaced.as_str());
    let words = split_chars(v.as_slice(), ' ');
    let ghost ws = words@.map_values(|p: Vec<char>| p@);
    let mut out: Vec<String> = Vec::new();
    let mut i: usize = 0;
    while i < words.len()
        invariant
            i <= words.len(),
            ws == words@.map_values(|p: Vec<char>| p@),
            strs(out@) == terms_of_words(ws.take(i as int)),
        decreases words.len() - i,
    {
        assert(ws.take(i + 1).drop_last() =~= ws.take(i as int));
        assert(ws.take(i + 1).last() == words@[i as int]@);
        let ws_i = string_of(words[i].as_slice());
        let lower = to_lowercase(ws_i.as_str());
        match term_of(lower.as_str()) {
            Some(word) => {
                let ghost before = strs(out@);
                out.push(word);
                assert(strs(out@) =~= before.push(remove_newlines(lowercase(ws[i as int]))));
            },
            None => {},
        }
        i += 1;
    }
    assert(ws.take(words.len() as int) =~= ws);
    out
}

/// The terms of a search query.
pub fn tokenize_query(query: &str) -> (r: Vec<String>)
    ensures
        strs(r@) == spec_tokenize(query@),
{
    tokenize(query)
}


/// The pieces of `parts` one after another.
pub open spec fn concat_all(parts: Seq<Seq<Seq<char>>>) -> Seq<Seq<char>>
    decreases parts.len(),
{
    if parts.len() == 0 {
        Seq::<Seq<char>>::empty()
    } else {
        concat_all(parts.drop_last()) + parts.last()
    }
}

/// The search terms of a document, line by line.
pub open spec fn doc_terms(content: Seq<char>) -> Seq<Seq<char>> {
    concat_all(lines(content).map_values(|l: Seq<char>| spec_tokenize(l)))
}

/// Where the count of `t` stands, searching from `i` on.
pub open spec fn count_pos(c: Seq<(Seq<char>, nat)>, t: Seq<char>, i: int) -> Option<int>
    decreases c.len() - i,
{
    if i < 0 || i >= c.len() {
        None
    } else if c[i].0 == t {
        Some(i)
    } else {
        count_pos(c, t, i + 1)
    }
}

/// The counts with one more `t`.
pub open spec fn bump(c: Seq<(Seq<char>, nat)>, t: Seq<char>) -> Seq<(Seq<char>, nat)> {
    match count_pos(c, t, 0) {
        Some(i) => c.update(i, (t, c[i].1 + 1)),
        None => c.push((t, 1)),
    }
}

/// How often each term occurs, in the order of first occurrence.
pub open spec fn term_counts(ts: Seq<Seq<char>>) -> Seq<(Seq<char>, nat)>
    decreases ts.len(),
{
    if ts.len() == 0 {
        Seq::<(Seq<char>, nat)>::empty()
    } else {
        bump(term_counts(ts.drop_last()), ts.last())
    }
}

/// The counts of a vector, as numbers.
pub open spec fn counts_view(c: Seq<(String, usize)>) -> Seq<(Seq<char>, nat)> {
    c.map_values(|p: (String, usize)| (p.0@, p.1 as nat))
}

/// `count_pos` finds the first entry with key `t`.
proof fn lemma_count_pos(c: Seq<(Seq<char>, nat)>, t: Seq<char>, i: int)
    requires
        0 <= i <= c.len(),
    ensures
        count_pos(c, t, i) matches Some(j) ==> i <= j < c.len() && c[j].0 == t && forall|k: int|
            i <= k < j ==> c[k].0 != t,
        count_pos(c, t, i) is None ==> forall|k: int| i <= k < c.len() ==> c[k].0 != t,
    decreases c.len() - i,
{
    if i < c.len() {
        lemma_count_pos(c, t, i + 1);
    }
}

/// A document's terms with how often each occurs, and how many terms it has.
/// (Dividing the two gives a term's frequency in the document.)
pub fn count_tokens(content: &str) -> (r: (Vec<(String, usize)>, usize))
    ensures
        counts_view(r.0@) == term_counts(doc_terms(content@)),
        r.1 == doc_terms(content@).len(),
{
    let v = chars_of(content);
    let ls = lines_of(v.as_slice());
    let ghost lv = ls@.map_values(|l: Vec<char>| l@);
    let mut terms: Vec<String> = Vec::new();
    let mut i: usize = 0;
    while i < ls.len()
        invariant
            i <= ls.len(),
            lv == ls@.map_values(|l: Vec<char>| l@),
            lv == lines(content@),
            strs(terms@) == concat_all(lv.take(i as int).map_values(|l: Seq<char>| spec_tokenize(l))),
        decreases ls.len() - i,
    {
        let line = string_of(ls[i].as_slice());
        let toks = tokenize(line.as_str());
        extend_strings(&mut terms, &toks);
        proof {
            let m = lv.take(i as int + 1).map_values(|l: Seq<char>| spec_tokenize(l));
            assert(m.drop_last() =~= lv.take(i as int).map_values(|l: Seq<char>| spec_tokenize(l)));
            assert(lv[i as int] == ls@[i as int]@);
        }
        i += 1;
    }
    assert(lv.take(ls.len() as int) =~= lv);
    let ghost ts = strs(terms@);
    let mut counts: Vec<(String, usize)> = Vec::new();
    let mut j: usize = 0;
    while j < terms.len()
        invariant
            j <= terms.len(),
            ts == strs(terms@),
            counts_view(counts@) == term_counts(ts.take(j as int)),
            forall|k: int| 0 <= k < counts@.len() ==> counts@[k].1 <= j,
        decreases terms.len() - j,
    {
        assert(ts.take(j as int + 1).drop_last() =~= ts.take(j as int));
        assert(ts.take(j as int + 1).last() == terms@[j as int]@);
        let tv = chars_of(terms[j].as_str());
        let ghost cv = counts_view(counts@);
        proof {
            lemma_count_pos(cv, tv@, 0);
        }
        let mut p: usize = 0;
        while p < counts.len() && !string_is(&counts[p].0, tv.as_slice())
            invariant
                p <= counts.len(),
                cv == counts_view(counts@),
                forall|k: int| 0 <= k < p ==> cv[k].0 != tv@,
            decreases counts.len() - p,
        {
            p += 1;
        }
        if p < counts.len() {
            assert(cv[p as int].0 == tv@);
            assert(count_pos(cv, tv@, 0) == Some(p as int));
            let (k, n) = counts.remove(p);
            counts.insert(p, (k, n + 1));
            assert(counts_view(counts@) =~= cv.update(p as int, (tv@, cv[p as int].1 + 1)));
        } else {
            counts.push((terms[j].clone(), 1));
            assert(counts_view(counts@) =~= cv.push((tv@, 1)));
        }
        j += 1;
    }
    assert(ts.take(terms.len() as int) =~= ts);
    (counts, terms.len())
}

/// Whether the string `a` is the characters `b`.
fn string_is(a: &String, b: &[char]) -> (r: bool)
    ensures
        r == (a@ == b@),
{
    let av = chars_of(a.as_str());
    chars_eq(av.as_slice(), b)
}

/// Endings tried on a word's stem when searching.
pub open spec fn word_endings() -> Seq<Seq<char>> {
    seq![
        "e"@, "s"@, "ly"@, "ment"@, "ed"@, "'s"@, "or"@, "er"@, "ing"@, "y"@, "tion"@, "ies"@, "r"@,
        "ation"@, "d"@, "n"@, "ian"@,
    ]
}

/// The forms of a search word that are looked up: its stem with each ending,
/// the word itself, and the stem.
pub open spec fn word_variations(key: Seq<char>, stem: Seq<char>) -> Seq<Seq<char>> {
    word_endings().map_values(|e: Seq<char>| stem + e).push(key).push(stem)
}

/// The forms of a search word that are looked up, given its stem.
pub fn variations_of_word(key: &str, word_stem: &str) -> (r: Vec<String>)
    ensures
        strs(r@) == word_variations(key@, word_stem@),
{
    let endings: Vec<&str> = vec![
        "e", "s", "ly", "ment", "ed", "'s", "or", "er", "ing", "y", "tion", "ies", "r", "ation", "d",
        "n", "ian",
    ];
    assert(endings@.map_values(|e: &str| e@) =~= word_endings());
    let mut variations: Vec<String> = Vec::new();
    let mut i: usize = 0;
    while i < endings.len()
        invariant
            i <= endings.len(),
            endings@.map_values(|e: &str| e@) == word_endings(),
            strs(variations@) == endings@.map_values(|e: &str| e@).take(i as int).map_values(
                |e: Seq<char>| word_stem@ + e,
            ),
        decreases endings.len() - i,
    {
        let mut v = word_stem.to_string();
        v.append(endings[i]);
        let ghost before = strs(variations@);
        variations.push(v);
        proof {
            let es = endings@.map_values(|e: &str| e@);
            assert(es[i as int] == endings@[i as int]@);
            assert(es.take(i as int + 1) =~= es.take(i as int).push(es[i as int]));
            assert(strs(variations@) =~= before.push(word_stem@ + es[i as int]));
        }
        i += 1;
    }
    assert(endings@.map_values(|e: &str| e@).take(endings.len() as int) =~= word_endings());
    let ghost before = strs(variations@);
    variations.push(key.to_string());
    variations.push(word_stem.to_string());
    assert(strs(variations@) =~= before.push(key@).push(word_stem@));
    variations
}

/// The titles of scored entries.
pub open spec fn entry_titles<T>(e: Seq<(String, T)>) -> Seq<Seq<char>> {
    e.map_values(|p: (String, T)| p.0@)
}

/// A term's entries once a document's score is set: entries of the document
/// take the score, and a document without one gets a new entry at the end.
pub open spec fn upserted<T>(e: Seq<(String, T)>, title: Seq<char>, score: T) -> (Seq<(Seq<char>, T)>) {
    let replaced = e.map_values(
        |p: (String, T)| if p.0@ == title {
            (title, score)
        } else {
            (p.0@, p.1)
        },
    );
    if entry_titles(e).contains(title) {
        replaced
    } else {
        replaced.push((title, score))
    }
}

/// The view of scored entries.
pub open spec fn scored_view<T>(e: Seq<(String, T)>) -> Seq<(Seq<char>, T)> {
    e.map_values(|p: (String, T)| (p.0@, p.1))
}

/// Sets a document's score in a term's entries.
pub fn upsert_score<T: Copy>(tokens: &mut Vec<(String, T)>, title: &str, score: T)
    ensures
        scored_view(final(tokens)@) == upserted(old(tokens)@, title@, score),
{
    let ghost start = old(tokens)@;
    let tv = chars_of(title);
    let mut found = false;
    let mut i: usize = 0;
    while i < tokens.len()
        invariant
            i <= tokens.len(),
            tokens@.len() == start.len(),
            tv@ == title@,
            found == exists|k: int| 0 <= k < i && start[k].0@ == title@,
            forall|k: int| 0 <= k < i ==> scored_view(tokens@)[k] == (if start[k].0@ == title@ {
                (title@, score)
            } else {
                (start[k].0@, start[k].1)
            }),
            forall|k: int| i <= k < tokens@.len() ==> tokens@[k] == start[k],
        decreases tokens.len() - i,
    {
        assert(tokens@[i as int] == start[i as int]);
        let ghost prev = tokens@;
        let hit = string_is(&tokens[i].0, tv.as_slice());
        if hit {
            found = true;
            tokens.set(i, (title.to_string(), score));
            assert(scored_view(tokens@)[i as int] == (title@, score));
        } else {
            assert(tokens@ == prev);
            assert(start[i as int].0@ != title@);
            assert(scored_view(tokens@)[i as int] == (start[i as int].0@, start[i as int].1));
        }
        assert forall|k: int| 0 <= k < i + 1 implies scored_view(tokens@)[k] == (if start[k].0@
            == title@ {
            (title@, score)
        } else {
            (start[k].0@, start[k].1)
        }) by {
            if k < i {
                assert(tokens@[k] == prev[k]);
                assert(scored_view(prev)[k] == scored_view(tokens@)[k]);
            }
        }
        i += 1;
    }
    proof {
        assert(entry_titles(start).contains(title@) == found) by {
            if found {
                let k = choose|k: int| 0 <= k < start.len() && start[k].0@ == title@;
                assert(entry_titles(start)[k] == title@);
            }
            if entry_titles(start).contains(title@) {
                let k = choose|k: int| 0 <= k < start.len() && entry_titles(start)[k] == title@;
                assert(start[k].0@ == title@);
            }
        }
    }
    let ghost mid = scored_view(tokens@);
    if !found {
        tokens.push((title.to_string(), score));
        assert(scored_view(tokens@) =~= mid.push((title@, score)));
    }
    assert(mid =~= start.map_values(
        |p: (String, T)| if p.0@ == title@ {
            (title@, score)
        } else {
            (p.0@, p.1)
        },
    ));
}

/// Entries whose title is, or is not, `title`.
pub open spec fn entries_where<T>(e: Seq<(String, T)>, title: Seq<char>, keep_equal: bool) -> Seq<
    (Seq<char>, T),
>
    decreases e.len(),
{
    if e.len() == 0 {
        Seq::<(Seq<char>, T)>::empty()
    } else {
        let rest = entries_where(e.drop_last(), title, keep_equal);
        if (e.last().0@ == title) == keep_equal {
            rest.push((e.last().0@, e.last().1))
        } else {
            rest
        }
    }
}

/// Keeps the entries whose title is `title` (where `keep_equal`), or the others.
pub fn filter_entries<T: Copy>(tokens: &Vec<(String, T)>, title: &str, keep_equal: bool) -> (r: Vec<
    (String, T),
>)
    ensures
        scored_view(r@) == entries_where(tokens@, title@, keep_equal),
{
    let tv = chars_of(title);
    let mut out: Vec<(String, T)> = Vec::new();
    let mut i: usize = 0;
    while i < tokens.len()
        invariant
            i <= tokens.len(),
            tv@ == title@,
            scored_view(out@) == entries_where(tokens@.take(i as int), title@, keep_equal),
        decreases tokens.len() - i,
    {
        assert(tokens@.take(i as int + 1).drop_last() =~= tokens@.take(i as int));
        let ghost before = scored_view(out@);
        if string_is(&tokens[i].0, tv.as_slice()) == keep_equal {
            out.push((tokens[i].0.clone(), tokens[i].1));
            assert(scored_view(out@) =~= before.push((tokens@[i as int].0@, tokens@[i as int].1)));
        }
        i += 1;
    }
    assert(tokens@.take(tokens.len() as int) =~= tokens@);
    out
}

/// The appearance counts and result list of a search once a term's entries are
/// read: a document seen before counts once more; a new one counts once and its
/// entry joins the results.
pub open spec fn merged<T>(
    apps: Seq<(Seq<char>, nat)>,
    results: Seq<(Seq<char>, T)>,
    entries: Seq<(Seq<char>, T)>,
) -> (Seq<(Seq<char>, nat)>, Seq<(Seq<char>, T)>)
    decreases entries.len(),
{
    if entries.len() == 0 {
        (apps, results)
    } else {
        let (a, r) = merged(apps, results, entries.drop_last());
        let e = entries.last();
        match count_pos(a, e.0, 0) {
            Some(i) => (a.update(i, (e.0, a[i].1 + 1)), r),
            None => (a.push((e.0, 1)), r.push(e)),
        }
    }
}

/// Merges a term's entries into a search's appearance counts and results.
pub fn merge_entries<T: Copy>(
    appearances: &mut Vec<(String, usize)>,
    results: &mut Vec<(String, T)>,
    entries: &Vec<(String, T)>,
)
    requires
        forall|k: int| 0 <= k < old(appearances)@.len() ==> old(appearances)@[k].1 + entries@.len()
            <= usize::MAX,
    ensures
        (counts_view(final(appearances)@), scored_view(final(results)@)) == merged(
            counts_view(old(appearances)@),
            scored_view(old(results)@),
            scored_view(entries@),
        ),
{
    let ghost a0 = counts_view(appearances@);
    let ghost r0 = scored_view(results@);
    let ghost es = scored_view(entries@);
    let mut i: usize = 0;
    while i < entries.len()
        invariant
            i <= entries.len(),
            es == scored_view(entries@),
            (counts_view(appearances@), scored_view(results@)) == merged(a0, r0, es.take(i as int)),
            forall|k: int| 0 <= k < appearances@.len() ==> appearances@[k].1 + entries@.len() - i
                <= usize::MAX,
        decreases entries.len() - i,
    {
        assert(es.take(i as int + 1).drop_last() =~= es.take(i as int));
        assert(es.take(i as int + 1).last() == (entries@[i as int].0@, entries@[i as int].1));
        let tv = chars_of(entries[i].0.as_str());
        let ghost cv = counts_view(appearances@);
        proof {
            lemma_count_pos(cv, tv@, 0);
        }
        let mut p: usize = 0;
        while p < appearances.len() && !string_is(&appearances[p].0, tv.as_slice())
            invariant
                p <= appearances.len(),
                cv == counts_view(appearances@),
                forall|k: int| 0 <= k < p ==> cv[k].0 != tv@,
            decreases appearances.len() - p,
        {
            p += 1;
        }
        if p < appearances.len() {
            assert(count_pos(cv, tv@, 0) == Some(p as int));
            let (k, n) = appearances.remove(p);
            appearances.insert(p, (k, n + 1));
            assert(counts_view(appearances@) =~= cv.update(p as int, (tv@, cv[p as int].1 + 1)));
        } else {
            let ghost rv = scored_view(results@);
            appearances.push((entries[i].0.clone(), 1));
            results.push((entries[i].0.clone(), entries[i].1));
            assert(counts_view(appearances@) =~= cv.push((tv@, 1)));
            assert(scored_view(results@) =~= rv.push((tv@, entries@[i as int].1)));
        }
        i += 1;
    }
    assert(es.take(entries.len() as int) =~= es);
}

/// How well a document's title matches the query, ignoring case: 2 when equal,
/// 1 when it holds the query, 0 otherwise.
pub open spec fn title_match(title: Seq<char>, query: Seq<char>) -> u8 {
    let t = lowercase(title);
    let q = lowercase(query);
    if contains_seq(t, q) {
        if t == q {
            2
        } else {
            1
        }
    } else {
        0
    }
}

/// How well a document's title matches the query.
pub fn title_match_level(title: &str, query: &str) -> (r: u8)
    ensures
        r == title_match(title@, query@),
{
    let t = to_lowercase(title);
    let q = to_lowercase(query);
    let tv = chars_of(t.as_str());
    let qv = chars_of(q.as_str());
    if slice_contains(tv.as_slice(), qv.as_slice()) {
        if chars_eq(tv.as_slice(), qv.as_slice()) {
            2
        } else {
            1
        }
    } else {
        0
    }
}

/// A title is boosted only when, ignoring case, it holds the whole query, and
/// boosted most only when it is the query: a title that is merely part of the
/// query gets nothing.
pub proof fn law_title_boost_needs_query(title: Seq<char>, query: Seq<char>)
    ensures
        title_match(title, query) > 0 <==> contains_seq(lowercase(title), lowercase(query)),
        title_match(title, query) == 2 <==> lowercase(title) == lowercase(query),
        title_match(title, query) <= 2,
{
    let t = lowercase(title);
    assert(t.subrange(0, t.len() as int) =~= t);
    assert(crate::text::occurs_at(t, t, 0));
}

/// The terms a document had that it no longer has, in their order.
pub open spec fn stale(old_terms: Seq<Seq<char>>, new_terms: Seq<Seq<char>>) -> Seq<Seq<char>>
    decreases old_terms.len(),
{
    if old_terms.len() == 0 {
        old_terms
    } else if new_terms.contains(old_terms.last()) {
        stale(old_terms.drop_last(), new_terms)
    } else {
        stale(old_terms.drop_last(), new_terms).push(old_terms.last())
    }
}

/// The terms a document had that it no longer has.
pub fn stale_terms(old_terms: &Vec<String>, file_terms: &Vec<String>) -> (r: Vec<String>)
    ensures
        strs(r@) == stale(strs(old_terms@), strs(file_terms@)),
{
    let ghost os = strs(old_terms@);
    let mut out: Vec<String> = Vec::new();
    let mut i: usize = 0;
    while i < old_terms.len()
        invariant
            i <= old_terms.len(),
            os == strs(old_terms@),
            strs(out@) == stale(os.take(i as int), strs(file_terms@)),
        decreases old_terms.len() - i,
    {
        assert(os.take(i as int + 1).drop_last() =~= os.take(i as int));
        assert(os.take(i as int + 1).last() == old_terms@[i as int]@);
        let ghost before = strs(out@);
        if !crate::references::holds_title(file_terms, old_terms[i].as_str()) {
            out.push(old_terms[i].clone());
            assert(strs(out@) =~= before.push(old_terms@[i as int]@));
        }
        i += 1;
    }
    assert(os.take(old_terms.len() as int) =~= os);
    out
}


/// The first entry at or after `i` whose key is `k`.
pub open spec fn key_pos<V>(e: Seq<(Seq<char>, V)>, k: Seq<char>, i: int) -> Option<int>
    decreases e.len() - i,
{
    if i < 0 || i >= e.len() {
        None
    } else if e[i].0 == k {
        Some(i)
    } else {
        key_pos(e, k, i + 1)
    }
}

/// `key_pos` finds the first entry with key `k`.
proof fn lemma_key_pos<V>(e: Seq<(Seq<char>, V)>, k: Seq<char>, i: int)
    requires
        0 <= i <= e.len(),
    ensures
        key_pos(e, k, i) matches Some(j) ==> i <= j < e.len() && e[j].0 == k && forall|m: int|
            i <= m < j ==> e[m].0 != k,
        key_pos(e, k, i) is None ==> forall|m: int| i <= m < e.len() ==> e[m].0 != k,
    decreases e.len() - i,
{
    if i < e.len() {
        lemma_key_pos(e, k, i + 1);
    }
}

/// A keyed list with `v` added under `k`: to the first list of `k`, or to a new
/// one at the end.
pub open spec fn keyed_push<V>(e: Seq<(Seq<char>, Seq<V>)>, k: Seq<char>, v: V) -> Seq<
    (Seq<char>, Seq<V>),
> {
    match key_pos(e, k, 0) {
        Some(i) => e.update(i, (k, e[i].1.push(v))),
        None => e.push((k, seq![v])),
    }
}

/// The term index once a document's scores are added: the document joins the
/// entries of each of its terms.
pub open spec fn index_doc<T>(
    e: Seq<(Seq<char>, Seq<(Seq<char>, T)>)>,
    title: Seq<char>,
    doc: Seq<(Seq<char>, T)>,
) -> Seq<(Seq<char>, Seq<(Seq<char>, T)>)>
    decreases doc.len(),
{
    if doc.len() == 0 {
        e
    } else {
        keyed_push(index_doc(e, title, doc.drop_last()), doc.last().0, (title, doc.last().1))
    }
}

/// The file index once a document's terms are added under its file name.
pub open spec fn file_terms_doc<T>(
    e: Seq<(Seq<char>, Seq<Seq<char>>)>,
    file_name: Seq<char>,
    doc: Seq<(Seq<char>, T)>,
) -> Seq<(Seq<char>, Seq<Seq<char>>)>
    decreases doc.len(),
{
    if doc.len() == 0 {
        e
    } else {
        keyed_push(file_terms_doc(e, file_name, doc.drop_last()), file_name, doc.last().0)
    }
}

/// The view of a term index.
pub open spec fn index_view<T>(e: Seq<(String, Vec<(String, T)>)>) -> Seq<
    (Seq<char>, Seq<(Seq<char>, T)>),
> {
    e.map_values(|p: (String, Vec<(String, T)>)| (p.0@, scored_view(p.1@)))
}

/// The view of a file index.
pub open spec fn file_index_view(e: Seq<(String, Vec<String>)>) -> Seq<(Seq<char>, Seq<Seq<char>>)> {
    e.map_values(|p: (String, Vec<String>)| (p.0@, strs(p.1@)))
}

/// Adds a scored document under a term.
fn index_push<T: Copy>(tokens: &mut Vec<(String, Vec<(String, T)>)>, term: &str, title: &str, score: T)
    ensures
        index_view(final(tokens)@) == keyed_push(index_view(old(tokens)@), term@, (title@, score)),
{
    let ghost e = index_view(tokens@);
    let tv = chars_of(term);
    proof {
        lemma_key_pos(e, term@, 0);
    }
    let mut p: usize = 0;
    while p < tokens.len() && !string_is(&tokens[p].0, tv.as_slice())
        invariant
            p <= tokens.len(),
            tv@ == term@,
            e == index_view(tokens@),
            forall|m: int| 0 <= m < p ==> e[m].0 != term@,
        decreases tokens.len() - p,
    {
        p += 1;
    }
    if p < tokens.len() {
        assert(key_pos(e, term@, 0) == Some(p as int));
        let (k, mut list) = tokens.remove(p);
        let ghost lv = scored_view(list@);
        list.push((title.to_string(), score));
        assert(scored_view(list@) =~= lv.push((title@, score)));
        tokens.insert(p, (k, list));
        assert(index_view(tokens@) =~= e.update(p as int, (term@, e[p as int].1.push((title@, score)))));
    } else {
        let mut list: Vec<(String, T)> = Vec::new();
        list.push((title.to_string(), score));
        assert(scored_view(list@) =~= seq![(title@, score)]);
        tokens.push((term.to_string(), list));
        assert(index_view(tokens@) =~= e.push((term@, seq![(title@, score)])));
    }
}

/// Adds a term under a file name.
fn file_index_push(term_index: &mut Vec<(String, Vec<String>)>, file_name: &str, term: &str)
    ensures
        file_index_view(final(term_index)@) == keyed_push(
            file_index_view(old(term_index)@),
            file_name@,
            term@,
        ),
{
    let ghost e = file_index_view(term_index@);
    let fv = chars_of(file_name);
    proof {
        lemma_key_pos(e, file_name@, 0);
    }
    let mut p: usize = 0;
    while p < term_index.len() && !string_is(&term_index[p].0, fv.as_slice())
        invariant
            p <= term_index.len(),
            fv@ == file_name@,
            e == file_index_view(term_index@),
            forall|m: int| 0 <= m < p ==> e[m].0 != file_name@,
        decreases term_index.len() - p,
    {
        p += 1;
    }
    if p < term_index.len() {
        assert(key_pos(e, file_name@, 0) == Some(p as int));
        let (k, mut list) = term_index.remove(p);
        let ghost lv = strs(list@);
        list.push(term.to_string());
        assert(strs(list@) =~= lv.push(term@));
        term_index.insert(p, (k, list));
        assert(file_index_view(term_index@) =~= e.update(
            p as int,
            (file_name@, e[p as int].1.push(term@)),
        ));
    } else {
        let mut list: Vec<String> = Vec::new();
        list.push(term.to_string());
        assert(strs(list@) =~= seq![term@]);
        term_index.push((file_name.to_string(), list));
        assert(file_index_view(term_index@) =~= e.push((file_name@, seq![term@])));
    }
}

/// Indexes one document: it joins the entries of each of its terms with its
/// score, and its terms are listed under its file name.
pub fn index_document<T: Copy>(
    tokens: &mut Vec<(String, Vec<(String, T)>)>,
    term_index: &mut Vec<(String, Vec<String>)>,
    file_name: &str,
    title: &str,
    doc: &Vec<(String, T)>,
)
    ensures
        index_view(final(tokens)@) == index_doc(index_view(old(tokens)@), title@, scored_view(doc@)),
        file_index_view(final(term_index)@) == file_terms_doc(
            file_index_view(old(term_index)@),
            file_name@,
            scored_view(doc@),
        ),
{
    let ghost t0 = index_view(tokens@);
    let ghost f0 = file_index_view(term_index@);
    let ghost ds = scored_view(doc@);
    let mut i: usize = 0;
    while i < doc.len()
        invariant
            i <= doc.len(),
            ds == scored_view(doc@),
            index_view(tokens@) == index_doc(t0, title@, ds.take(i as int)),
            file_index_view(term_index@) == file_terms_doc(f0, file_name@, ds.take(i as int)),
        decreases doc.len() - i,
    {
        assert(ds.take(i as int + 1).drop_last() =~= ds.take(i as int));
        assert(ds.take(i as int + 1).last() == (doc@[i as int].0@, doc@[i as int].1));
        index_push(tokens, doc[i].0.as_str(), title, doc[i].1);
        file_index_push(term_index, file_name, doc[i].0.as_str());
        i += 1;
    }
    assert(ds.take(doc.len() as int) =~= ds);
}


/// The term index with one term's entries added, one after another.
pub open spec fn push_all<T>(
    e: Seq<(Seq<char>, Seq<(Seq<char>, T)>)>,
    k: Seq<char>,
    vs: Seq<(Seq<char>, T)>,
) -> Seq<(Seq<char>, Seq<(Seq<char>, T)>)>
    decreases vs.len(),
{
    if vs.len() == 0 {
        e
    } else {
        keyed_push(push_all(e, k, vs.drop_last()), k, vs.last())
    }
}

/// The term index with another index's entries added, term by term.
pub open spec fn merge_all<T>(
    e: Seq<(Seq<char>, Seq<(Seq<char>, T)>)>,
    other: Seq<(Seq<char>, Seq<(Seq<char>, T)>)>,
) -> Seq<(Seq<char>, Seq<(Seq<char>, T)>)>
    decreases other.len(),
{
    if other.len() == 0 {
        e
    } else {
        push_all(merge_all(e, other.drop_last()), other.last().0, other.last().1)
    }
}

/// Adds the entries of another term index (the archive's) to the notes' index.
pub fn merge_index<T: Copy>(tokens: &mut Vec<(String, Vec<(String, T)>)>, other: &Vec<(String, Vec<(String, T)>)>)
    ensures
        index_view(final(tokens)@) == merge_all(index_view(old(tokens)@), index_view(other@)),
{
    let ghost t0 = index_view(tokens@);
    let ghost os = index_view(other@);
    let mut i: usize = 0;
    while i < other.len()
        invariant
            i <= other.len(),
            os == index_view(other@),
            index_view(tokens@) == merge_all(t0, os.take(i as int)),
        decreases other.len() - i,
    {
        assert(os.take(i as int + 1).drop_last() =~= os.take(i as int));
        assert(os.take(i as int + 1).last() == os[i as int]);
        let ghost vs = scored_view(other@[i as int].1@);
        let ghost base = index_view(tokens@);
        let list = &other[i].1;
        let mut j: usize = 0;
        while j < list.len()
            invariant
                j <= list.len(),
                i < other@.len(),
                list == &other@[i as int].1,
                vs == scored_view(list@),
                index_view(tokens@) == push_all(base, other@[i as int].0@, vs.take(j as int)),
            decreases list.len() - j,
        {
            assert(vs.take(j as int + 1).drop_last() =~= vs.take(j as int));
            assert(vs.take(j as int + 1).last() == (list@[j as int].0@, list@[j as int].1));
            index_push(tokens, other[i].0.as_str(), list[j].0.as_str(), list[j].1);
            j += 1;
        }
        assert(vs.take(list.len() as int) =~= vs);
        assert(os[i as int] == (other@[i as int].0@, vs));
        i += 1;
    }
    assert(os.take(other.len() as int) =~= os);
}


/// Every search term of a text is a term: not a stop word, not empty, and at
/// most 80 bytes long.
pub proof fn law_tokens_are_terms(s: Seq<char>)
    ensures
        forall|i: int| 0 <= i < spec_tokenize(s).len() ==> is_term(#[trigger] spec_tokenize(s)[i]),
{
    lemma_terms_of_words(split_char(punct_to_space(s), ' '));
}

/// The words' terms are terms.
proof fn lemma_terms_of_words(words: Seq<Seq<char>>)
    ensures
        forall|i: int| 0 <= i < terms_of_words(words).len() ==> is_term(
            #[trigger] terms_of_words(words)[i],
        ),
    decreases words.len(),
{
    if words.len() > 0 {
        lemma_terms_of_words(words.drop_last());
        let p = terms_of_words(words.drop_last());
        assert forall|i: int| 0 <= i < terms_of_words(words).len() implies is_term(
            #[trigger] terms_of_words(words)[i],
        ) by {
            if i < p.len() {
                assert(terms_of_words(words)[i] == p[i]);
            }
        }
    }
}

/// The sum of the counts.
pub open spec fn counts_total(c: Seq<(Seq<char>, nat)>) -> nat
    decreases c.len(),
{
    if c.len() == 0 {
        0
    } else {
        counts_total(c.drop_last()) + c.last().1
    }
}

/// Raising one count raises the sum by as much.
proof fn lemma_counts_total_update(c: Seq<(Seq<char>, nat)>, i: int, t: Seq<char>)
    requires
        0 <= i < c.len(),
    ensures
        counts_total(c.update(i, (t, c[i].1 + 1))) == counts_total(c) + 1,
    decreases c.len(),
{
    let n = c.update(i, (t, c[i].1 + 1));
    if i < c.len() - 1 {
        lemma_counts_total_update(c.drop_last(), i, t);
        assert(n.drop_last() =~= c.drop_last().update(i, (t, c[i].1 + 1)));
    } else {
        assert(n.drop_last() =~= c.drop_last());
    }
}

/// A document's term counts add up to its number of terms, so the frequencies
/// made from them add up to one.
pub proof fn law_counts_add_up(ts: Seq<Seq<char>>)
    ensures
        counts_total(term_counts(ts)) == ts.len(),
    decreases ts.len(),
{
    if ts.len() > 0 {
        law_counts_add_up(ts.drop_last());
        let c = term_counts(ts.drop_last());
        lemma_count_pos(c, ts.last(), 0);
        match count_pos(c, ts.last(), 0) {
            Some(i) => {
                lemma_counts_total_update(c, i, ts.last());
            },
            None => {
                assert(c.push((ts.last(), 1)).drop_last() =~= c);
            },
        }
    }
}

} // verus!
