//! Command-palette matching over the actions' display metadata.

use vstd::prelude::*;

use crate::registry::{defs_view, ActionDef, ActionDefV, DisplayV};
use crate::schema::RegistrySchema;
use crate::text::{chars_of, push_char};

verus! {

/// Unicode `White_Space`, the set `char::is_whitespace` tests.
pub open spec fn is_white_space(c: char) -> bool {
    ('\u{9}' <= c && c <= '\u{d}') || c == ' ' || c == '\u{85}' || c == '\u{a0}' || c == '\u{1680}'
        || ('\u{2000}' <= c && c <= '\u{200a}') || c == '\u{2028}' || c == '\u{2029}' || c == '\u{202f}'
        || c == '\u{205f}' || c == '\u{3000}'
}

pub fn white_space(c: char) -> (r: bool)
    ensures
        r == is_white_space(c),
{
    ('\u{9}' <= c && c <= '\u{d}') || c == ' ' || c == '\u{85}' || c == '\u{a0}' || c == '\u{1680}'
        || ('\u{2000}' <= c && c <= '\u{200a}') || c == '\u{2028}' || c == '\u{2029}' || c == '\u{202f}'
        || c == '\u{205f}' || c == '\u{3000}'
}

/// The full Unicode lower-case mapping of a string (`str::to_lowercase`).
pub uninterp spec fn lowercase_text(s: Seq<char>) -> Seq<char>;

/// `str::to_lowercase`: the named lower-case mapping of `s`.
#[verifier::external_body]
fn lowercase(s: &str) -> (r: String)
    ensures
        r@ == lowercase_text(s@),
{
    s.to_lowercase()
}

/// The words of `s[i..]` given the word `cur` in progress: maximal runs of
/// non-white-space characters, in order.
pub open spec fn words_from(s: Seq<char>, i: int, cur: Seq<char>) -> Seq<Seq<char>>
    decreases s.len() - i,
{
    let done: Seq<Seq<char>> = if cur.len() > 0 { seq![cur] } else { Seq::empty() };
    if i < 0 || i >= s.len() {
        done
    } else if is_white_space(s[i]) {
        done + words_from(s, i + 1, Seq::empty())
    } else {
        words_from(s, i + 1, cur.push(s[i]))
    }
}

/// `str::split_whitespace`: the non-empty white-space separated words.
pub open spec fn split_words(s: Seq<char>) -> Seq<Seq<char>> {
    words_from(s, 0, Seq::empty())
}

pub open spec fn strings_view(v: Seq<String>) -> Seq<Seq<char>> {
    v.map_values(|w: String| w@)
}

/// Splits `s` into its white-space separated words.
pub fn split_whitespace(s: &str) -> (words: Vec<String>)
    ensures
        strings_view(words@) == split_words(s@),
{
    let cs = chars_of(s);
    let mut words: Vec<String> = Vec::new();
    let mut cur = String::new();
    let mut i: usize = 0;
    while i < cs.len()
        invariant
            i <= cs.len(),
            cs@ == s@,
            strings_view(words@) + words_from(cs@, i as int, cur@) == split_words(s@),
        decreases cs.len() - i,
    {
        let c = cs[i];
        if white_space(c) {
            let ghost before = strings_view(words@);
            let ghost w = cur@;
            if !cur.as_str().is_empty() {
                let mut done = String::new();
                std::mem::swap(&mut done, &mut cur);
                words.push(done);
                assert(strings_view(words@) =~= before.push(w));
            } else {
                assert(strings_view(words@) =~= before);
            }
            proof {
                let d: Seq<Seq<char>> = if w.len() > 0 { seq![w] } else { Seq::empty() };
                assert(words_from(cs@, i as int, w) == d + words_from(cs@, i + 1, Seq::empty()));
                assert(cur@ == Seq::<char>::empty());
                assert(before + (d + words_from(cs@, i + 1, Seq::empty())) =~= strings_view(words@) + words_from(cs@, i + 1, Seq::empty()));
            }
        } else {
            push_char(&mut cur, c);
        }
        i = i + 1;
    }
    let ghost before = strings_view(words@);
    let ghost w = cur@;
    if !cur.as_str().is_empty() {
        words.push(cur);
        assert(strings_view(words@) =~= before.push(w));
    } else {
        assert(strings_view(words@) =~= before);
    }
    words
}

/// `t` is a prefix of `w`.
pub open spec fn is_prefix(t: Seq<char>, w: Seq<char>) -> bool {
    t.len() <= w.len() && w.take(t.len() as int) == t
}

/// A token is a prefix of a word exactly when the word is the token
/// followed by more characters (possibly none).
pub proof fn law_prefix_means_word_begins_with_token(t: Seq<char>, w: Seq<char>)
    ensures
        is_prefix(t, w) <==> exists|rest: Seq<char>| w == t + rest,
{
    if is_prefix(t, w) {
        assert(w =~= t + w.skip(t.len() as int));
    }
    if exists|rest: Seq<char>| w == t + rest {
        let rest = choose|rest: Seq<char>| w == t + rest;
        assert(w.take(t.len() as int) =~= t);
    }
}

fn starts_with(w: &str, t: &str) -> (r: bool)
    ensures
        r == is_prefix(t@, w@),
{
    let wc = chars_of(w);
    let tc = chars_of(t);
    if tc.len() > wc.len() {
        return false;
    }
    let mut i: usize = 0;
    while i < tc.len()
        invariant
            i <= tc.len() <= wc.len(),
            wc@ == w@,
            tc@ == t@,
            forall|j: int| 0 <= j < i ==> wc@[j] == tc@[j],
        decreases tc.len() - i,
    {
        if wc[i] != tc[i] {
            assert(wc@.take(tc.len() as int)[i as int] != tc@[i as int]);
            return false;
        }
        i = i + 1;
    }
    assert(wc@.take(tc.len() as int) =~= tc@);
    true
}

/// The searchable words of a display entry: its title's words, then its
/// keywords, all lower-cased.
pub open spec fn display_words(d: DisplayV) -> Seq<Seq<char>> {
    split_words(lowercase_text(d.title)) + d.keywords.map_values(|k: Seq<char>| lowercase_text(k))
}

/// The query's tokens: its lower-cased, white-space separated words.
pub open spec fn query_tokens(query: Seq<char>) -> Seq<Seq<char>> {
    split_words(lowercase_text(query))
}

/// The token is a prefix of one of the words.
pub open spec fn token_hits(t: Seq<char>, words: Seq<Seq<char>>) -> bool {
    exists|j: int| 0 <= j < words.len() && is_prefix(t, words[j])
}

/// An action matches when it has display metadata and every token is a
/// prefix of one of its words.
pub open spec fn palette_hit(a: ActionDefV, tokens: Seq<Seq<char>>) -> bool {
    match a.display {
        None => false,
        Some(d) => forall|i: int| 0 <= i < tokens.len() ==> token_hits(#[trigger] tokens[i], display_words(d)),
    }
}

/// Token `t` begins one of `words`.
pub open spec fn begins_some(t: Seq<char>, words: Seq<Seq<char>>) -> bool {
    exists|j: int, rest: Seq<char>| #![trigger words[j], t + rest] 0 <= j < words.len() && words[j] == t + rest
}

proof fn lemma_hits_begin(t: Seq<char>, words: Seq<Seq<char>>)
    ensures
        token_hits(t, words) <==> begins_some(t, words),
{
    if token_hits(t, words) {
        let j = choose|j: int| 0 <= j < words.len() && is_prefix(t, words[j]);
        law_prefix_means_word_begins_with_token(t, words[j]);
        let rest = choose|rest: Seq<char>| words[j] == t + rest;
        assert(words[j] == t + rest);
    }
    if begins_some(t, words) {
        let (j, rest) = choose|j: int, rest: Seq<char>| #![trigger words[j], t + rest] 0 <= j < words.len() && words[j] == t + rest;
        law_prefix_means_word_begins_with_token(t, words[j]);
        assert(is_prefix(t, words[j]));
    }
}

/// Whether every token begins one of the action's display words.
pub open spec fn covered(a: ActionDefV, tokens: Seq<Seq<char>>) -> bool {
    a.display matches Some(d) && forall|k: int| 0 <= k < tokens.len() ==> begins_some(#[trigger] tokens[k], display_words(d))
}

/// The palette returns exactly the actions, in order, whose display words
/// are begun by every query token: each result is such an action, and for
/// a non-empty query every such action is among the results.
pub proof fn law_palette_results(actions: Seq<ActionDefV>, query: Seq<char>)
    ensures
        forall|i: int| 0 <= i < palette_matches(actions, query).len() ==> covered(
            #[trigger] palette_matches(actions, query)[i],
            query_tokens(query),
        ),
        forall|i: int| 0 <= i < actions.len() && query_tokens(query).len() > 0 && covered(#[trigger] actions[i], query_tokens(query))
            ==> palette_matches(actions, query).contains(actions[i]),
{
    broadcast use vstd::seq_lib::group_filter_ensures;

    let tokens = query_tokens(query);
    let pred = |a: ActionDefV| palette_hit(a, tokens);
    assert forall|a: ActionDefV| #[trigger] palette_hit(a, tokens) <==> covered(a, tokens) by {
        if let Some(d) = a.display {
            assert forall|k: int| 0 <= k < tokens.len() implies (token_hits(#[trigger] tokens[k], display_words(d)) <==> begins_some(tokens[k], display_words(d))) by {
                lemma_hits_begin(tokens[k], display_words(d));
            }
        }
    }
    assert forall|i: int| 0 <= i < palette_matches(actions, query).len() implies covered(
        #[trigger] palette_matches(actions, query)[i],
        tokens,
    ) by {
        if tokens.len() > 0 {
            assert(pred(actions.filter(pred)[i]));
        }
    }
    assert forall|i: int| 0 <= i < actions.len() && tokens.len() > 0 && covered(#[trigger] actions[i], tokens) implies palette_matches(actions, query).contains(actions[i]) by {
        assert(pred(actions[i]));
        actions.lemma_filter_contains(pred, i);
    }
}

/// The matching actions, in their original order; none for an empty query.
pub open spec fn palette_matches(actions: Seq<ActionDefV>, query: Seq<char>) -> Seq<ActionDefV> {
    if query_tokens(query).len() == 0 {
        Seq::empty()
    } else {
        actions.filter(|a: ActionDefV| palette_hit(a, query_tokens(query)))
    }
}

fn display_word_list(title: &str, keywords: &Vec<String>) -> (words: Vec<String>)
    ensures
        strings_view(words@) == split_words(lowercase_text(title@)) + crate::envelope::strs_view(keywords@).map_values(
            |k: Seq<char>| lowercase_text(k),
        ),
{
    let mut words = split_whitespace(&lowercase(title));
    let ghost base = strings_view(words@);
    let ghost kws = crate::envelope::strs_view(keywords@).map_values(|k: Seq<char>| lowercase_text(k));
    let mut i: usize = 0;
    while i < keywords.len()
        invariant
            i <= keywords.len(),
            kws == crate::envelope::strs_view(keywords@).map_values(|k: Seq<char>| lowercase_text(k)),
            strings_view(words@) == base + kws.take(i as int),
        decreases keywords.len() - i,
    {
        let ghost before = strings_view(words@);
        let k = lowercase(keywords[i].as_str());
        words.push(k);
        assert(kws.take(i + 1) =~= kws.take(i as int).push(kws[i as int]));
        assert(strings_view(words@) =~= before.push(k@));
        i = i + 1;
    }
    assert(kws.take(i as int) =~= kws);
    words
}

fn any_prefixed(words: &Vec<String>, token: &String) -> (r: bool)
    ensures
        r == token_hits(token@, strings_view(words@)),
{
    let mut j: usize = 0;
    while j < words.len()
        invariant
            j <= words.len(),
            forall|k: int| 0 <= k < j ==> !is_prefix(token@, strings_view(words@)[k]),
        decreases words.len() - j,
    {
        if starts_with(words[j].as_str(), token.as_str()) {
            assert(strings_view(words@)[j as int] == words[j as int]@);
            return true;
        }
        assert(strings_view(words@)[j as int] == words[j as int]@);
        j = j + 1;
    }
    false
}

fn hit(action: &ActionDef, tokens: &Vec<String>) -> (r: bool)
    ensures
        r == palette_hit(action@, strings_view(tokens@)),
{
    match &action.display {
        None => false,
        Some(d) => {
            let words = display_word_list(d.title.as_str(), &d.keywords);
            let ghost dw = display_words(d@);
            assert(strings_view(words@) == dw);
            let ghost tv = strings_view(tokens@);
            let mut i: usize = 0;
            while i < tokens.len()
                invariant
                    i <= tokens.len(),
                    tv == strings_view(tokens@),
                    strings_view(words@) == dw,
                    action@.display == Some(d@),
                    dw == display_words(d@),
                    forall|k: int| 0 <= k < i ==> token_hits(#[trigger] tv[k], dw),
                decreases tokens.len() - i,
            {
                assert(tv[i as int] == tokens[i as int]@);
                if !any_prefixed(&words, &tokens[i]) {
                    assert(!token_hits(tv[i as int], dw));
                    return false;
                }
                i = i + 1;
            }
            true
        },
    }
}

/// Prefix-token match: every white-space separated query token must be a
/// prefix of some word of the action's display title or of one of its
/// keywords, case-insensitively. Actions without display metadata never
/// match, and an empty query matches nothing.
pub fn match_actions<'a>(actions: &'a [ActionDef], query: &str) -> (r: Vec<&'a ActionDef>)
    ensures
        r@.map_values(|a: &ActionDef| a@) == palette_matches(actions@.map_values(|a: ActionDef| a@), query@),
{
    let tokens = split_whitespace(&lowercase(query));
    let ghost tv = strings_view(tokens@);
    let ghost av = actions@.map_values(|a: ActionDef| a@);
    let ghost pred = |a: ActionDefV| palette_hit(a, tv);
    let mut out: Vec<&'a ActionDef> = Vec::new();
    if tokens.len() == 0 {
        assert(out@.map_values(|a: &ActionDef| a@) =~= Seq::<ActionDefV>::empty());
        return out;
    }
    let mut i: usize = 0;
    while i < actions.len()
        invariant
            i <= actions.len(),
            av == actions@.map_values(|a: ActionDef| a@),
            tv == strings_view(tokens@),
            pred == (|a: ActionDefV| palette_hit(a, tv)),
            out@.map_values(|a: &ActionDef| a@) == av.take(i as int).filter(pred),
        decreases actions.len() - i,
    {
        let ghost before = out@.map_values(|a: &ActionDef| a@);
        proof {
            reveal(Seq::filter);
            let t = av.take(i + 1);
            assert(t.drop_last() =~= av.take(i as int));
            assert(t.last() == av[i as int]);
            assert(av[i as int] == actions[i as int]@);
        }
        if hit(&actions[i], &tokens) {
            out.push(&actions[i]);
            assert(out@.map_values(|a: &ActionDef| a@) =~= before.push(av[i as int]));
        } else {
            assert(out@.map_values(|a: &ActionDef| a@) =~= before);
        }
        i = i + 1;
    }
    assert(av.take(i as int) =~= av);
    out
}

impl RegistrySchema {
    /// Palette match over this document's actions; see [`match_actions`].
    pub fn match_actions(&self, query: &str) -> (r: Vec<&ActionDef>)
        ensures
            r@.map_values(|a: &ActionDef| a@) == palette_matches(self@.actions, query@),
    {
        let r = match_actions(self.actions.as_slice(), query);
        assert(self.actions@.map_values(|a: ActionDef| a@) =~= defs_view(self.actions@));
        r
    }
}

} // verus!
