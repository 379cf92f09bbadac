//! What the laws are stated in: characters, places and numbers, spelled out,
//! with nothing of how the library works anything out.

use vstd::prelude::*;

use crate::filter::{
    filters_of, first_at, halves, is_filter, lemma_first_at, mentions, plain_of, runs, words_of,
    QueryView, When,
};
use crate::text::{
    after_last, lower, lower_char, same, spelled, trim_end, trim_start, trimmed, white, whole,
};
use crate::timestamp::Timestamp;

verus! {

// ---------------------------------------------------------------------------
// Letters
// ---------------------------------------------------------------------------

/// A letter from `A` to `Z` made small; any other character as it is.
pub open spec fn small(c: char) -> char {
    if 'A' <= c <= 'Z' {
        ((c as u32 + 32) as u32) as char
    } else {
        c
    }
}

/// Two texts that differ in the case of their letters at most.
pub open spec fn same_letters(a: Seq<char>, b: Seq<char>) -> bool {
    a.len() == b.len() && forall|i: int| 0 <= i < a.len() ==> small(#[trigger] a[i]) == small(b[i])
}

/// Whether a text stands in another from a place on, whatever the case of
/// their letters.
pub open spec fn appears_at(value: Seq<char>, held: Seq<char>, at: int) -> bool {
    &&& 0 <= at
    &&& at + value.len() <= held.len()
    &&& forall|k: int|
        0 <= k < value.len() ==> small(held[at + k]) == small(#[trigger] value[k])
}

/// Whether a text stands somewhere in another, whatever the case of their
/// letters.
pub open spec fn appears(value: Seq<char>, held: Seq<char>) -> bool {
    exists|at: int| appears_at(value, held, at)
}

pub proof fn lemma_lower(s: Seq<char>)
    ensures
        lower(s).len() == s.len(),
        forall|i: int| 0 <= i < s.len() ==> #[trigger] lower(s)[i] == small(s[i]),
{
    assert forall|i: int| 0 <= i < s.len() implies #[trigger] lower(s)[i] == small(s[i]) by {
        assert(lower(s)[i] == lower_char(s[i]));
    }
}

/// Without regard to case, a text is mentioned where it appears.
pub proof fn law_a_mention_is_an_appearance(held: Seq<char>, value: Seq<char>)
    ensures
        mentions(held, value) <==> appears(value, held),
{
    lemma_lower(held);
    lemma_lower(value);
    let (long, short) = (lower(held), lower(value));
    if mentions(held, value) {
        let at = choose|at: int| crate::text::stands_at(long, short, at);
        assert forall|k: int| 0 <= k < value.len() implies small(held[at + k]) == small(
            #[trigger] value[k],
        ) by {
            assert(long.subrange(at, at + short.len())[k] == short[k]);
        }
        assert(appears_at(value, held, at));
    }
    if appears(value, held) {
        let at = choose|at: int| appears_at(value, held, at);
        assert forall|k: int| 0 <= k < short.len() implies long.subrange(at, at + short.len())[k]
            == short[k] by {
            assert(small(held[at + k]) == small(value[k]));
        }
        assert(long.subrange(at, at + short.len()) =~= short);
        assert(crate::text::stands_at(long, short, at));
    }
}

/// Two names are the same where they differ in the case of their letters at
/// most.
pub proof fn law_the_same_name_has_the_same_letters(a: Seq<char>, b: Seq<char>)
    ensures
        same(a, b) <==> same_letters(a, b),
{
    lemma_lower(a);
    lemma_lower(b);
    if same(a, b) {
        assert forall|i: int| 0 <= i < a.len() implies small(#[trigger] a[i]) == small(b[i]) by {
            assert(lower(a)[i] == lower(b)[i]);
        }
    }
    if same_letters(a, b) {
        assert forall|i: int| 0 <= i < a.len() implies lower(a)[i] == lower(b)[i] by {
            assert(small(a[i]) == small(b[i]));
        }
        assert(lower(a) =~= lower(b));
    }
}

/// A text without blanks appears in two texts with a blank between them where
/// it appears in one of them.
pub proof fn lemma_appears_in_either(value: Seq<char>, a: Seq<char>, b: Seq<char>)
    requires
        value.len() > 0,
        forall|k: int| 0 <= k < value.len() ==> #[trigger] value[k] != ' ',
    ensures
        appears(value, a + " "@ + b) <==> appears(value, a) || appears(value, b),
{
    reveal_strlit(" ");
    let whole = a + " "@ + b;
    assert(whole.len() == a.len() + 1 + b.len());
    if appears(value, whole) {
        let at = choose|at: int| appears_at(value, whole, at);
        if at + value.len() <= a.len() {
            assert forall|k: int| 0 <= k < value.len() implies small(a[at + k]) == small(
                #[trigger] value[k],
            ) by {
                assert(whole[at + k] == a[at + k]);
            }
            assert(appears_at(value, a, at));
        } else if at > a.len() {
            let there = at - a.len() - 1;
            assert forall|k: int| 0 <= k < value.len() implies small(b[there + k]) == small(
                #[trigger] value[k],
            ) by {
                assert(whole[at + k] == b[there + k]);
            }
            assert(appears_at(value, b, there));
        } else {
            let k = a.len() - at;
            assert(small(whole[at + k]) == small(value[k]));
            assert(whole[at + k] == ' ');
            assert(value[k] == ' ');
        }
    }
    if appears(value, a) {
        let at = choose|at: int| appears_at(value, a, at);
        assert forall|k: int| 0 <= k < value.len() implies small(whole[at + k]) == small(
            #[trigger] value[k],
        ) by {
            assert(whole[at + k] == a[at + k]);
        }
        assert(appears_at(value, whole, at));
    }
    if appears(value, b) {
        let at = choose|at: int| appears_at(value, b, at);
        let there = at + a.len() + 1;
        assert forall|k: int| 0 <= k < value.len() implies small(whole[there + k]) == small(
            #[trigger] value[k],
        ) by {
            assert(whole[there + k] == b[at + k]);
        }
        assert(appears_at(value, whole, there));
    }
}

// ---------------------------------------------------------------------------
// Blanks and words
// ---------------------------------------------------------------------------

/// A character that stands between words.
pub open spec fn is_gap(c: char) -> bool {
    let n = c as u32;
    ||| n == 0x20 || 0x9 <= n <= 0xd
    ||| n == 0x85 || n == 0xa0 || n == 0x1680 || 0x2000 <= n <= 0x200a
    ||| n == 0x2028 || n == 0x2029 || n == 0x202f || n == 0x205f || n == 0x3000
}

/// Whether a stretch of a text is one of its words: no blank in it, and a
/// blank or an end of the text on both sides.
pub open spec fn word_at(text: Seq<char>, from: int, to: int) -> bool {
    &&& 0 <= from < to <= text.len()
    &&& forall|k: int| from <= k < to ==> !is_gap(#[trigger] text[k])
    &&& from == 0 || is_gap(text[from - 1])
    &&& to == text.len() || is_gap(text[to])
}

/// Whether a text is a word of another.
pub open spec fn is_word_of(word: Seq<char>, text: Seq<char>) -> bool {
    exists|from: int, to: int|
        #[trigger] word_at(text, from, to) && word == text.subrange(from, to)
}

/// Whether a text is a word of another that ends before that does.
spec fn ended_word(s: Seq<char>, word: Seq<char>) -> bool {
    exists|from: int, to: int| #[trigger]
        word_at(s, from, to) && to < s.len() && word == s.subrange(from, to)
}

/// What the words of the first part of a text are: those that have ended, and
/// the one that may go on.
proof fn lemma_runs(s: Seq<char>)
    ensures
        ({
            let (done, open) = runs(s);
            let n = s.len() as int;
            &&& open.len() <= n
            &&& open == s.subrange(n - open.len(), n)
            &&& forall|k: int| n - open.len() <= k < n ==> !is_gap(#[trigger] s[k])
            &&& open.len() < n ==> is_gap(s[n - open.len() - 1])
            &&& forall|i: int|
                0 <= i < done.len() ==> ended_word(s, #[trigger] done[i])
            &&& forall|from: int, to: int| #[trigger]
                word_at(s, from, to) && to < n ==> done.contains(s.subrange(from, to))
        }),
    decreases s.len(),
{
    if s.len() > 0 {
        let before = s.drop_last();
        lemma_runs(before);
        let (was, held) = runs(before);
        let (done, open) = runs(s);
        let n = s.len() as int;
        let last = s.last();
        assert(white(last) == is_gap(last));
        assert forall|from: int, to: int| to < n && (to < n - 1 || is_gap(last)) implies (
        #[trigger] word_at(s, from, to) <==> word_at(before, from, to)) by {
            if word_at(s, from, to) {
                assert forall|k: int| from <= k < to implies !is_gap(#[trigger] before[k]) by {
                    assert(before[k] == s[k]);
                }
            }
            if word_at(before, from, to) {
                assert forall|k: int| from <= k < to implies !is_gap(#[trigger] s[k]) by {
                    assert(before[k] == s[k]);
                }
            }
        }
        assert forall|from: int, to: int| 0 <= from <= to <= n - 1 implies s.subrange(from, to)
            == #[trigger] before.subrange(from, to) by {
            assert(s.subrange(from, to) =~= before.subrange(from, to));
        }
        if !is_gap(last) {
            assert(open =~= s.subrange(n - open.len(), n)) by {
                assert(held =~= before.subrange(n - 1 - held.len(), n - 1));
            }
            assert forall|k: int| n - open.len() <= k < n implies !is_gap(#[trigger] s[k]) by {
                if k < n - 1 {
                    assert(before[k] == s[k]);
                }
            }
            if open.len() < n {
                assert(before[n - open.len() - 1] == s[n - open.len() - 1]);
            }
            assert forall|i: int| 0 <= i < done.len() implies ended_word(s, #[trigger] done[i]) by {
                assert(ended_word(before, was[i]));
                let (from, to) = choose|from: int, to: int|
                    #[trigger] word_at(before, from, to) && to < n - 1 && was[i]
                        == before.subrange(from, to);
                assert(s.subrange(from, to) == before.subrange(from, to));
                assert(word_at(s, from, to));
            }
            assert forall|from: int, to: int| #[trigger] word_at(s, from, to) && to
                < n implies done.contains(s.subrange(from, to)) by {
                if to == n - 1 {
                    assert(is_gap(s[to]));
                }
                assert(word_at(before, from, to));
                assert(s.subrange(from, to) == before.subrange(from, to));
            }
        } else {
            let start = n - 1 - held.len();
            if held.len() > 0 {
                assert(word_at(before, start, n - 1));
                assert(word_at(s, start, n - 1));
                assert(s.subrange(start, n - 1) == before.subrange(start, n - 1));
            }
            assert(open =~= s.subrange(n, n));
            assert forall|i: int| 0 <= i < done.len() implies ended_word(s, #[trigger] done[i]) by {
                if i < was.len() {
                    assert(ended_word(before, was[i]));
                    let (from, to) = choose|from: int, to: int|
                        #[trigger] word_at(before, from, to) && to < n - 1 && was[i]
                            == before.subrange(from, to);
                    assert(s.subrange(from, to) == before.subrange(from, to));
                    assert(word_at(s, from, to));
                } else {
                    assert(word_at(s, start, n - 1));
                }
            }
            assert forall|from: int, to: int| #[trigger] word_at(s, from, to) && to
                < n implies done.contains(s.subrange(from, to)) by {
                assert(word_at(before, from, to));
                assert(s.subrange(from, to) == before.subrange(from, to));
                if to < n - 1 {
                    let k = was.index_of(before.subrange(from, to));
                    assert(done[k] == before.subrange(from, to));
                } else {
                    // The stretch that ends where the text before ended is the
                    // open one.
                    if from < start {
                        assert(is_gap(before[start - 1]));
                    } else if from > start {
                        assert(!is_gap(before[from - 1]));
                    }
                    assert(done.last() == held);
                    assert(done[done.len() - 1] == held);
                }
            }
        }
    } else {
        assert(runs(s).1 =~= s.subrange(0, 0));
    }
}

/// The words of a text are exactly the stretches of it that no blank parts,
/// each as long as it goes.
pub proof fn law_words_are_what_blanks_part(text: Seq<char>, word: Seq<char>)
    ensures
        words_of(text).contains(word) <==> is_word_of(word, text),
{
    lemma_runs(text);
    let (done, open) = runs(text);
    let n = text.len() as int;
    let all = words_of(text);
    if open.len() > 0 {
        assert(word_at(text, n - open.len(), n));
    }
    if all.contains(word) {
        let i = all.index_of(word);
        if i < done.len() {
            assert(ended_word(text, done[i]));
            let (from, to) = choose|from: int, to: int|
                #[trigger] word_at(text, from, to) && to < n && done[i] == text.subrange(from, to);
            assert(word_at(text, from, to) && word == text.subrange(from, to));
        } else {
            assert(word == open);
            assert(word_at(text, n - open.len(), n));
        }
    }
    if is_word_of(word, text) {
        let (from, to) = choose|from: int, to: int|
            #[trigger] word_at(text, from, to) && word == text.subrange(from, to);
        if to < n {
            assert(done.contains(word));
            let k = done.index_of(word);
            assert(all[k] == word);
        } else {
            let start = n - open.len();
            if from < start {
                assert(is_gap(text[start - 1]));
            } else if from > start {
                assert(!is_gap(text[from - 1]));
            }
            assert(all[all.len() - 1] == word);
        }
    }
}

/// A text without the blanks at its ends: nothing but blanks goes, and neither
/// end of what is left is one.
pub open spec fn is_trim(s: Seq<char>, from: int, to: int) -> bool {
    &&& 0 <= from <= to <= s.len()
    &&& forall|k: int| 0 <= k < from ==> is_gap(#[trigger] s[k])
    &&& forall|k: int| to <= k < s.len() ==> is_gap(#[trigger] s[k])
    &&& from < to ==> !is_gap(s[from]) && !is_gap(s[to - 1])
}

proof fn lemma_trim_start(s: Seq<char>) -> (from: int)
    ensures
        0 <= from <= s.len(),
        trim_start(s) == s.skip(from),
        forall|k: int| 0 <= k < from ==> is_gap(#[trigger] s[k]),
        from < s.len() ==> !is_gap(s[from]),
    decreases s.len(),
{
    if s.len() > 0 && white(s[0]) {
        let rest = lemma_trim_start(s.skip(1));
        assert(s.skip(1).skip(rest) =~= s.skip(rest + 1));
        assert forall|k: int| 0 <= k < rest + 1 implies is_gap(#[trigger] s[k]) by {
            if k > 0 {
                assert(s.skip(1)[k - 1] == s[k]);
            }
        }
        if rest < s.skip(1).len() {
            assert(s.skip(1)[rest] == s[rest + 1]);
        }
        rest + 1
    } else {
        assert(s.skip(0) =~= s);
        0
    }
}

proof fn lemma_trim_end(s: Seq<char>) -> (to: int)
    ensures
        0 <= to <= s.len(),
        trim_end(s) == s.take(to),
        forall|k: int| to <= k < s.len() ==> is_gap(#[trigger] s[k]),
        to > 0 ==> !is_gap(s[to - 1]),
    decreases s.len(),
{
    if s.len() > 0 && white(s.last()) {
        let to = lemma_trim_end(s.drop_last());
        assert(s.drop_last().take(to) =~= s.take(to));
        assert forall|k: int| to <= k < s.len() implies is_gap(#[trigger] s[k]) by {
            if k < s.len() - 1 {
                assert(s.drop_last()[k] == s[k]);
            }
        }
        if to > 0 {
            assert(s.drop_last()[to - 1] == s[to - 1]);
        }
        to
    } else {
        assert(s.take(s.len() as int) =~= s);
        s.len() as int
    }
}

/// A trimmed text is what is left of it once the blanks at its ends, and
/// nothing else, are gone.
pub proof fn law_a_trim_takes_blanks_off_the_ends(s: Seq<char>) -> (bounds: (int, int))
    ensures
        is_trim(s, bounds.0, bounds.1),
        trimmed(s) == s.subrange(bounds.0, bounds.1),
{
    let from = lemma_trim_start(s);
    let rest = s.skip(from);
    let end = lemma_trim_end(rest);
    let to = from + end;
    assert(rest.take(end) =~= s.subrange(from, to));
    if end == 0 {
        if rest.len() > 0 {
            assert(is_gap(rest[0]));
        }
    } else {
        assert(rest[end - 1] == s[to - 1]);
        if end < rest.len() {
        }
    }
    assert forall|k: int| to <= k < s.len() implies is_gap(#[trigger] s[k]) by {
        assert(rest[k - from] == s[k]);
    }
    (from, to)
}

/// What follows the last of a character: no such character is in it, and in
/// front of it stands one, or nothing.
pub proof fn law_the_last_part_follows_the_last(s: Seq<char>, c: char) -> (from: int)
    ensures
        0 <= from <= s.len(),
        after_last(s, c) == s.skip(from),
        forall|k: int| from <= k < s.len() ==> #[trigger] s[k] != c,
        from == 0 || s[from - 1] == c,
    decreases s.len(),
{
    if s.len() == 0 || s.last() == c {
        assert(s.skip(s.len() as int) =~= Seq::<char>::empty());
        s.len() as int
    } else {
        let before = s.drop_last();
        let from = law_the_last_part_follows_the_last(before, c);
        assert(before.skip(from).push(s.last()) =~= s.skip(from));
        assert forall|k: int| from <= k < s.len() implies #[trigger] s[k] != c by {
            if k < before.len() {
                assert(before[k] == s[k]);
            }
        }
        if from > 0 {
            assert(before[from - 1] == s[from - 1]);
        }
        from
    }
}

// ---------------------------------------------------------------------------
// Queries
// ---------------------------------------------------------------------------

/// Whether a word is a filter on a key: the key, a colon and a value.
pub open spec fn asks(word: Seq<char>, key: Seq<char>, value: Seq<char>) -> bool {
    value.len() > 0 && word == key + seq![':'] + value
}

/// Whether no key of a table has a colon in it.
pub open spec fn no_colons(schema: Seq<Seq<char>>) -> bool {
    forall|i: int, k: int|
        0 <= i < schema.len() && 0 <= k < schema[i].len() ==> #[trigger] schema[i][k] != ':'
}

proof fn lemma_a_filter(word: Seq<char>, schema: Seq<Seq<char>>)
    requires
        no_colons(schema),
    ensures
        is_filter(word, schema) ==> asks(word, halves(word, ':').0, halves(word, ':').1)
            && schema.contains(halves(word, ':').0),
        forall|key: Seq<char>, value: Seq<char>| #[trigger]
            asks(word, key, value) && schema.contains(key) ==> is_filter(word, schema) && halves(
                word,
                ':',
            ) == (key, value),
{
    let at = first_at(word, ':');
    lemma_first_found(word, ':');
    if is_filter(word, schema) {
        assert(word =~= word.take(at) + seq![':'] + word.skip(at + 1));
    }
    assert forall|key: Seq<char>, value: Seq<char>| #[trigger] asks(word, key, value)
        && schema.contains(key) implies is_filter(word, schema) && halves(word, ':') == (
        key,
        value,
    ) by {
        let i = schema.index_of(key);
        assert forall|k: int| 0 <= k < key.len() implies word[k] != ':' by {
            assert(word[k] == key[k]);
            assert(schema[i][k] != ':');
        }
        assert(word[key.len() as int] == ':');
        lemma_first_at(word, ':', key.len() as int);
        assert(word.take(key.len() as int) =~= key);
        assert(word.skip(key.len() as int + 1) =~= value);
    }
}

proof fn lemma_first_found(s: Seq<char>, c: char)
    ensures
        0 <= first_at(s, c) <= s.len(),
        first_at(s, c) < s.len() ==> s[first_at(s, c)] == c,
    decreases s.len(),
{
    if s.len() > 0 && s[0] != c {
        lemma_first_found(s.skip(1), c);
    }
}

/// Whether a pair is what a filter among some words says.
spec fn is_said_by(all: Seq<Seq<char>>, schema: Seq<Seq<char>>, field: (Seq<char>, Seq<char>)) -> bool {
    exists|k: int|
        0 <= k < all.len() && is_filter(#[trigger] all[k], schema) && field == halves(all[k], ':')
}

/// Whether a text is one of some words that is no filter.
spec fn is_bare_in(all: Seq<Seq<char>>, schema: Seq<Seq<char>>, word: Seq<char>) -> bool {
    exists|k: int| 0 <= k < all.len() && !is_filter(#[trigger] all[k], schema) && word == all[k]
}

proof fn lemma_taken_apart(all: Seq<Seq<char>>, schema: Seq<Seq<char>>)
    ensures
        forall|i: int|
            0 <= i < filters_of(all, schema).len() ==> is_said_by(
                all,
                schema,
                #[trigger] filters_of(all, schema)[i],
            ),
        forall|k: int|
            0 <= k < all.len() && is_filter(#[trigger] all[k], schema) ==> filters_of(
                all,
                schema,
            ).contains(halves(all[k], ':')),
        forall|i: int|
            0 <= i < plain_of(all, schema).len() ==> is_bare_in(
                all,
                schema,
                #[trigger] plain_of(all, schema)[i],
            ),
        forall|k: int|
            0 <= k < all.len() && !is_filter(#[trigger] all[k], schema) ==> plain_of(
                all,
                schema,
            ).contains(all[k]),
    decreases all.len(),
{
    if all.len() > 0 {
        let before = all.drop_last();
        lemma_taken_apart(before, schema);
        let (fields, words) = (filters_of(all, schema), plain_of(all, schema));
        let (had, held) = (filters_of(before, schema), plain_of(before, schema));
        assert forall|i: int| 0 <= i < fields.len() implies is_said_by(
            all,
            schema,
            #[trigger] fields[i],
        ) by {
            if i < had.len() {
                assert(is_said_by(before, schema, had[i]));
                let k = choose|k: int|
                    0 <= k < before.len() && is_filter(#[trigger] before[k], schema) && had[i]
                        == halves(before[k], ':');
                assert(all[k] == before[k]);
            } else {
                assert(is_filter(all[all.len() - 1], schema));
            }
        }
        assert forall|i: int| 0 <= i < words.len() implies is_bare_in(
            all,
            schema,
            #[trigger] words[i],
        ) by {
            if i < held.len() {
                assert(is_bare_in(before, schema, held[i]));
                let k = choose|k: int|
                    0 <= k < before.len() && !is_filter(#[trigger] before[k], schema) && held[i]
                        == before[k];
                assert(all[k] == before[k]);
            } else {
                assert(!is_filter(all[all.len() - 1], schema));
            }
        }
        assert forall|k: int| 0 <= k < all.len() && is_filter(
            #[trigger] all[k],
            schema,
        ) implies fields.contains(halves(all[k], ':')) by {
            if k < before.len() {
                assert(before[k] == all[k]);
                let i = had.index_of(halves(all[k], ':'));
                assert(fields[i] == halves(all[k], ':'));
            } else {
                assert(fields[fields.len() - 1] == halves(all[k], ':'));
            }
        }
        assert forall|k: int| 0 <= k < all.len() && !is_filter(
            #[trigger] all[k],
            schema,
        ) implies words.contains(all[k]) by {
            if k < before.len() {
                assert(before[k] == all[k]);
                let i = held.index_of(all[k]);
                assert(words[i] == all[k]);
            } else {
                assert(words[words.len() - 1] == all[k]);
            }
        }
    }
}

/// A query filters by a key and a value exactly where one of its words is the
/// key, a colon and the value, and the table knows the key; every other word
/// of it is searched for as it stands, and nothing else is.
pub proof fn law_a_query_is_its_words(
    text: Seq<char>,
    schema: Seq<Seq<char>>,
    key: Seq<char>,
    value: Seq<char>,
    word: Seq<char>,
)
    requires
        no_colons(schema),
    ensures
        QueryView::of(text, schema).fields.contains((key, value)) <==> schema.contains(key)
            && value.len() > 0 && is_word_of(key + seq![':'] + value, text),
        QueryView::of(text, schema).words.contains(word) <==> is_word_of(word, text) && !(exists|
            k: Seq<char>,
            v: Seq<char>,
        | #[trigger] asks(word, k, v) && schema.contains(k)),
{
    let all = words_of(text);
    let query = QueryView::of(text, schema);
    lemma_taken_apart(all, schema);
    let both = key + seq![':'] + value;
    lemma_a_filter(both, schema);
    law_words_are_what_blanks_part(text, both);
    if query.fields.contains((key, value)) {
        let i = query.fields.index_of((key, value));
        assert(is_said_by(all, schema, query.fields[i]));
        let k = choose|k: int|
            0 <= k < all.len() && is_filter(#[trigger] all[k], schema) && query.fields[i]
                == halves(all[k], ':');
        lemma_a_filter(all[k], schema);
        assert(asks(all[k], key, value));
        assert(all.contains(both));
    }
    if schema.contains(key) && value.len() > 0 && is_word_of(both, text) {
        assert(asks(both, key, value));
        let k = all.index_of(both);
        assert(is_filter(all[k], schema));
    }
    lemma_a_filter(word, schema);
    law_words_are_what_blanks_part(text, word);
    if query.words.contains(word) {
        let i = query.words.index_of(word);
        assert(is_bare_in(all, schema, query.words[i]));
        let k = choose|k: int|
            0 <= k < all.len() && !is_filter(#[trigger] all[k], schema) && query.words[i]
                == all[k];
        assert(all[k] == word);
        assert(all.contains(word));
    }
    if is_word_of(word, text) && !(exists|k: Seq<char>, v: Seq<char>| #[trigger]
        asks(word, k, v) && schema.contains(k)) {
        let k = all.index_of(word);
        if is_filter(all[k], schema) {
            assert(asks(word, halves(word, ':').0, halves(word, ':').1));
        }
        assert(query.words.contains(all[k]));
    }
}

// ---------------------------------------------------------------------------
// Numbers and spans of time
// ---------------------------------------------------------------------------

/// Whether some digits spell a number, the last digit worth its own face.
pub open spec fn digits_of(s: Seq<char>, n: nat) -> bool
    decreases s.len(),
{
    if s.len() == 0 {
        n == 0
    } else {
        &&& '0' <= s.last() <= '9'
        &&& n % 10 == s.last() as u32 - 0x30
        &&& digits_of(s.drop_last(), n / 10)
    }
}

proof fn lemma_digits(s: Seq<char>, n: nat)
    ensures
        digits_of(s, n) ==> spelled(s) == Some(n),
    decreases s.len(),
{
    if s.len() > 0 && digits_of(s, n) {
        lemma_digits(s.drop_last(), n / 10);
    }
}

/// Digits spell the number they are read as.
pub proof fn law_digits_spell_their_number(s: Seq<char>, n: nat)
    requires
        s.len() > 0,
        digits_of(s, n),
    ensures
        whole(s) == Some(n),
{
    lemma_digits(s, n);
    if s[0] == '+' {
        lemma_first_is_a_digit(s, n);
    }
}

proof fn lemma_first_is_a_digit(s: Seq<char>, n: nat)
    requires
        s.len() > 0,
        digits_of(s, n),
    ensures
        '0' <= s[0] <= '9',
    decreases s.len(),
{
    if s.len() > 1 {
        lemma_first_is_a_digit(s.drop_last(), n / 10);
    }
}

/// How many seconds a unit of a bound is worth: a minute, an hour, a day or a
/// week.
pub open spec fn worth(unit: char, seconds: nat) -> bool {
    ||| unit == 'm' && seconds == 60
    ||| unit == 'h' && seconds == 60 * 60
    ||| unit == 'd' && seconds == 24 * 60 * 60
    ||| unit == 'w' && seconds == 7 * 24 * 60 * 60
}

/// A moment that a calendar reaches.
pub open spec fn on_the_calendar(stamp: Timestamp) -> bool {
    -377_705_116_800 <= stamp.seconds <= 253_402_300_799
}

/// A bound such as `<30d` is met by a moment still to come that is nearer than
/// that, and `>30d` by one that is further off; and of moments past by one
/// that is not so long ago, or longer. None meets either where it is not set.
pub proof fn law_a_bound_is_met_by_what_is_within_it(
    sign: char,
    digits: Seq<char>,
    n: nat,
    unit: char,
    seconds: nat,
    stamp: Timestamp,
    now: Timestamp,
)
    requires
        sign == '<' || sign == '>',
        digits.len() > 0,
        digits_of(digits, n),
        worth(unit, seconds),
        n * seconds <= u64::MAX,
        on_the_calendar(stamp),
        on_the_calendar(now),
    ensures
        ({
            let bound = When::of(seq![sign] + digits + seq![unit]);
            &&& bound is Some
            &&& bound->0.reached(Some(stamp), now) == if sign == '<' {
                stamp.seconds - now.seconds < n * seconds
            } else {
                stamp.seconds - now.seconds > n * seconds
            }
            &&& bound->0.aged(Some(stamp), now) == if sign == '<' {
                now.seconds - stamp.seconds < n * seconds
            } else {
                now.seconds - stamp.seconds > n * seconds
            }
            &&& !bound->0.reached(None, now)
            &&& !bound->0.aged(None, now)
        }),
{
    let value = seq![sign] + digits + seq![unit];
    assert(value.subrange(1, value.len() - 1) =~= digits);
    assert(value.last() == unit);
    law_digits_spell_their_number(digits, n);
}

} // verus!
