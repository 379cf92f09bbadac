//! What is typed into a search box: words, and `key:value` filters for the
//! keys that the table knows.

use vstd::prelude::*;

use crate::text::{
    begins, chars_of, equal, holds, is_white, join, joined, lower, parse_whole, slice_text,
    starts_with, texts, to_lower, white, whole, within,
};
use crate::timestamp::{seconds_between, Timestamp};

verus! {

// ---------------------------------------------------------------------------
// Words
// ---------------------------------------------------------------------------

/// The words that have ended, and the one still open at the end.
pub open spec fn runs(s: Seq<char>) -> (Seq<Seq<char>>, Seq<char>)
    decreases s.len(),
{
    if s.len() == 0 {
        (Seq::empty(), Seq::empty())
    } else {
        let (done, open) = runs(s.drop_last());
        if !white(s.last()) {
            (done, open.push(s.last()))
        } else if open.len() == 0 {
            (done, open)
        } else {
            (done.push(open), Seq::empty())
        }
    }
}

/// The words of a text: what stands between its blanks.
pub open spec fn words_of(s: Seq<char>) -> Seq<Seq<char>> {
    let (done, open) = runs(s);
    if open.len() == 0 {
        done
    } else {
        done.push(open)
    }
}

/// The words of a text.
pub fn words(s: &str) -> (r: Vec<String>)
    ensures
        texts(r@) == words_of(s@),
{
    let chars = chars_of(s);
    let mut done: Vec<String> = Vec::new();
    let mut open = String::new();
    let mut i: usize = 0;
    proof {
        assert(texts(done@) =~= Seq::<Seq<char>>::empty());
    }
    while i < chars.len()
        invariant
            i <= chars@.len(),
            runs(chars@.take(i as int)) == (texts(done@), open@),
        decreases chars@.len() - i,
    {
        let ghost before = texts(done@);
        let ghost was = open@;
        proof {
            assert(chars@.take(i + 1).drop_last() =~= chars@.take(i as int));
        }
        if !is_white(chars[i]) {
            open.push(chars[i]);
        } else if !open.as_str().is_empty() {
            done.push(open);
            proof {
                assert(texts(done@) =~= before.push(was));
            }
            open = String::new();
        }
        i = i + 1;
    }
    proof {
        assert(chars@.take(chars@.len() as int) =~= chars@);
    }
    if !open.as_str().is_empty() {
        let ghost before = texts(done@);
        let ghost was = open@;
        done.push(open);
        proof {
            assert(texts(done@) =~= before.push(was));
        }
    }
    done
}

// ---------------------------------------------------------------------------
// Queries
// ---------------------------------------------------------------------------

/// Where `c` first stands in a text, or its length where it does not.
pub open spec fn first_at(s: Seq<char>, c: char) -> int
    decreases s.len(),
{
    if s.len() == 0 || s[0] == c {
        0
    } else {
        1 + first_at(s.skip(1), c)
    }
}

pub proof fn lemma_first_at(s: Seq<char>, c: char, i: int)
    requires
        0 <= i <= s.len(),
        forall|k: int| 0 <= k < i ==> s[k] != c,
        i < s.len() ==> s[i] == c,
    ensures
        first_at(s, c) == i,
    decreases i,
{
    if i > 0 {
        assert forall|k: int| 0 <= k < i - 1 implies s.skip(1)[k] != c by {
            assert(s.skip(1)[k] == s[k + 1]);
        }
        lemma_first_at(s.skip(1), c, i - 1);
    }
}

pub fn find_char(chars: &Vec<char>, c: char) -> (r: usize)
    ensures
        r == first_at(chars@, c),
        r <= chars@.len(),
{
    let mut i: usize = 0;
    while i < chars.len() && chars[i] != c
        invariant
            i <= chars@.len(),
            forall|k: int| 0 <= k < i ==> chars@[k] != c,
        decreases chars@.len() - i,
    {
        i = i + 1;
    }
    proof {
        lemma_first_at(chars@, c, i as int);
    }
    i
}

/// The two halves of a word around its first colon.
pub open spec fn halves(word: Seq<char>, c: char) -> (Seq<char>, Seq<char>) {
    let at = first_at(word, c);
    (word.take(at), word.skip(at + 1))
}

/// Whether a word is a filter: a key the table knows, a colon, and a value.
pub open spec fn is_filter(word: Seq<char>, schema: Seq<Seq<char>>) -> bool {
    let at = first_at(word, ':');
    at + 1 < word.len() && schema.contains(word.take(at))
}

/// The filters among some words, in the order they were typed.
pub open spec fn filters_of(all: Seq<Seq<char>>, schema: Seq<Seq<char>>) -> Seq<
    (Seq<char>, Seq<char>),
>
    decreases all.len(),
{
    if all.len() == 0 {
        Seq::empty()
    } else {
        let before = filters_of(all.drop_last(), schema);
        if is_filter(all.last(), schema) {
            before.push(halves(all.last(), ':'))
        } else {
            before
        }
    }
}

/// The words that are no filters, in the order they were typed.
pub open spec fn plain_of(all: Seq<Seq<char>>, schema: Seq<Seq<char>>) -> Seq<Seq<char>>
    decreases all.len(),
{
    if all.len() == 0 {
        Seq::empty()
    } else {
        let before = plain_of(all.drop_last(), schema);
        if is_filter(all.last(), schema) {
            before
        } else {
            before.push(all.last())
        }
    }
}

/// What a query asks for.
pub struct QueryView {
    pub fields: Seq<(Seq<char>, Seq<char>)>,
    pub words: Seq<Seq<char>>,
}

impl QueryView {
    /// What a typed text asks of a table that knows these keys.
    pub open spec fn of(text: Seq<char>, schema: Seq<Seq<char>>) -> Self {
        QueryView {
            fields: filters_of(words_of(text), schema),
            words: plain_of(words_of(text), schema),
        }
    }
}

/// Pairs of strings, as the characters they spell.
pub open spec fn pairs(v: Seq<(String, String)>) -> Seq<(Seq<char>, Seq<char>)> {
    v.map_values(|p: (String, String)| (p.0@, p.1@))
}

/// A search box's text, taken apart: the filters for the keys the table
/// knows, and everything else as words.
#[derive(Clone, Debug)]
pub struct Query {
    pub fields: Vec<(String, String)>,
    pub words: Vec<String>,
}

impl View for Query {
    type V = QueryView;

    open spec fn view(&self) -> QueryView {
        QueryView { fields: pairs(self.fields@), words: texts(self.words@) }
    }
}

/// The keys a table knows, as the characters they spell.
pub open spec fn keys_of(schema: Seq<&'static str>) -> Seq<Seq<char>> {
    schema.map_values(|s: &'static str| s@)
}

fn knows(schema: &Vec<&'static str>, key: &str) -> (r: bool)
    ensures
        r == keys_of(schema@).contains(key@),
{
    let mut i: usize = 0;
    while i < schema.len()
        invariant
            i <= schema@.len(),
            forall|k: int| 0 <= k < i ==> (#[trigger] schema@[k])@ != key@,
        decreases schema@.len() - i,
    {
        if equal(schema[i], key) {
            proof {
                assert(keys_of(schema@)[i as int] == key@);
            }
            return true;
        }
        i = i + 1;
    }
    proof {
        assert forall|k: int| 0 <= k < keys_of(schema@).len() implies keys_of(schema@)[k]
            != key@ by {
            assert(schema@[k]@ != key@);
        }
    }
    false
}

impl Query {
    #[must_use]
    pub fn parse(text: &str, schema: &Vec<&'static str>) -> (r: Self)
        ensures
            r@ == QueryView::of(text@, keys_of(schema@)),
    {
        let typed = words(text);
        let ghost keys = keys_of(schema@);
        let mut fields: Vec<(String, String)> = Vec::new();
        let mut plain: Vec<String> = Vec::new();
        let mut i: usize = 0;
        proof {
            assert(pairs(fields@) =~= filters_of(texts(typed@).take(0), keys));
            assert(texts(plain@) =~= plain_of(texts(typed@).take(0), keys));
        }
        while i < typed.len()
            invariant
                i <= typed@.len(),
                keys == keys_of(schema@),
                pairs(fields@) == filters_of(texts(typed@).take(i as int), keys),
                texts(plain@) == plain_of(texts(typed@).take(i as int), keys),
            decreases typed@.len() - i,
        {
            let ghost before_fields = pairs(fields@);
            let ghost before_plain = texts(plain@);
            let word = &typed[i];
            let chars = chars_of(word.as_str());
            let at: usize = find_char(&chars, ':');
            proof {
                assert(texts(typed@).take(i + 1).drop_last() =~= texts(typed@).take(i as int));
                assert(texts(typed@).take(i + 1).last() == word@);
            }
            let mut taken = false;
            if at < chars.len() && at + 1 < chars.len() {
                let key = slice_text(&chars, 0, at);
                proof {
                    assert(chars@.subrange(0, at as int) =~= chars@.take(at as int));
                }
                if knows(schema, key.as_str()) {
                    let value = slice_text(&chars, at + 1, chars.len());
                    let ghost pair = (key@, value@);
                    proof {
                        assert(chars@.subrange(at + 1, chars@.len() as int) =~= chars@.skip(at + 1));
                    }
                    fields.push((key, value));
                    taken = true;
                    proof {
                        assert(pairs(fields@) =~= before_fields.push(pair));
                    }
                }
            }
            if !taken {
                plain.push(word.clone());
                proof {
                    assert(texts(plain@) =~= before_plain.push(word@));
                }
            }
            i = i + 1;
        }
        proof {
            assert(texts(typed@).take(typed@.len() as int) =~= texts(typed@));
        }
        Query { fields, words: plain }
    }
}

/// Whether `value` stands in `held`, without regard to case.
pub open spec fn mentions(held: Seq<char>, value: Seq<char>) -> bool {
    within(lower(held), lower(value))
}

/// Whether `value` stands in `held`, without regard to case.
#[must_use]
pub fn contains(held: &str, value: &str) -> (r: bool)
    ensures
        r == mentions(held@, value@),
{
    let long = to_lower(held);
    let short = to_lower(value);
    holds(long.as_str(), short.as_str())
}

/// Whether every word stands somewhere in `held`.
pub open spec fn mentions_all(held: Seq<char>, all: Seq<Seq<char>>) -> bool {
    forall|i: int| 0 <= i < all.len() ==> mentions(held, #[trigger] all[i])
}

/// Whether every word typed stands somewhere in a row's text.
#[must_use]
pub fn all_words_in(held: &str, all: &Vec<String>) -> (r: bool)
    ensures
        r == mentions_all(held@, texts(all@)),
{
    let mut i: usize = 0;
    while i < all.len()
        invariant
            i <= all@.len(),
            forall|k: int| 0 <= k < i ==> mentions(held@, #[trigger] texts(all@)[k]),
        decreases all@.len() - i,
    {
        if !contains(held, all[i].as_str()) {
            proof {
                assert(!mentions(held@, texts(all@)[i as int]));
            }
            return false;
        }
        i = i + 1;
    }
    true
}

/// A yes, a no, or neither.
pub open spec fn boolean_of(value: Seq<char>) -> Option<bool> {
    let said = lower(value);
    if said == "y"@ || said == "yes"@ || said == "true"@ {
        Some(true)
    } else if said == "n"@ || said == "no"@ || said == "false"@ {
        Some(false)
    } else {
        None
    }
}

#[must_use]
pub fn boolean(value: &str) -> (r: Option<bool>)
    ensures
        r == boolean_of(value@),
{
    let said = to_lower(value);
    let said = said.as_str();
    if equal(said, "y") || equal(said, "yes") || equal(said, "true") {
        Some(true)
    } else if equal(said, "n") || equal(said, "no") || equal(said, "false") {
        Some(false)
    } else {
        None
    }
}

/// Whether one of the tags, written `key=value`, holds what was typed.
pub open spec fn tagged(tags: Seq<(Seq<char>, Seq<char>)>, value: Seq<char>) -> bool {
    exists|i: int|
        0 <= i < tags.len() && mentions((#[trigger] tags[i]).0 + "="@ + tags[i].1, value)
}

#[must_use]
pub fn tag_matches(tags: &Vec<(String, String)>, value: &str) -> (r: bool)
    ensures
        r == tagged(pairs(tags@), value@),
{
    let mut i: usize = 0;
    while i < tags.len()
        invariant
            i <= tags@.len(),
            forall|k: int|
                0 <= k < i ==> !mentions(
                    (#[trigger] pairs(tags@)[k]).0 + "="@ + pairs(tags@)[k].1,
                    value@,
                ),
        decreases tags@.len() - i,
    {
        let mut said = tags[i].0.clone();
        said.push_str("=");
        said.push_str(tags[i].1.as_str());
        proof {
            assert(said@ == pairs(tags@)[i as int].0 + "="@ + pairs(tags@)[i as int].1);
        }
        if contains(said.as_str(), value) {
            return true;
        }
        i = i + 1;
    }
    false
}

// ---------------------------------------------------------------------------
// Environments
// ---------------------------------------------------------------------------

/// The environment a vault or a registry is named after.
#[derive(Clone, Copy, Debug, PartialEq, Eq, Structural)]
pub enum Env {
    Dev,
    Qa,
    Prod,
}

impl Env {
    pub open spec fn spelling(self) -> Seq<char> {
        match self {
            Env::Dev => "dev"@,
            Env::Qa => "qa"@,
            Env::Prod => "prod"@,
        }
    }

    /// The environment a name holds, the first of them where it holds several.
    pub open spec fn named_in(name: Seq<char>) -> Option<Env> {
        if mentions(name, "dev"@) {
            Some(Env::Dev)
        } else if mentions(name, "qa"@) {
            Some(Env::Qa)
        } else if mentions(name, "prod"@) {
            Some(Env::Prod)
        } else {
            None
        }
    }

    /// Development comes before test, and test before production.
    pub open spec fn place(self) -> int {
        match self {
            Env::Dev => 0,
            Env::Qa => 1,
            Env::Prod => 2,
        }
    }

    #[must_use]
    pub fn label(self) -> (r: &'static str)
        ensures
            r@ == self.spelling(),
    {
        match self {
            Env::Dev => "dev",
            Env::Qa => "qa",
            Env::Prod => "prod",
        }
    }

    #[must_use]
    pub fn of(name: &str) -> (r: Option<Env>)
        ensures
            r == Env::named_in(name@),
    {
        if contains(name, "dev") {
            Some(Env::Dev)
        } else if contains(name, "qa") {
            Some(Env::Qa)
        } else if contains(name, "prod") {
            Some(Env::Prod)
        } else {
            None
        }
    }
}

/// How many lines the environment menu has: every one, and each of the three.
pub const ENV_COUNT: usize = 4;

/// What a line of the environment menu stands for.
pub open spec fn env_line(at: int) -> Option<Env> {
    if at == 1 {
        Some(Env::Dev)
    } else if at == 2 {
        Some(Env::Qa)
    } else if at == 3 {
        Some(Env::Prod)
    } else {
        None
    }
}

#[must_use]
pub fn env_choice(at: usize) -> (r: Option<Env>)
    ensures
        r == env_line(at as int),
{
    match at {
        1 => Some(Env::Dev),
        2 => Some(Env::Qa),
        3 => Some(Env::Prod),
        _ => None,
    }
}

/// Which line of the menu an environment is on.
pub open spec fn line_of(env: Option<Env>) -> int {
    match env {
        None => 0,
        Some(env) => env.place() + 1,
    }
}

#[must_use]
pub fn env_position(env: Option<Env>) -> (r: usize)
    ensures
        r == line_of(env),
        r < ENV_COUNT,
{
    match env {
        None => 0,
        Some(Env::Dev) => 1,
        Some(Env::Qa) => 2,
        Some(Env::Prod) => 3,
    }
}

/// The menu's lines and the environments stand for one another.
pub proof fn law_every_environment_has_its_line(env: Option<Env>)
    ensures
        env_line(line_of(env)) == env,
        0 <= line_of(env) < ENV_COUNT,
{
}

/// Whether a word filters by environment.
pub open spec fn is_env(word: Seq<char>) -> bool {
    begins(word, "env:"@)
}

/// The environment the words filter by: the last one that names one.
pub open spec fn env_among(all: Seq<Seq<char>>) -> Option<Env>
    decreases all.len(),
{
    if all.len() == 0 {
        None
    } else {
        let word = all.last();
        match Env::named_in(word.skip(4)) {
            Some(env) if is_env(word) => Some(env),
            _ => env_among(all.drop_last()),
        }
    }
}

/// The environment a typed query filters by.
#[must_use]
pub fn env_of_query(text: &str) -> (r: Option<Env>)
    ensures
        r == env_among(words_of(text@)),
{
    let all = words(text);
    let mut i: usize = all.len();
    proof {
        assert(texts(all@).take(all@.len() as int) =~= texts(all@));
    }
    while i > 0
        invariant
            i <= all@.len(),
            env_among(texts(all@)) == env_among(texts(all@).take(i as int)),
            texts(all@) == words_of(text@),
        decreases i,
    {
        let word = &all[i - 1];
        proof {
            assert(texts(all@).take(i as int).last() == word@);
            assert(texts(all@).take(i as int).drop_last() =~= texts(all@).take(i - 1));
        }
        if starts_with(word.as_str(), "env:") {
            let chars = chars_of(word.as_str());
            proof {
                reveal_strlit("env:");
            }
            let value = slice_text(&chars, 4, chars.len());
            proof {
                assert(value@ =~= word@.skip(4));
            }
            if let Some(env) = Env::of(value.as_str()) {
                return Some(env);
            }
        }
        i = i - 1;
    }
    None
}

/// The words that do not filter by environment.
pub open spec fn without_env(all: Seq<Seq<char>>) -> Seq<Seq<char>> {
    all.filter(|word: Seq<char>| !is_env(word))
}

/// The query with its environment filter replaced: the other words, one blank
/// apart, and then the filter.
pub open spec fn query_with_env(text: Seq<char>, env: Option<Env>) -> Seq<char> {
    let rest = without_env(words_of(text));
    match env {
        None => joined(rest, " "@),
        Some(env) => joined(rest.push("env:"@ + env.spelling()), " "@),
    }
}

/// A query filtered by one environment, or by none.
#[must_use]
pub fn with_env(text: &str, env: Option<Env>) -> (r: String)
    ensures
        r@ == query_with_env(text@, env),
{
    let all = words(text);
    let mut rest: Vec<String> = Vec::new();
    let mut i: usize = 0;
    let ghost keep = |word: Seq<char>| !is_env(word);
    proof {
        reveal(Seq::filter);
        assert(texts(rest@) =~= texts(all@).take(0).filter(keep));
    }
    while i < all.len()
        invariant
            i <= all@.len(),
            keep == (|word: Seq<char>| !is_env(word)),
            texts(rest@) == texts(all@).take(i as int).filter(keep),
        decreases all@.len() - i,
    {
        let ghost before = texts(rest@);
        proof {
            reveal(Seq::filter);
            assert(texts(all@).take(i + 1).drop_last() =~= texts(all@).take(i as int));
            assert(texts(all@).take(i + 1).last() == all@[i as int]@);
        }
        if !starts_with(all[i].as_str(), "env:") {
            rest.push(all[i].clone());
            proof {
                assert(texts(rest@) =~= before.push(all@[i as int]@));
            }
        }
        i = i + 1;
    }
    proof {
        assert(texts(all@).take(all@.len() as int) =~= texts(all@));
        assert(texts(rest@) == without_env(words_of(text@)));
    }
    if let Some(env) = env {
        let ghost before = texts(rest@);
        let mut last = "env:".to_owned();
        last.push_str(env.label());
        let ghost said = last@;
        rest.push(last);
        proof {
            assert(texts(rest@) =~= before.push(said));
        }
    }
    join(&rest, " ")
}

// ---------------------------------------------------------------------------
// Spans of time
// ---------------------------------------------------------------------------

/// A bound on how far off a moment is: `<30d` or `>12h`.
#[derive(Clone, Copy, Debug, PartialEq, Eq, Structural)]
pub struct When {
    /// Nearer than the span, rather than further off.
    pub nearer: bool,
    pub seconds: u64,
}

pub open spec fn unit_seconds(c: char) -> Option<int> {
    if c == 'm' {
        Some(60)
    } else if c == 'h' {
        Some(3_600)
    } else if c == 'd' {
        Some(86_400)
    } else if c == 'w' {
        Some(604_800)
    } else {
        None
    }
}

impl When {
    /// What a bound asks: a sign, a whole number and a unit.
    pub open spec fn of(value: Seq<char>) -> Option<When> {
        if value.len() < 3 || (value[0] != '<' && value[0] != '>') {
            None
        } else {
            match (whole(value.subrange(1, value.len() - 1)), unit_seconds(value.last())) {
                (Some(n), Some(unit)) if n * unit <= u64::MAX => Some(
                    When { nearer: value[0] == '<', seconds: (n * unit) as u64 },
                ),
                _ => None,
            }
        }
    }

    #[must_use]
    pub fn parse(value: &str) -> (r: Option<When>)
        ensures
            r == When::of(value@),
    {
        let chars = chars_of(value);
        if chars.len() < 3 || (chars[0] != '<' && chars[0] != '>') {
            return None;
        }
        let middle = slice_text(&chars, 1, chars.len() - 1);
        let last = chars[chars.len() - 1];
        let unit: u64 = if last == 'm' {
            60
        } else if last == 'h' {
            3_600
        } else if last == 'd' {
            86_400
        } else if last == 'w' {
            604_800
        } else {
            return None;
        };
        match parse_whole(middle.as_str()) {
            None => {
                proof {
                    let w = whole(middle@);
                    if w is Some {
                        let n = w->0;
                        assert(n > u64::MAX);
                        assert(n * unit > u64::MAX) by (nonlinear_arith)
                            requires
                                n > u64::MAX,
                                unit >= 1,
                        ;
                    }
                }
                None
            },
            Some(n) => match n.checked_mul(unit) {
                None => None,
                Some(seconds) => Some(When { nearer: chars[0] == '<', seconds }),
            },
        }
    }

    /// Whether a moment still to come is within the bound. One that is not
    /// set is within none.
    pub open spec fn reached(self, stamp: Option<Timestamp>, now: Timestamp) -> bool {
        match stamp {
            None => false,
            Some(stamp) => if self.nearer {
                seconds_between(now, stamp) < self.seconds
            } else {
                seconds_between(now, stamp) > self.seconds
            },
        }
    }

    /// Whether a moment already past is within the bound.
    pub open spec fn aged(self, stamp: Option<Timestamp>, now: Timestamp) -> bool {
        match stamp {
            None => false,
            Some(stamp) => if self.nearer {
                seconds_between(stamp, now) < self.seconds
            } else {
                seconds_between(stamp, now) > self.seconds
            },
        }
    }

    #[must_use]
    pub fn holds(self, stamp: Option<Timestamp>, now: Timestamp) -> (r: bool)
        ensures
            r == self.reached(stamp, now),
    {
        match stamp {
            None => false,
            Some(stamp) => self.allows(now.seconds_until(stamp)),
        }
    }

    #[must_use]
    pub fn holds_age(self, stamp: Option<Timestamp>, now: Timestamp) -> (r: bool)
        ensures
            r == self.aged(stamp, now),
    {
        match stamp {
            None => false,
            Some(stamp) => self.allows(stamp.seconds_until(now)),
        }
    }

    fn allows(self, off: i64) -> (r: bool)
        ensures
            r == if self.nearer {
                off < self.seconds
            } else {
                off > self.seconds
            },
    {
        if off < 0 {
            self.nearer
        } else if self.nearer {
            (off as u64) < self.seconds
        } else {
            (off as u64) > self.seconds
        }
    }
}

} // verus!
