//! Text as a sequence of characters: the handful of string operations the
//! library needs, each stated over the characters of its arguments.

use vstd::prelude::*;
use vstd::string::*;

verus! {

/// `String::push` adds one character at the end.
pub assume_specification[ String::push ](s: &mut String, c: char)
    ensures
        final(s)@ == old(s)@.push(c),
;

/// `String::push_str` adds the characters of `other` at the end.
pub assume_specification[ String::push_str ](s: &mut String, other: &str)
    ensures
        final(s)@ == old(s)@ + other@,
;

/// A 64-bit number as a mathematical one.
pub open spec fn int_of(n: u64) -> int {
    n as int
}

/// A place in a list as a mathematical number.
pub open spec fn usize_of(n: usize) -> int {
    n as int
}

/// A 32-bit number as a mathematical one.
pub open spec fn small_of(n: u32) -> int {
    n as int
}

/// An optional 64-bit number as a mathematical one.
pub open spec fn known_of(n: Option<u64>) -> Option<int> {
    match n {
        Some(n) => Some(n as int),
        None => None,
    }
}

/// How many places a list has.
pub open spec fn length_of(list: Seq<usize>) -> int {
    list.len() as int
}

/// A mathematical number as a place in a list.
pub open spec fn place(n: int) -> usize {
    n as usize
}

// ---------------------------------------------------------------------------
// Characters
// ---------------------------------------------------------------------------

/// The characters with the Unicode `White_Space` property.
pub open spec fn white(c: char) -> bool {
    let n = c as u32;
    ||| 0x9 <= n <= 0xd
    ||| n == 0x20
    ||| n == 0x85
    ||| n == 0xa0
    ||| n == 0x1680
    ||| 0x2000 <= n <= 0x200a
    ||| n == 0x2028
    ||| n == 0x2029
    ||| n == 0x202f
    ||| n == 0x205f
    ||| n == 0x3000
}

pub fn is_white(c: char) -> (r: bool)
    ensures
        r == white(c),
{
    let n: u32 = c as u32;
    (0x9 <= n && n <= 0xd) || n == 0x20 || n == 0x85 || n == 0xa0 || n == 0x1680 || (0x2000 <= n && n
        <= 0x200a) || n == 0x2028 || n == 0x2029 || n == 0x202f || n == 0x205f || n == 0x3000
}

/// The character with `A` to `Z` made small, and every other one as it is.
pub open spec fn lower_char(c: char) -> char {
    if 'A' <= c <= 'Z' {
        ((c as u32 + 32) as u32) as char
    } else {
        c
    }
}

pub fn to_lower_char(c: char) -> (r: char)
    ensures
        r == lower_char(c),
{
    if 'A' <= c && c <= 'Z' {
        let n: u8 = c as u8 + 32;
        n as char
    } else {
        c
    }
}

/// Every character with `A` to `Z` made small.
pub open spec fn lower(s: Seq<char>) -> Seq<char> {
    s.map_values(|c: char| lower_char(c))
}

/// Equal without regard to the case of `A` to `Z`.
pub open spec fn same(a: Seq<char>, b: Seq<char>) -> bool {
    lower(a) == lower(b)
}

// ---------------------------------------------------------------------------
// Whole strings
// ---------------------------------------------------------------------------

/// The characters of a string, one by one.
pub fn chars_of(s: &str) -> (r: Vec<char>)
    ensures
        r@ == s@,
{
    let mut out: Vec<char> = Vec::new();
    for c in iter: s.chars()
        invariant
            out@ == s@.take(iter.index() as int),
            iter.seq() == s@,
    {
        out.push(c);
        proof {
            assert(s@.take(iter.index() + 1) =~= s@.take(iter.index() as int).push(c));
        }
    }
    proof {
        assert(s@.take(s@.len() as int) =~= s@);
    }
    out
}

/// The string that `chars[from..to]` spells.
pub fn slice_text(chars: &Vec<char>, from: usize, to: usize) -> (r: String)
    requires
        from <= to <= chars@.len(),
    ensures
        r@ == chars@.subrange(from as int, to as int),
{
    let mut out = String::new();
    let mut i: usize = from;
    while i < to
        invariant
            from <= i <= to <= chars@.len(),
            out@ == chars@.subrange(from as int, i as int),
        decreases to - i,
    {
        out.push(chars[i]);
        proof {
            assert(chars@.subrange(from as int, i + 1) =~= chars@.subrange(
                from as int,
                i as int,
            ).push(chars@[i as int]));
        }
        i = i + 1;
    }
    out
}

/// The string that the characters spell.
pub fn text_of(chars: &Vec<char>) -> (r: String)
    ensures
        r@ == chars@,
{
    let r = slice_text(chars, 0, chars.len());
    proof {
        assert(chars@.subrange(0, chars@.len() as int) =~= chars@);
    }
    r
}

/// What a list of strings spells, entry by entry.
pub open spec fn texts(v: Seq<String>) -> Seq<Seq<char>> {
    v.map_values(|s: String| s@)
}

/// Whether two lists of characters are the same.
pub fn same_chars(a: &Vec<char>, b: &Vec<char>) -> (r: bool)
    ensures
        r == (a@ == b@),
{
    if a.len() != b.len() {
        return false;
    }
    let mut i: usize = 0;
    while i < a.len()
        invariant
            i <= a@.len(),
            a@.len() == b@.len(),
            forall|k: int| 0 <= k < i ==> a@[k] == b@[k],
        decreases a@.len() - i,
    {
        if a[i] != b[i] {
            return false;
        }
        i = i + 1;
    }
    proof {
        assert(a@ =~= b@);
    }
    true
}

/// Whether two strings hold the same characters.
pub fn equal(a: &str, b: &str) -> (r: bool)
    ensures
        r == (a@ == b@),
{
    let left = chars_of(a);
    let right = chars_of(b);
    same_chars(&left, &right)
}

/// A string with `A` to `Z` made small.
pub fn to_lower(s: &str) -> (r: String)
    ensures
        r@ == lower(s@),
{
    let chars = chars_of(s);
    let mut out = String::new();
    let mut i: usize = 0;
    while i < chars.len()
        invariant
            i <= chars@.len(),
            chars@ == s@,
            out@ == lower(s@.take(i as int)),
        decreases chars@.len() - i,
    {
        out.push(to_lower_char(chars[i]));
        proof {
            assert(lower(s@.take(i + 1)) =~= lower(s@.take(i as int)).push(lower_char(s@[i as int])));
        }
        i = i + 1;
    }
    proof {
        assert(s@.take(s@.len() as int) =~= s@);
    }
    out
}

/// Whether two strings are equal without regard to the case of `A` to `Z`.
pub fn equal_ignoring_case(a: &str, b: &str) -> (r: bool)
    ensures
        r == same(a@, b@),
{
    let left = to_lower(a);
    let right = to_lower(b);
    equal(left.as_str(), right.as_str())
}

// ---------------------------------------------------------------------------
// Blanks at the ends
// ---------------------------------------------------------------------------

pub open spec fn trim_start(s: Seq<char>) -> Seq<char>
    decreases s.len(),
{
    if s.len() > 0 && white(s[0]) {
        trim_start(s.skip(1))
    } else {
        s
    }
}

pub open spec fn trim_end(s: Seq<char>) -> Seq<char>
    decreases s.len(),
{
    if s.len() > 0 && white(s.last()) {
        trim_end(s.drop_last())
    } else {
        s
    }
}

/// What is left once the white space at both ends is gone.
pub open spec fn trimmed(s: Seq<char>) -> Seq<char> {
    trim_end(trim_start(s))
}

/// The string without the white space at either end.
pub fn trim(s: &str) -> (r: String)
    ensures
        r@ == trimmed(s@),
{
    let chars = chars_of(s);
    let mut from: usize = 0;
    proof {
        assert(chars@.skip(0) =~= chars@);
    }
    while from < chars.len() && is_white(chars[from])
        invariant
            from <= chars@.len(),
            trim_start(chars@) == trim_start(chars@.skip(from as int)),
        decreases chars@.len() - from,
    {
        proof {
            assert(chars@.skip(from as int).skip(1) =~= chars@.skip(from + 1));
        }
        from = from + 1;
    }
    proof {
        assert(trim_start(chars@) == chars@.skip(from as int));
    }
    let mut to: usize = chars.len();
    let ghost body = chars@.skip(from as int);
    proof {
        assert(body =~= chars@.subrange(from as int, to as int));
    }
    while from < to && is_white(chars[to - 1])
        invariant
            from <= to <= chars@.len(),
            trim_end(body) == trim_end(chars@.subrange(from as int, to as int)),
        decreases to - from,
    {
        proof {
            assert(chars@.subrange(from as int, to as int).drop_last() =~= chars@.subrange(
                from as int,
                to - 1,
            ));
        }
        to = to - 1;
    }
    slice_text(&chars, from, to)
}

/// Whether nothing but white space is in the string.
pub open spec fn blank(s: Seq<char>) -> bool {
    trimmed(s).len() == 0
}

pub fn is_blank(s: &str) -> (r: bool)
    ensures
        r == blank(s@),
{
    trim(s).as_str().is_empty()
}

/// A string with every `c` at its end taken off.
pub open spec fn without_trailing(s: Seq<char>, c: char) -> Seq<char>
    decreases s.len(),
{
    if s.len() > 0 && s.last() == c {
        without_trailing(s.drop_last(), c)
    } else {
        s
    }
}

pub fn trim_trailing(s: &str, c: char) -> (r: String)
    ensures
        r@ == without_trailing(s@, c),
{
    let chars = chars_of(s);
    let mut to: usize = chars.len();
    proof {
        assert(chars@.take(to as int) =~= chars@);
    }
    while 0 < to && chars[to - 1] == c
        invariant
            to <= chars@.len(),
            without_trailing(chars@, c) == without_trailing(chars@.take(to as int), c),
        decreases to,
    {
        proof {
            assert(chars@.take(to as int).drop_last() =~= chars@.take(to - 1));
        }
        to = to - 1;
    }
    proof {
        assert(chars@.take(to as int) =~= chars@.subrange(0, to as int));
    }
    slice_text(&chars, 0, to)
}

// ---------------------------------------------------------------------------
// Parts
// ---------------------------------------------------------------------------

/// The parts between one `c` and the next: always at least one.
pub open spec fn parts(s: Seq<char>, c: char) -> Seq<Seq<char>>
    decreases s.len(),
{
    if s.len() == 0 {
        seq![Seq::empty()]
    } else {
        let before = parts(s.drop_last(), c);
        if s.last() == c {
            before.push(Seq::empty())
        } else {
            before.drop_last().push(before.last().push(s.last()))
        }
    }
}

pub proof fn lemma_parts_not_empty(s: Seq<char>, c: char)
    ensures
        parts(s, c).len() > 0,
    decreases s.len(),
{
    if s.len() > 0 {
        lemma_parts_not_empty(s.drop_last(), c);
    }
}

/// The parts of a string between one `c` and the next.
pub fn split(s: &str, c: char) -> (r: Vec<String>)
    ensures
        texts(r@) == parts(s@, c),
        r@.len() > 0,
{
    let chars = chars_of(s);
    let mut done: Vec<String> = Vec::new();
    let mut open = String::new();
    let mut i: usize = 0;
    proof {
        assert(texts(done@).push(open@) =~= parts(chars@.take(0), c));
    }
    while i < chars.len()
        invariant
            i <= chars@.len(),
            texts(done@).push(open@) == parts(chars@.take(i as int), c),
        decreases chars@.len() - i,
    {
        let ghost before = texts(done@);
        let ghost was = open@;
        proof {
            assert(chars@.take(i + 1).drop_last() =~= chars@.take(i as int));
            assert(before.push(was).drop_last() =~= before);
        }
        if chars[i] == c {
            done.push(open);
            proof {
                assert(texts(done@) =~= before.push(was));
            }
            open = String::new();
        } else {
            open.push(chars[i]);
        }
        i = i + 1;
    }
    proof {
        assert(chars@.take(chars@.len() as int) =~= chars@);
    }
    let ghost before = texts(done@);
    let ghost was = open@;
    done.push(open);
    proof {
        assert(texts(done@) =~= before.push(was));
    }
    done
}

/// What follows the last `c`, or all of it where there is none.
pub open spec fn after_last(s: Seq<char>, c: char) -> Seq<char>
    decreases s.len(),
{
    if s.len() == 0 || s.last() == c {
        Seq::empty()
    } else {
        after_last(s.drop_last(), c).push(s.last())
    }
}

pub fn last_part(s: &str, c: char) -> (r: String)
    ensures
        r@ == after_last(s@, c),
{
    let chars = chars_of(s);
    let mut from: usize = chars.len();
    while 0 < from && chars[from - 1] != c
        invariant
            from <= chars@.len(),
            forall|k: int| from <= k < chars@.len() ==> chars@[k] != c,
        decreases from,
    {
        from = from - 1;
    }
    proof {
        lemma_after_last(chars@, c, from as int);
    }
    slice_text(&chars, from, chars.len())
}

proof fn lemma_after_last(s: Seq<char>, c: char, from: int)
    requires
        0 <= from <= s.len(),
        forall|k: int| from <= k < s.len() ==> s[k] != c,
        from == 0 || s[from - 1] == c,
    ensures
        after_last(s, c) == s.subrange(from, s.len() as int),
    decreases s.len(),
{
    if s.len() == from {
        assert(s.subrange(from, s.len() as int) =~= Seq::empty());
    } else {
        lemma_after_last(s.drop_last(), c, from);
        assert(s.drop_last().subrange(from, s.len() - 1).push(s.last()) =~= s.subrange(
            from,
            s.len() as int,
        ));
    }
}

/// A line without the carriage return that ended it.
pub open spec fn without_return(s: Seq<char>) -> Seq<char> {
    if s.len() > 0 && s.last() == '\r' {
        s.drop_last()
    } else {
        s
    }
}

/// The lines of a text. A line ends in a newline, or in a carriage return and
/// a newline; what follows the last newline is a line only if there is any of
/// it.
pub open spec fn lines_of(s: Seq<char>) -> Seq<Seq<char>> {
    let all = parts(s, '\n');
    let ended = all.drop_last().map_values(|line: Seq<char>| without_return(line));
    if all.last().len() == 0 {
        ended
    } else {
        ended.push(all.last())
    }
}

pub fn lines(s: &str) -> (r: Vec<String>)
    ensures
        texts(r@) == lines_of(s@),
{
    let mut all = split(s, '\n');
    let ghost whole = all@;
    let last = all.pop().unwrap();
    let mut out: Vec<String> = Vec::new();
    let mut i: usize = 0;
    while i < all.len()
        invariant
            i <= all@.len(),
            whole.len() > 0,
            all@ == whole.drop_last(),
            out@.len() == i,
            forall|k: int| 0 <= k < i ==> (#[trigger] out@[k])@ == without_return(whole[k]@),
        decreases all@.len() - i,
    {
        let chars = chars_of(all[i].as_str());
        if chars.len() > 0 && chars[chars.len() - 1] == '\r' {
            proof {
                assert(chars@.drop_last() =~= chars@.subrange(0, chars@.len() - 1));
            }
            out.push(slice_text(&chars, 0, chars.len() - 1));
        } else {
            out.push(text_of(&chars));
        }
        i = i + 1;
    }
    proof {
        assert(texts(out@) =~= parts(s@, '\n').drop_last().map_values(
            |line: Seq<char>| without_return(line),
        ));
        assert(last@ == parts(s@, '\n').last());
    }
    if !last.as_str().is_empty() {
        let ghost before = texts(out@);
        out.push(last);
        proof {
            assert(texts(out@) =~= before.push(last@));
        }
    }
    out
}

/// The parts with `separator` between each and the next.
pub open spec fn joined(all: Seq<Seq<char>>, separator: Seq<char>) -> Seq<char>
    decreases all.len(),
{
    if all.len() == 0 {
        Seq::empty()
    } else if all.len() == 1 {
        all[0]
    } else {
        joined(all.drop_last(), separator) + separator + all.last()
    }
}

pub fn join(all: &Vec<String>, separator: &str) -> (r: String)
    ensures
        r@ == joined(texts(all@), separator@),
{
    let mut out = String::new();
    let mut i: usize = 0;
    while i < all.len()
        invariant
            i <= all@.len(),
            out@ == joined(texts(all@).take(i as int), separator@),
        decreases all@.len() - i,
    {
        proof {
            assert(texts(all@).take(i + 1).drop_last() =~= texts(all@).take(i as int));
        }
        if i > 0 {
            out.push_str(separator);
        }
        let ghost before = out@;
        out.push_str(all[i].as_str());
        proof {
            if i == 0 {
                assert(before + all@[0]@ =~= all@[0]@);
            }
        }
        i = i + 1;
    }
    proof {
        assert(texts(all@).take(all@.len() as int) =~= texts(all@));
    }
    out
}

/// Whether `needle` stands at place `at` of `held`.
pub open spec fn stands_at(held: Seq<char>, needle: Seq<char>, at: int) -> bool {
    0 <= at && at + needle.len() <= held.len() && held.subrange(at, at + needle.len()) == needle
}

/// Whether `needle` stands anywhere in `held`.
pub open spec fn within(held: Seq<char>, needle: Seq<char>) -> bool {
    exists|at: int| stands_at(held, needle, at)
}

fn is_at(held: &Vec<char>, needle: &Vec<char>, at: usize) -> (r: bool)
    requires
        at + needle@.len() <= held@.len(),
    ensures
        r == stands_at(held@, needle@, at as int),
{
    let total: usize = held.len();
    let mut i: usize = 0;
    while i < needle.len()
        invariant
            i <= needle@.len(),
            at + needle@.len() <= held@.len(),
            held@.len() == total,
            forall|k: int| 0 <= k < i ==> held@[at + k] == needle@[k],
        decreases needle@.len() - i,
    {
        if held[at + i] != needle[i] {
            proof {
                assert(held@.subrange(at as int, at + needle@.len())[i as int] != needle@[i as int]);
            }
            return false;
        }
        i = i + 1;
    }
    proof {
        assert(held@.subrange(at as int, at + needle@.len()) =~= needle@);
    }
    true
}

/// Whether `needle` stands anywhere in `held`, character for character.
pub fn holds(held: &str, needle: &str) -> (r: bool)
    ensures
        r == within(held@, needle@),
{
    let long = chars_of(held);
    let short = chars_of(needle);
    if short.len() > long.len() {
        return false;
    }
    let last: usize = long.len() - short.len();
    let mut at: usize = 0;
    loop
        invariant
            at <= last,
            last + short@.len() == long@.len(),
            long@ == held@,
            short@ == needle@,
            forall|k: int| 0 <= k < at ==> !stands_at(held@, needle@, k),
        decreases last - at,
    {
        if is_at(&long, &short, at) {
            return true;
        }
        if at == last {
            proof {
                assert forall|k: int| !stands_at(held@, needle@, k) by {
                    if 0 <= k && k + needle@.len() <= held@.len() {
                        assert(k <= last);
                    }
                }
            }
            return false;
        }
        at = at + 1;
    }
}

/// Whether `s` begins with `head`.
pub open spec fn begins(s: Seq<char>, head: Seq<char>) -> bool {
    stands_at(s, head, 0)
}

/// Whether `s` ends with `tail`.
pub open spec fn ends(s: Seq<char>, tail: Seq<char>) -> bool {
    stands_at(s, tail, s.len() - tail.len())
}

pub fn starts_with(s: &str, head: &str) -> (r: bool)
    ensures
        r == begins(s@, head@),
{
    let long = chars_of(s);
    let short = chars_of(head);
    short.len() <= long.len() && is_at(&long, &short, 0)
}

pub fn ends_with(s: &str, tail: &str) -> (r: bool)
    ensures
        r == ends(s@, tail@),
{
    let long = chars_of(s);
    let short = chars_of(tail);
    short.len() <= long.len() && is_at(&long, &short, long.len() - short.len())
}

// ---------------------------------------------------------------------------
// Numbers
// ---------------------------------------------------------------------------

pub open spec fn digit(n: nat) -> char
    recommends
        n < 10,
{
    ((48 + n) as u32) as char
}

/// A number in decimal digits, with no zero in front.
pub open spec fn decimal(n: nat) -> Seq<char>
    decreases n,
{
    if n < 10 {
        seq![digit(n)]
    } else {
        decimal(n / 10).push(digit(n % 10))
    }
}

/// The number in decimal digits.
pub fn number(n: u64) -> (r: String)
    ensures
        r@ == decimal(n as nat),
    decreases n,
{
    let mut out = if n < 10 {
        String::new()
    } else {
        number(n / 10)
    };
    let last: u8 = 48 + (n % 10) as u8;
    out.push(last as char);
    proof {
        if n < 10 {
            assert(out@ =~= decimal(n as nat));
        }
    }
    out
}

/// The number that a run of digits spells, `None` where a character is not a
/// digit.
pub open spec fn spelled(s: Seq<char>) -> Option<nat>
    decreases s.len(),
{
    if s.len() == 0 {
        Some(0)
    } else {
        match spelled(s.drop_last()) {
            Some(n) if '0' <= s.last() <= '9' => Some((10 * n + (s.last() as u32 - 48)) as nat),
            _ => None,
        }
    }
}

/// The whole number a text spells: at least one digit, with an optional `+`
/// in front.
pub open spec fn whole(s: Seq<char>) -> Option<nat> {
    let digits = if s.len() > 0 && s[0] == '+' {
        s.skip(1)
    } else {
        s
    };
    if digits.len() == 0 {
        None
    } else {
        spelled(digits)
    }
}

proof fn lemma_spelled_prefix(s: Seq<char>, i: int)
    requires
        0 <= i <= s.len(),
    ensures
        spelled(s.take(i)) is None ==> spelled(s) is None,
        spelled(s.take(i)) is Some && spelled(s) is Some ==> spelled(s.take(i))->0 <= spelled(s)->0,
    decreases s.len() - i,
{
    if i < s.len() {
        assert(s.take(i + 1).drop_last() =~= s.take(i));
        lemma_spelled_prefix(s, i + 1);
    } else {
        assert(s.take(i) =~= s);
    }
}

/// The whole number a text spells, where it fits in 64 bits.
pub fn parse_whole(s: &str) -> (r: Option<u64>)
    ensures
        r == match whole(s@) {
            Some(n) if n <= u64::MAX => Some(n as u64),
            _ => None::<u64>,
        },
{
    let chars = chars_of(s);
    let from: usize = if chars.len() > 0 && chars[0] == '+' {
        1
    } else {
        0
    };
    let ghost digits = chars@.skip(from as int);
    proof {
        assert(chars@.skip(0) =~= chars@);
        assert(digits == if s@.len() > 0 && s@[0] == '+' {
            s@.skip(1)
        } else {
            s@
        });
    }
    if from == chars.len() {
        return None;
    }
    let mut i: usize = from;
    let mut n: u64 = 0;
    while i < chars.len()
        invariant
            from <= i <= chars@.len(),
            digits == chars@.skip(from as int),
            digits.len() > 0,
            whole(s@) == spelled(digits),
            spelled(digits.take(i - from)) == Some(n as nat),
        decreases chars@.len() - i,
    {
        let c = chars[i];
        proof {
            assert(digits.take(i + 1 - from).drop_last() =~= digits.take(i - from));
            assert(digits.take(i + 1 - from).last() == c);
            lemma_spelled_prefix(digits, i + 1 - from);
        }
        if !('0' <= c && c <= '9') {
            return None;
        }
        let d: u64 = c as u64 - 48;
        if n > (u64::MAX - d) / 10 {
            proof {
                assert(10 * n + d > u64::MAX);
            }
            return None;
        }
        n = 10 * n + d;
        i = i + 1;
    }
    proof {
        assert(digits.take(digits.len() as int) =~= digits);
    }
    Some(n)
}

} // verus!
