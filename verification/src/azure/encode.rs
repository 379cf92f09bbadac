//! Texts as they stand in an address or a form.

use vstd::prelude::*;
use vstd::utf8::encode_utf8;

use crate::filter::pairs;
use crate::text::{chars_of, ends, lower, parts, split, texts, to_lower};

verus! {

/// The hexadecimal digit, `0` to `9` and `A` to `F`.
pub open spec fn hex(n: u8) -> char {
    if n < 10 {
        ((48 + n) as u8) as char
    } else {
        ((55 + n) as u8) as char
    }
}

/// The bytes that stand for themselves.
pub open spec fn unreserved(b: u8) -> bool {
    ||| 65 <= b <= 90
    ||| 97 <= b <= 122
    ||| 48 <= b <= 57
    ||| b == 45
    ||| b == 95
    ||| b == 46
    ||| b == 126
}

/// One byte: itself, a `+` for a space, or its number behind a `%`.
pub open spec fn byte_text(b: u8) -> Seq<char> {
    if unreserved(b) {
        seq![b as char]
    } else if b == 32 {
        seq!['+']
    } else {
        seq!['%', hex(b / 16), hex(b % 16)]
    }
}

pub open spec fn bytes_text(bytes: Seq<u8>) -> Seq<char>
    decreases bytes.len(),
{
    if bytes.len() == 0 {
        Seq::empty()
    } else {
        bytes_text(bytes.drop_last()) + byte_text(bytes.last())
    }
}

/// A text with everything outside the unreserved set escaped.
pub open spec fn escaped(raw: Seq<char>) -> Seq<char> {
    bytes_text(encode_utf8(raw))
}

fn push_byte(b: u8, out: &mut String)
    ensures
        final(out)@ == old(out)@ + byte_text(b),
{
    let ghost was = out@;
    if (65 <= b && b <= 90) || (97 <= b && b <= 122) || (48 <= b && b <= 57) || b == 45 || b == 95
        || b == 46 || b == 126 {
        out.push(b as char);
        proof {
            assert(out@ =~= was + seq![b as char]);
        }
    } else if b == 32 {
        out.push('+');
        proof {
            assert(out@ =~= was + seq!['+']);
        }
    } else {
        out.push('%');
        out.push(digit(b / 16));
        out.push(digit(b % 16));
        proof {
            assert(out@ =~= was + seq!['%', hex(b / 16), hex(b % 16)]);
        }
    }
}

fn digit(n: u8) -> (r: char)
    requires
        n < 16,
    ensures
        r == hex(n),
{
    if n < 10 {
        (48 + n) as char
    } else {
        (55 + n) as char
    }
}

/// One path or query segment, with everything outside the unreserved set
/// escaped. A repository name carries `/`, which has to survive as `%2F` in a
/// scope string and as itself in a path — so callers pick.
pub fn percent_encode(raw: &str, out: &mut String)
    ensures
        final(out)@ == old(out)@ + escaped(raw@),
{
    let bytes = raw.as_bytes();
    let ghost was = out@;
    let ghost all = bytes@;
    let mut i: usize = 0;
    proof {
        assert(all.take(0) =~= Seq::<u8>::empty());
        assert(out@ =~= was + bytes_text(all.take(0)));
    }
    while i < bytes.len()
        invariant
            i <= bytes@.len(),
            all == bytes@,
            out@ == was + bytes_text(all.take(i as int)),
        decreases bytes@.len() - i,
    {
        proof {
            assert(all.take(i + 1).drop_last() =~= all.take(i as int));
        }
        push_byte(bytes[i], out);
        i = i + 1;
        proof {
            assert(out@ =~= was + bytes_text(all.take(i as int)));
        }
    }
    proof {
        assert(all.take(all.len() as int) =~= all);
    }
}

/// One segment, escaped, on its own.
#[must_use]
pub fn segment(raw: &str) -> (r: String)
    ensures
        r@ == escaped(raw@),
{
    let mut encoded = String::new();
    percent_encode(raw, &mut encoded);
    proof {
        assert(encoded@ =~= escaped(raw@));
    }
    encoded
}

pub open spec fn pair_text(pair: (Seq<char>, Seq<char>)) -> Seq<char> {
    escaped(pair.0) + seq!['='] + escaped(pair.1)
}

/// The pairs of a form, escaped, with a `&` between each two.
pub open spec fn form_text(all: Seq<(Seq<char>, Seq<char>)>) -> Seq<char>
    decreases all.len(),
{
    if all.len() == 0 {
        Seq::empty()
    } else if all.len() == 1 {
        pair_text(all[0])
    } else {
        form_text(all.drop_last()) + seq!['&'] + pair_text(all.last())
    }
}

/// `application/x-www-form-urlencoded`, which is also a query string.
#[must_use]
pub fn form_encode(fields: &Vec<(String, String)>) -> (r: String)
    ensures
        r@ == form_text(pairs(fields@)),
{
    let ghost all = pairs(fields@);
    let mut encoded = String::new();
    let mut i: usize = 0;
    proof {
        assert(all.take(0) =~= Seq::<(Seq<char>, Seq<char>)>::empty());
        assert(encoded@ =~= Seq::<char>::empty());
    }
    while i < fields.len()
        invariant
            i <= fields@.len(),
            all == pairs(fields@),
            encoded@ == form_text(all.take(i as int)),
        decreases fields@.len() - i,
    {
        let ghost was = encoded@;
        proof {
            assert(all.take(i + 1).drop_last() =~= all.take(i as int));
            assert(all.take(i + 1).last() == (fields@[i as int].0@, fields@[i as int].1@));
        }
        if i > 0 {
            encoded.push('&');
        }
        percent_encode(fields[i].0.as_str(), &mut encoded);
        encoded.push('=');
        percent_encode(fields[i].1.as_str(), &mut encoded);
        proof {
            let pair = (fields@[i as int].0@, fields@[i as int].1@);
            if i > 0 {
                assert(encoded@ =~= was + seq!['&'] + pair_text(pair));
            } else {
                assert(encoded@ =~= pair_text(pair));
                assert(all.take(1)[0] == pair);
            }
        }
        i = i + 1;
    }
    proof {
        assert(all.take(all.len() as int) =~= all);
    }
    encoded
}

/// Segments escaped one by one, with a `/` behind what has been written so far
/// where anything has.
pub open spec fn segments_text(all: Seq<Seq<char>>) -> Seq<char>
    decreases all.len(),
{
    if all.len() == 0 {
        Seq::empty()
    } else {
        let before = segments_text(all.drop_last());
        if before.len() == 0 {
            escaped(all.last())
        } else {
            before + seq!['/'] + escaped(all.last())
        }
    }
}

/// A repository name in a path.
pub open spec fn path_text(repo: Seq<char>) -> Seq<char> {
    segments_text(parts(repo, '/'))
}

/// A repository name in a path. Names carry `/` — `team/api` — which has to
/// survive as itself, so only the characters that are not path-safe are
/// escaped.
#[must_use]
pub fn path(repo: &str) -> (r: String)
    ensures
        r@ == path_text(repo@),
{
    let all = split(repo, '/');
    let ghost whole = texts(all@);
    let mut encoded = String::new();
    let mut i: usize = 0;
    proof {
        assert(whole.take(0) =~= Seq::<Seq<char>>::empty());
        assert(encoded@ =~= Seq::<char>::empty());
    }
    while i < all.len()
        invariant
            i <= all@.len(),
            whole == texts(all@),
            encoded@ == segments_text(whole.take(i as int)),
        decreases all@.len() - i,
    {
        let ghost was = encoded@;
        proof {
            assert(whole.take(i + 1).drop_last() =~= whole.take(i as int));
            assert(whole.take(i + 1).last() == all@[i as int]@);
        }
        if !encoded.as_str().is_empty() {
            encoded.push('/');
        }
        percent_encode(all[i].as_str(), &mut encoded);
        proof {
            let segment = escaped(all@[i as int]@);
            if was.len() == 0 {
                assert(encoded@ =~= segment);
            } else {
                assert(encoded@ =~= was + seq!['/'] + segment);
            }
        }
        i = i + 1;
    }
    proof {
        assert(whole.take(whole.len() as int) =~= whole);
    }
    encoded
}

// ---------------------------------------------------------------------------
// Hosts
// ---------------------------------------------------------------------------

/// A character that a host name is made of.
pub open spec fn host_char(c: char) -> bool {
    'a' <= c <= 'z' || '0' <= c <= '9' || c == '-' || c == '.'
}

/// Whether a text is a host's name under a domain, and nothing but one: no
/// path, port, user or white space can ride along.
pub open spec fn is_host_under(host: Seq<char>, domain: Seq<char>) -> bool {
    &&& host.len() > domain.len()
    &&& ends(lower(host), domain)
    &&& lower(host)[0] != '.'
    &&& forall|i: int| 0 <= i < host.len() ==> host_char(#[trigger] lower(host)[i])
}

/// Whether a host is one under the domain, such as `.azurecr.io`.
#[must_use]
pub fn host_under(host: &str, domain: &str) -> (r: bool)
    ensures
        r == is_host_under(host@, domain@),
{
    let small = to_lower(host);
    let chars = chars_of(small.as_str());
    let tail = chars_of(domain);
    if chars.len() <= tail.len() || !crate::text::ends_with(small.as_str(), domain) || chars[0]
        == '.' {
        return false;
    }
    let mut i: usize = 0;
    while i < chars.len()
        invariant
            i <= chars@.len(),
            chars@ == lower(host@),
            forall|k: int| 0 <= k < i ==> host_char(#[trigger] lower(host@)[k]),
        decreases chars@.len() - i,
    {
        let c = chars[i];
        if !(('a' <= c && c <= 'z') || ('0' <= c && c <= '9') || c == '-' || c == '.') {
            proof {
                assert(!host_char(lower(host@)[i as int]));
            }
            return false;
        }
        i = i + 1;
    }
    true
}

// ---------------------------------------------------------------------------
// What an escape promises
// ---------------------------------------------------------------------------

/// A character that is safe in a query: a letter, a digit, one of `-_.~`, or
/// part of an escape.
pub open spec fn safe(c: char) -> bool {
    ||| 'A' <= c <= 'Z'
    ||| 'a' <= c <= 'z'
    ||| '0' <= c <= '9'
    ||| c == '-'
    ||| c == '_'
    ||| c == '.'
    ||| c == '~'
    ||| c == '+'
    ||| c == '%'
}

/// Nothing an escaped text holds can end it or start another: every character
/// of it is safe, whatever the text was.
pub proof fn law_an_escaped_text_is_safe(raw: Seq<char>)
    ensures
        forall|i: int| 0 <= i < escaped(raw).len() ==> safe(#[trigger] escaped(raw)[i]),
{
    lemma_bytes_are_safe(encode_utf8(raw));
}

proof fn lemma_bytes_are_safe(bytes: Seq<u8>)
    ensures
        forall|i: int| 0 <= i < bytes_text(bytes).len() ==> safe(#[trigger] bytes_text(bytes)[i]),
    decreases bytes.len(),
{
    if bytes.len() > 0 {
        lemma_bytes_are_safe(bytes.drop_last());
        let b = bytes.last();
        let before = bytes_text(bytes.drop_last());
        assert forall|i: int| 0 <= i < byte_text(b).len() implies safe(
            #[trigger] byte_text(b)[i],
        ) by {
            if !unreserved(b) && b != 32 {
                assert(byte_text(b)[0] == '%');
                assert(byte_text(b)[1] == hex(b / 16));
                assert(byte_text(b)[2] == hex(b % 16));
            }
        }
        assert forall|i: int| 0 <= i < bytes_text(bytes).len() implies safe(
            #[trigger] bytes_text(bytes)[i],
        ) by {
            if i < before.len() {
                assert(bytes_text(bytes)[i] == before[i]);
            } else {
                assert(bytes_text(bytes)[i] == byte_text(b)[i - before.len()]);
            }
        }
    }
}

/// No two texts are escaped alike.
pub proof fn law_an_escape_loses_nothing(a: Seq<char>, b: Seq<char>)
    requires
        escaped(a) == escaped(b),
    ensures
        a == b,
{
    lemma_bytes_come_back(encode_utf8(a), encode_utf8(b));
    vstd::utf8::encode_utf8_decode_utf8(a);
    vstd::utf8::encode_utf8_decode_utf8(b);
}

/// What the first byte of an escaped text was written as.
pub open spec fn first_text(text: Seq<char>) -> Seq<char> {
    if text.len() > 2 && text[0] == '%' {
        text.take(3)
    } else {
        text.take(1)
    }
}

proof fn lemma_byte_is_told(b: u8, rest: Seq<char>)
    ensures
        first_text(byte_text(b) + rest) == byte_text(b),
        byte_text(b).len() > 0,
{
    let all = byte_text(b) + rest;
    if unreserved(b) {
        assert(all[0] == b as char);
        assert(all[0] != '%');
        assert(all.take(1) =~= byte_text(b));
    } else if b == 32 {
        assert(all[0] == '+');
        assert(all.take(1) =~= byte_text(b));
    } else {
        assert(all[0] == '%');
        assert(all.take(3) =~= byte_text(b));
    }
}

proof fn lemma_bytes_differ(a: u8, b: u8)
    requires
        byte_text(a) == byte_text(b),
    ensures
        a == b,
{
    if unreserved(a) {
        assert(byte_text(a)[0] == a as char);
        if unreserved(b) {
            assert(byte_text(b)[0] == b as char);
        }
    } else if a == 32 {
        assert(byte_text(a)[0] == '+');
        if unreserved(b) {
            assert(byte_text(b)[0] == b as char);
        }
    } else {
        assert(byte_text(a).len() == 3);
        assert(byte_text(a)[1] == hex(a / 16));
        assert(byte_text(a)[2] == hex(a % 16));
        assert(byte_text(b)[1] == hex(b / 16));
        assert(byte_text(b)[2] == hex(b % 16));
        lemma_digits_differ(a / 16, b / 16);
        lemma_digits_differ(a % 16, b % 16);
    }
}

proof fn lemma_digits_differ(a: u8, b: u8)
    requires
        a < 16,
        b < 16,
        hex(a) == hex(b),
    ensures
        a == b,
{
}

/// The bytes' texts one after the other, read from the front.
proof fn lemma_bytes_text_front(bytes: Seq<u8>)
    requires
        bytes.len() > 0,
    ensures
        bytes_text(bytes) == byte_text(bytes[0]) + bytes_text(bytes.skip(1)),
    decreases bytes.len(),
{
    if bytes.len() == 1 {
        assert(bytes.drop_last() =~= Seq::<u8>::empty());
        assert(bytes.skip(1) =~= Seq::<u8>::empty());
        assert(bytes_text(bytes) =~= byte_text(bytes[0]) + bytes_text(bytes.skip(1)));
    } else {
        lemma_bytes_text_front(bytes.drop_last());
        assert(bytes.drop_last().skip(1) =~= bytes.skip(1).drop_last());
        assert(bytes.skip(1).last() == bytes.last());
        assert(bytes_text(bytes) =~= byte_text(bytes[0]) + bytes_text(bytes.skip(1)));
    }
}

proof fn lemma_bytes_come_back(a: Seq<u8>, b: Seq<u8>)
    requires
        bytes_text(a) == bytes_text(b),
    ensures
        a == b,
    decreases a.len(),
{
    if a.len() == 0 {
        if b.len() > 0 {
            lemma_bytes_text_front(b);
            lemma_byte_is_told(b[0], bytes_text(b.skip(1)));
        }
        assert(a =~= b);
    } else if b.len() == 0 {
        lemma_bytes_text_front(a);
        lemma_byte_is_told(a[0], bytes_text(a.skip(1)));
    } else {
        lemma_bytes_text_front(a);
        lemma_bytes_text_front(b);
        lemma_byte_is_told(a[0], bytes_text(a.skip(1)));
        lemma_byte_is_told(b[0], bytes_text(b.skip(1)));
        lemma_bytes_differ(a[0], b[0]);
        let width = byte_text(a[0]).len() as int;
        assert(bytes_text(a.skip(1)) =~= bytes_text(a).skip(width));
        assert(bytes_text(b.skip(1)) =~= bytes_text(b).skip(width));
        lemma_bytes_come_back(a.skip(1), b.skip(1));
        assert(a =~= seq![a[0]] + a.skip(1));
        assert(b =~= seq![b[0]] + b.skip(1));
    }
}

} // verus!
