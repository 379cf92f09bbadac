//! Copying, on two channels at once.
//!
//! OSC 52 hands the text to the terminal itself, which is the only thing that
//! works over SSH or inside a VDI: no `xclip` on the far side can reach the
//! clipboard the eyes are next to. The terminal gives no receipt, so a write
//! that returned is counted as a copy.
//!
//! An external command is what works locally in a terminal that does not speak
//! OSC 52. Here is which are worth trying, which is next, and what a copy comes
//! to; running them is the program's.

use vstd::prelude::*;
use vstd::utf8::encode_utf8;

use crate::text::{holds, lower, texts, to_lower, within};

verus! {

/// The character that six bits are written as.
pub open spec fn sixth(n: int) -> char {
    if n < 26 {
        ((65 + n) as u8) as char
    } else if n < 52 {
        ((71 + n) as u8) as char
    } else if n < 62 {
        ((n - 4) as u8) as char
    } else if n == 62 {
        '+'
    } else {
        '/'
    }
}

/// Up to three bytes as four characters: six bits each, with `=` where there
/// is no byte.
pub open spec fn quartet(chunk: Seq<u8>) -> Seq<char> {
    let a = chunk[0] as int;
    if chunk.len() == 1 {
        seq![sixth(a / 4), sixth((a % 4) * 16), '=', '=']
    } else {
        let b = chunk[1] as int;
        if chunk.len() == 2 {
            seq![sixth(a / 4), sixth((a % 4) * 16 + b / 16), sixth((b % 16) * 4), '=']
        } else {
            let c = chunk[2] as int;
            seq![
                sixth(a / 4),
                sixth((a % 4) * 16 + b / 16),
                sixth((b % 16) * 4 + c / 64),
                sixth(c % 64),
            ]
        }
    }
}

/// Bytes as standard base64 with padding writes them.
pub open spec fn base64_text(bytes: Seq<u8>) -> Seq<char>
    decreases bytes.len(),
{
    if bytes.len() == 0 {
        Seq::empty()
    } else if bytes.len() <= 3 {
        quartet(bytes)
    } else {
        quartet(bytes.take(3)) + base64_text(bytes.skip(3))
    }
}

fn letter(n: u8) -> (r: char)
    requires
        n < 64,
    ensures
        r == sixth(n as int),
{
    if n < 26 {
        (65 + n) as char
    } else if n < 52 {
        (71 + n) as char
    } else if n < 62 {
        (n - 4) as char
    } else if n == 62 {
        '+'
    } else {
        '/'
    }
}

fn push_quartet(out: &mut String, bytes: &[u8], at: usize)
    requires
        at < bytes@.len(),
    ensures
        final(out)@ == old(out)@ + quartet(
            if bytes@.len() - at > 3 {
                bytes@.skip(at as int).take(3)
            } else {
                bytes@.skip(at as int)
            },
        ),
{
    let ghost was = out@;
    let left: usize = bytes.len() - at;
    let a: u8 = bytes[at];
    out.push(letter(a / 4));
    if left == 1 {
        out.push(letter((a % 4) * 16));
        out.push('=');
        out.push('=');
        proof {
            assert(out@ =~= was + quartet(bytes@.skip(at as int)));
        }
        return;
    }
    let b: u8 = bytes[at + 1];
    out.push(letter((a % 4) * 16 + b / 16));
    if left == 2 {
        out.push(letter((b % 16) * 4));
        out.push('=');
        proof {
            assert(out@ =~= was + quartet(bytes@.skip(at as int)));
        }
        return;
    }
    let c: u8 = bytes[at + 2];
    out.push(letter((b % 16) * 4 + c / 64));
    out.push(letter(c % 64));
    proof {
        let chunk = bytes@.skip(at as int).take(3);
        assert(bytes@.len() - at == 3 ==> bytes@.skip(at as int) =~= chunk);
        assert(out@ =~= was + quartet(chunk));
    }
}

/// Standard base64 with padding, which is what OSC 52 wants.
#[must_use]
pub fn base64(bytes: &[u8]) -> (r: String)
    ensures
        r@ == base64_text(bytes@),
{
    let mut output = String::new();
    let mut at: usize = 0;
    proof {
        assert(bytes@.skip(0) =~= bytes@);
        assert(output@ + base64_text(bytes@) =~= base64_text(bytes@));
    }
    while at < bytes.len()
        invariant
            at <= bytes@.len(),
            output@ + base64_text(bytes@.skip(at as int)) == base64_text(bytes@),
        decreases bytes@.len() - at,
    {
        let ghost was = output@;
        push_quartet(&mut output, bytes, at);
        let left: usize = bytes.len() - at;
        let step: usize = if left > 3 {
            3
        } else {
            left
        };
        proof {
            let rest = bytes@.skip(at as int);
            assert(rest.skip(step as int) =~= bytes@.skip(at + step));
            if left <= 3 {
                assert(bytes@.skip(at + step) =~= Seq::<u8>::empty());
                assert(output@ + base64_text(bytes@.skip(at + step)) =~= was + quartet(rest));
            } else {
                assert(output@ + base64_text(bytes@.skip(at + step)) =~= was + (quartet(
                    rest.take(3),
                ) + base64_text(rest.skip(3))));
            }
        }
        at = at + step;
    }
    proof {
        assert(bytes@.skip(at as int) =~= Seq::<u8>::empty());
        assert(output@ =~= output@ + Seq::<char>::empty());
    }
    output
}

/// The sequence that hands a text to the terminal.
pub open spec fn osc52_text(text: Seq<char>) -> Seq<char> {
    "\u{1b}]52;c;"@ + base64_text(encode_utf8(text)) + "\u{07}"@
}

/// The OSC 52 sequence for `text`: `ESC ] 52 ; c ; <base64> BEL`.
#[must_use]
pub fn osc52(text: &str) -> (r: String)
    ensures
        r@ == osc52_text(text@),
{
    let mut sequence = "\u{1b}]52;c;".to_owned();
    sequence.push_str(base64(text.as_bytes()).as_str());
    sequence.push_str("\u{07}");
    sequence
}

// ---------------------------------------------------------------------------
// The commands
// ---------------------------------------------------------------------------

/// A program and what it is called with.
pub open spec fn command_views(commands: Seq<(String, Vec<String>)>) -> Seq<
    (Seq<char>, Seq<Seq<char>>),
> {
    commands.map_values(|command: (String, Vec<String>)| (command.0@, texts(command.1@)))
}

/// Whether a kernel's release is that of Windows' own Linux.
pub open spec fn is_windows(release: Seq<char>) -> bool {
    within(lower(release), "microsoft"@)
}

/// The commands worth trying, in the order most likely to work: on a Mac there
/// is one; on Windows' own Linux its clipboard, the one the eyes are next to,
/// comes first.
pub open spec fn worth_trying(mac: bool, release: Option<Seq<char>>) -> Seq<
    (Seq<char>, Seq<Seq<char>>),
> {
    if mac {
        seq![("pbcopy"@, Seq::empty())]
    } else {
        let windows = release matches Some(release) && is_windows(release);
        (if windows {
            seq![("clip.exe"@, Seq::empty())]
        } else {
            Seq::empty()
        }) + seq![
            ("wl-copy"@, seq!["--trim-newline"@]),
            ("xclip"@, seq!["-selection"@, "clipboard"@]),
            ("xsel"@, seq!["--clipboard"@, "--input"@]),
        ]
    }
}

/// A program with up to two arguments.
fn command(program: &str, first: Option<&str>, second: Option<&str>) -> (r: (String, Vec<String>))
    ensures
        r.0@ == program@,
        texts(r.1@) == match first {
            Some(first) => match second {
                Some(second) => seq![first@, second@],
                None => seq![first@],
            },
            None => Seq::<Seq<char>>::empty(),
        },
{
    let mut arguments: Vec<String> = Vec::new();
    if let Some(first) = first {
        arguments.push(first.to_owned());
        if let Some(second) = second {
            arguments.push(second.to_owned());
            proof {
                assert(texts(arguments@) =~= seq![first@, second@]);
            }
        } else {
            proof {
                assert(texts(arguments@) =~= seq![first@]);
            }
        }
    } else {
        proof {
            assert(texts(arguments@) =~= Seq::<Seq<char>>::empty());
        }
    }
    (program.to_owned(), arguments)
}

/// The commands worth trying, in the order most likely to work. A release is
/// the kernel's own word for itself: WSL 1 reports `…-Microsoft`, WSL 2
/// `…-microsoft-standard-WSL2`.
#[must_use]
pub fn commands(mac: bool, release: Option<&str>) -> (r: Vec<(String, Vec<String>)>)
    ensures
        command_views(r@) == worth_trying(
            mac,
            match release {
                Some(release) => Some(release@),
                None => None,
            },
        ),
{
    let mut commands: Vec<(String, Vec<String>)> = Vec::new();
    if mac {
        commands.push(command("pbcopy", None, None));
        proof {
            assert(command_views(commands@) =~= seq![("pbcopy"@, Seq::<Seq<char>>::empty())]);
        }
        return commands;
    }
    if let Some(release) = release {
        if holds(to_lower(release).as_str(), "microsoft") {
            commands.push(command("clip.exe", None, None));
        }
    }
    commands.push(command("wl-copy", Some("--trim-newline"), None));
    commands.push(command("xclip", Some("-selection"), Some("clipboard")));
    commands.push(command("xsel", Some("--clipboard"), Some("--input")));
    proof {
        let said = match release {
            Some(release) => Some(release@),
            None => None,
        };
        assert(command_views(commands@) =~= worth_trying(false, said));
    }
    commands
}

/// What running a command came to.
pub open spec fn run_said(ran: Result<(), String>) -> Result<(), Seq<char>> {
    match ran {
        Ok(_) => Ok(()),
        Err(text) => Err(text@),
    }
}

/// Whether a command has worked.
pub open spec fn any_worked(ran: Seq<Result<(), String>>) -> bool {
    exists|i: int| 0 <= i < ran.len() && (#[trigger] ran[i]) is Ok
}

fn has_worked(ran: &Vec<Result<(), String>>) -> (r: bool)
    ensures
        r == any_worked(ran@),
{
    let mut i: usize = 0;
    while i < ran.len()
        invariant
            i <= ran@.len(),
            forall|k: int| 0 <= k < i ==> (#[trigger] ran@[k]) is Err,
        decreases ran@.len() - i,
    {
        if ran[i].is_ok() {
            return true;
        }
        i = i + 1;
    }
    false
}

/// Which of so many commands is run next, once these have been: each in its
/// turn, until one has worked.
#[must_use]
pub fn next_command(count: usize, ran: &Vec<Result<(), String>>) -> (r: Option<usize>)
    ensures
        r == if ran@.len() < count && !any_worked(ran@) {
            Some(ran@.len() as usize)
        } else {
            None::<usize>
        },
{
    if ran.len() < count && !has_worked(ran) {
        Some(ran.len())
    } else {
        None
    }
}

/// What running the commands came to. The error is the last one's: the command
/// nearest to working.
pub open spec fn runs_said(ran: Seq<Result<(), String>>) -> Result<(), Seq<char>> {
    if any_worked(ran) {
        Ok(())
    } else if ran.len() > 0 {
        run_said(ran.last())
    } else {
        Err("no clipboard command available"@)
    }
}

/// What running the commands came to.
pub fn first_that_works(ran: &Vec<Result<(), String>>) -> (r: Result<(), String>)
    ensures
        run_said(r) == runs_said(ran@),
{
    if has_worked(ran) {
        return Ok(());
    }
    if ran.len() == 0 {
        return Err("no clipboard command available".to_owned());
    }
    match &ran[ran.len() - 1] {
        Ok(_) => Ok(()),
        Err(text) => Err(text.clone()),
    }
}

/// What a copy comes to: it went where a command worked, and where the escape
/// went out, which the terminal may well have taken.
pub open spec fn copy_said(escape_went: bool, ran: Seq<Result<(), String>>) -> Result<
    (),
    Seq<char>,
> {
    match runs_said(ran) {
        Err(text) if !escape_went => Err(
            "no clipboard command found and the terminal may not support OSC 52: "@ + text,
        ),
        _ => Ok(()),
    }
}

/// What a copy comes to, once the escape has been written or has not, and the
/// commands have been run.
pub fn copied(escape_went: bool, ran: &Vec<Result<(), String>>) -> (r: Result<(), String>)
    ensures
        run_said(r) == copy_said(escape_went, ran@),
{
    match first_that_works(ran) {
        Ok(()) => Ok(()),
        Err(text) => {
            if escape_went {
                return Ok(());
            }
            let mut said =
                "no clipboard command found and the terminal may not support OSC 52: ".to_owned();
            said.push_str(text.as_str());
            Err(said)
        },
    }
}

// ---------------------------------------------------------------------------
// What the encoding promises
// ---------------------------------------------------------------------------

/// The six bits a character stands for.
pub open spec fn bits_of(c: char) -> int {
    if 'A' <= c <= 'Z' {
        c as u32 - 65
    } else if 'a' <= c <= 'z' {
        c as u32 - 71
    } else if '0' <= c <= '9' {
        c as u32 + 4
    } else if c == '+' {
        62
    } else {
        63
    }
}

proof fn lemma_sixth(n: int)
    requires
        0 <= n < 64,
    ensures
        bits_of(sixth(n)) == n,
        sixth(n) != '=',
{
}

/// The bytes four characters stand for.
pub open spec fn bytes_of(quartet: Seq<char>) -> Seq<u8> {
    let a = bits_of(quartet[0]);
    let b = bits_of(quartet[1]);
    let first = (a * 4 + b / 16) as u8;
    if quartet[2] == '=' {
        seq![first]
    } else {
        let c = bits_of(quartet[2]);
        let second = ((b % 16) * 16 + c / 4) as u8;
        if quartet[3] == '=' {
            seq![first, second]
        } else {
            seq![first, second, ((c % 4) * 64 + bits_of(quartet[3])) as u8]
        }
    }
}

/// The bytes a base64 text stands for.
pub open spec fn unbase64(text: Seq<char>) -> Seq<u8>
    decreases text.len(),
{
    if text.len() < 4 {
        Seq::empty()
    } else {
        bytes_of(text.take(4)) + unbase64(text.skip(4))
    }
}

proof fn lemma_quartet(chunk: Seq<u8>)
    requires
        1 <= chunk.len() <= 3,
    ensures
        quartet(chunk).len() == 4,
        bytes_of(quartet(chunk)) == chunk,
{
    let a = chunk[0] as int;
    lemma_sixth(a / 4);
    if chunk.len() == 1 {
        lemma_sixth((a % 4) * 16);
        assert(bytes_of(quartet(chunk)) =~= chunk);
    } else {
        let b = chunk[1] as int;
        lemma_sixth((a % 4) * 16 + b / 16);
        if chunk.len() == 2 {
            lemma_sixth((b % 16) * 4);
            assert(bytes_of(quartet(chunk)) =~= chunk);
        } else {
            let c = chunk[2] as int;
            lemma_sixth((b % 16) * 4 + c / 64);
            lemma_sixth(c % 64);
            assert(bytes_of(quartet(chunk)) =~= chunk);
        }
    }
}

/// What is copied comes out of the encoding byte for byte.
pub proof fn law_what_is_copied_survives_the_encoding(bytes: Seq<u8>)
    ensures
        unbase64(base64_text(bytes)) == bytes,
    decreases bytes.len(),
{
    let text = base64_text(bytes);
    if bytes.len() == 0 {
        assert(unbase64(text) =~= bytes);
    } else if bytes.len() <= 3 {
        lemma_quartet(bytes);
        assert(text.take(4) =~= text);
        assert(unbase64(text.skip(4)) =~= Seq::<u8>::empty());
        assert(unbase64(text) =~= bytes);
    } else {
        lemma_quartet(bytes.take(3));
        law_what_is_copied_survives_the_encoding(bytes.skip(3));
        assert(text.take(4) =~= quartet(bytes.take(3)));
        assert(text.skip(4) =~= base64_text(bytes.skip(3)));
        assert(unbase64(text) =~= bytes);
    }
}

} // verus!
