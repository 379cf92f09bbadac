//! Tokens, borrowed from the Azure CLI's login.
//!
//! There is no credential of our own: `az login` has already done the hard
//! part, and `az account get-access-token` hands out a token for whichever
//! audience is asked for. A registry is the exception — it mints its own, from
//! a token of the CLI's — and that trade lives in [`super::acr`], behind the
//! same [`Audience`] so the client keeps owning the retry policy.

use vstd::prelude::*;

use super::failure::{Failure, FailureView};
use crate::kube::said;
use crate::text::{decimal, lines_of, number, texts, trim, trimmed};

verus! {

/// The audience a token is minted for. The trailing slash on ARM's is part of
/// it: a token minted for `https://management.azure.com` without it is
/// rejected by ARM.
#[derive(Debug, PartialEq, Eq, Hash)]
pub enum Audience {
    Arm,
    Vault,
    /// The audience a registry's *own* token is minted for by the CLI, which
    /// is then traded for the registry's refresh and access tokens. Not the
    /// ARM audience: a registry accepts an ARM-scoped token only while its
    /// `azureADAuthenticationAsArmPolicy` is enabled, which the documentation
    /// recommends turning off, so a hardened registry would answer 401. This
    /// is what `az acr` itself asks for.
    ContainerRegistry,
    /// One registry's data plane, signed for the one thing about to be read.
    /// The token is not minted by the CLI at all — see [`super::acr`].
    Acr { login_server: String, scope: String },
}

pub enum AudienceView {
    Arm,
    Vault,
    ContainerRegistry,
    Acr { login_server: Seq<char>, scope: Seq<char> },
}

impl View for Audience {
    type V = AudienceView;

    open spec fn view(&self) -> AudienceView {
        match self {
            Audience::Arm => AudienceView::Arm,
            Audience::Vault => AudienceView::Vault,
            Audience::ContainerRegistry => AudienceView::ContainerRegistry,
            Audience::Acr { login_server, scope } => AudienceView::Acr {
                login_server: login_server@,
                scope: scope@,
            },
        }
    }
}

impl AudienceView {
    /// What `--resource` is given.
    pub open spec fn resource_text(self) -> Seq<char> {
        match self {
            AudienceView::Arm => "https://management.azure.com/"@,
            AudienceView::Vault => "https://vault.azure.net"@,
            _ => "https://containerregistry.azure.net"@,
        }
    }

    /// What the token is kept under.
    pub open spec fn key_text(self) -> Seq<char> {
        match self {
            AudienceView::Acr { login_server, scope } => "acr:"@ + login_server + ":"@ + scope,
            _ => self.resource_text(),
        }
    }

    pub open spec fn label_text(self) -> Seq<char> {
        match self {
            AudienceView::Arm => "arm"@,
            AudienceView::Vault => "vault"@,
            AudienceView::ContainerRegistry => "registry"@,
            AudienceView::Acr { .. } => "acr"@,
        }
    }
}

impl Audience {
    /// What `--resource` is given for this audience.
    #[must_use]
    pub fn resource(&self) -> (r: &'static str)
        ensures
            r@ == self@.resource_text(),
    {
        match self {
            Audience::Arm => "https://management.azure.com/",
            Audience::Vault => "https://vault.azure.net",
            Audience::ContainerRegistry | Audience::Acr { .. } =>
                "https://containerregistry.azure.net",
        }
    }

    /// What the client caches this audience's token under.
    #[must_use]
    pub fn cache_key(&self) -> (r: String)
        ensures
            r@ == self@.key_text(),
    {
        match self {
            // One access token per registry per scope: a catalog listing and
            // a repository's tags are signed for different things.
            Audience::Acr { login_server, scope } => {
                let mut key = "acr:".to_owned();
                key.push_str(login_server.as_str());
                key.push_str(":");
                key.push_str(scope.as_str());
                key
            },
            _ => self.resource().to_owned(),
        }
    }

    #[must_use]
    pub fn copy(&self) -> (r: Self)
        ensures
            r@ == self@,
    {
        match self {
            Audience::Arm => Audience::Arm,
            Audience::Vault => Audience::Vault,
            Audience::ContainerRegistry => Audience::ContainerRegistry,
            Audience::Acr { login_server, scope } => Audience::Acr {
                login_server: login_server.clone(),
                scope: scope.clone(),
            },
        }
    }

    /// What an error calls it.
    #[must_use]
    pub fn label(&self) -> (r: &'static str)
        ensures
            r@ == self@.label_text(),
    {
        match self {
            Audience::Arm => "arm",
            Audience::Vault => "vault",
            Audience::ContainerRegistry => "registry",
            Audience::Acr { .. } => "acr",
        }
    }
}

/// A token is cached apart for every audience: the three the CLI mints for,
/// and each scope of each registry whose login server has no `:` in it.
pub proof fn law_no_two_audiences_share_a_token(a: AudienceView, b: AudienceView)
    requires
        a.key_text() == b.key_text(),
        a matches AudienceView::Acr { login_server, .. } ==> !login_server.contains(':'),
        b matches AudienceView::Acr { login_server, .. } ==> !login_server.contains(':'),
    ensures
        a == b,
{
    reveal_strlit("https://management.azure.com/");
    reveal_strlit("https://vault.azure.net");
    reveal_strlit("https://containerregistry.azure.net");
    reveal_strlit("acr:");
    reveal_strlit(":");
    let key = a.key_text();
    assert(key == b.key_text());
    assert("https://management.azure.com/"@[0] == 'h');
    assert("https://vault.azure.net"@[0] == 'h');
    assert("https://containerregistry.azure.net"@[0] == 'h');
    assert("https://management.azure.com/"@[8] == 'm');
    assert("https://vault.azure.net"@[8] == 'v');
    assert("https://containerregistry.azure.net"@[8] == 'c');
    match (a, b) {
        (
            AudienceView::Acr { login_server: first, scope: one },
            AudienceView::Acr { login_server: second, scope: two },
        ) => {
            lemma_colon(first, one, second, two);
        },
        (AudienceView::Acr { .. }, _) => {
            assert(key[0] == 'a');
        },
        (_, AudienceView::Acr { .. }) => {
            assert(key[0] == 'a');
        },
        _ => {},
    }
}

/// Two texts with a `:` behind what holds none are split at the same place.
proof fn lemma_colon(first: Seq<char>, one: Seq<char>, second: Seq<char>, two: Seq<char>)
    requires
        "acr:"@ + first + ":"@ + one == "acr:"@ + second + ":"@ + two,
        !first.contains(':'),
        !second.contains(':'),
    ensures
        first == second,
        one == two,
{
    reveal_strlit("acr:");
    reveal_strlit(":");
    let left = "acr:"@ + first + ":"@ + one;
    let right = "acr:"@ + second + ":"@ + two;
    assert(left[4 + first.len() as int] == ':');
    assert(right[4 + second.len() as int] == ':');
    if first.len() < second.len() {
        assert(right[4 + first.len() as int] == second[first.len() as int]);
        assert(second.contains(':'));
    }
    if second.len() < first.len() {
        assert(left[4 + second.len() as int] == first[second.len() as int]);
        assert(first.contains(':'));
    }
    assert(first =~= left.subrange(4, 4 + first.len() as int));
    assert(second =~= right.subrange(4, 4 + second.len() as int));
    assert(one =~= left.skip(5 + first.len() as int));
    assert(two =~= right.skip(5 + second.len() as int));
}

/// What a token source answers.
pub open spec fn token_said(token: Result<String, Failure>) -> Result<Seq<char>, FailureView> {
    match token {
        Ok(token) => Ok(token@),
        Err(failure) => Err(failure@),
    }
}

/// What a source answers, asked for the so-many-th token for an audience.
pub type Tokens = spec_fn(nat, AudienceView) -> Result<Seq<char>, FailureView>;

/// The tenant a source names.
pub type Home = Option<Seq<char>>;

/// The audiences a source was asked for.
pub type Minted = Seq<AudienceView>;

/// Where a token comes from. One seam, so every test hands the client fixed
/// strings instead of shelling out to `az`.
///
/// The client is proved against every source at once: `tokens` is whatever the
/// source turns out to answer, and `minted` is what it was asked. The three are
/// for proofs and are never called.
pub trait TokenSource {
    /// What the source answers, asked for the so-many-th token, counted from
    /// nought, for an audience.
    spec fn tokens(&self) -> Tokens;

    /// The tenant it names when it is asked.
    spec fn home(&self) -> Home;

    /// The audiences it was asked for a token for, in turn.
    spec fn minted(&self) -> Minted;

    fn token(&mut self, audience: &Audience) -> (r: Result<String, Failure>)
        ensures
            final(self).tokens() == old(self).tokens(),
            final(self).home() == old(self).home(),
            final(self).minted() == old(self).minted().push(audience@),
            token_said(r) == (old(self).tokens())(old(self).minted().len(), audience@),
    ;

    /// The tenant the login is in, for the one form field that wants it. No
    /// tenant is legal — the registry exchange declares `tenant` optional.
    fn tenant(&mut self) -> (r: Option<String>)
        ensures
            final(self).tokens() == old(self).tokens(),
            final(self).home() == old(self).home(),
            final(self).minted() == old(self).minted(),
            said(r) == old(self).home(),
    ;
}

// ---------------------------------------------------------------------------
// What `az` printed
// ---------------------------------------------------------------------------

/// The lines that are not blank, trimmed.
pub open spec fn full_lines(all: Seq<Seq<char>>) -> Seq<Seq<char>>
    decreases all.len(),
{
    if all.len() == 0 {
        Seq::empty()
    } else {
        let before = full_lines(all.drop_last());
        if trimmed(all.last()).len() > 0 {
            before.push(trimmed(all.last()))
        } else {
            before
        }
    }
}

/// The non-blank lines of some `-o tsv` output.
#[must_use]
pub fn lines(raw: &str) -> (r: Vec<String>)
    ensures
        texts(r@) == full_lines(lines_of(raw@)),
{
    let all = crate::text::lines(raw);
    let ghost whole = texts(all@);
    let mut out: Vec<String> = Vec::new();
    proof {
        assert(texts(out@) =~= Seq::<Seq<char>>::empty());
        assert(whole.take(0) =~= Seq::<Seq<char>>::empty());
    }
    let mut i: usize = 0;
    while i < all.len()
        invariant
            i <= all@.len(),
            whole == texts(all@),
            texts(out@) == full_lines(whole.take(i as int)),
        decreases all@.len() - i,
    {
        let line = trim(all[i].as_str());
        proof {
            assert(whole.take(i + 1).drop_last() =~= whole.take(i as int));
            assert(whole.take(i + 1).last() == all@[i as int]@);
        }
        if !line.as_str().is_empty() {
            let ghost before = out@;
            let ghost said = line@;
            out.push(line);
            proof {
                assert(texts(out@) =~= texts(before).push(said));
            }
        }
        i = i + 1;
    }
    proof {
        assert(whole.take(whole.len() as int) =~= whole);
    }
    out
}

/// The first line that is not blank.
pub open spec fn leading_line(raw: Seq<char>) -> Seq<char> {
    let all = full_lines(lines_of(raw));
    if all.len() > 0 {
        all[0]
    } else {
        Seq::empty()
    }
}

/// `az` writes several lines of complaint; the first one is the reason.
#[must_use]
pub fn first_line(raw: &str) -> (r: String)
    ensures
        r@ == leading_line(raw@),
{
    let mut all = lines(raw);
    proof {
        assert(texts(all@).len() == all@.len());
    }
    if all.len() > 0 {
        proof {
            assert(texts(all@)[0] == all@[0]@);
        }
        all.remove(0)
    } else {
        String::new()
    }
}

/// What one `az` call comes to.
pub open spec fn az_said(
    arguments: Seq<char>,
    success: bool,
    stdout: Seq<char>,
    stderr: Seq<char>,
) -> Result<Seq<char>, Seq<char>> {
    if !success {
        Err("`az "@ + arguments + "` failed: "@ + leading_line(stderr) + " — run `az login`"@)
    } else if trimmed(stdout).len() == 0 {
        Err("`az "@ + arguments + "` answered with nothing — run `az login`"@)
    } else {
        Ok(trimmed(stdout))
    }
}

/// What a result in plain words says.
pub open spec fn words_said(result: Result<String, String>) -> Result<Seq<char>, Seq<char>> {
    match result {
        Ok(text) => Ok(text@),
        Err(text) => Err(text@),
    }
}

/// Whatever single value one `az` call printed. A failure ends in "run `az
/// login`", because that is what it nearly always is.
pub fn az_answer(arguments: &str, success: bool, stdout: &str, stderr: &str) -> (r: Result<
    String,
    String,
>)
    ensures
        words_said(r) == az_said(arguments@, success, stdout@, stderr@),
{
    if !success {
        let mut text = "`az ".to_owned();
        text.push_str(arguments);
        text.push_str("` failed: ");
        text.push_str(first_line(stderr).as_str());
        text.push_str(" — run `az login`");
        return Err(text);
    }
    let value = trim(stdout);
    if value.as_str().is_empty() {
        let mut text = "`az ".to_owned();
        text.push_str(arguments);
        text.push_str("` answered with nothing — run `az login`");
        return Err(text);
    }
    Ok(value)
}

/// The pieces between tabs and line breaks.
pub open spec fn cells(shown: Seq<char>) -> Seq<Seq<char>>
    decreases shown.len(),
{
    if shown.len() == 0 {
        seq![Seq::empty()]
    } else {
        let before = cells(shown.drop_last());
        let c = shown.last();
        if c == '\t' || c == '\n' {
            before.push(Seq::empty())
        } else {
            before.drop_last().push(before.last().push(c))
        }
    }
}

/// Who is signed in, and to which tenant, where either is said.
pub open spec fn account_said(shown: Seq<char>) -> Option<(Seq<char>, Seq<char>)> {
    let fields = cells(shown);
    let user = trimmed(fields[0]);
    let tenant = if fields.len() > 1 {
        trimmed(fields[1])
    } else {
        Seq::empty()
    };
    if user.len() == 0 && tenant.len() == 0 {
        None
    } else {
        Some((user, tenant))
    }
}

fn split_cells(shown: &str) -> (r: Vec<String>)
    ensures
        texts(r@) == cells(shown@),
        r@.len() > 0,
{
    let chars = crate::text::chars_of(shown);
    let mut out: Vec<String> = Vec::new();
    let mut current = String::new();
    let mut i: usize = 0;
    proof {
        assert(texts(out@).push(current@) =~= seq![Seq::<char>::empty()]);
        assert(chars@.take(0) =~= Seq::<char>::empty());
    }
    while i < chars.len()
        invariant
            i <= chars@.len(),
            texts(out@).push(current@) == cells(chars@.take(i as int)),
        decreases chars@.len() - i,
    {
        let c = chars[i];
        let ghost before = out@;
        let ghost line = current@;
        proof {
            assert(chars@.take(i + 1).drop_last() =~= chars@.take(i as int));
            assert(texts(before).push(line).last() == line);
            assert(texts(before).push(line).drop_last() =~= texts(before));
        }
        if c == '\t' || c == '\n' {
            out.push(current);
            current = String::new();
            proof {
                assert(texts(out@) =~= texts(before).push(line));
                assert(current@ =~= Seq::<char>::empty());
            }
        } else {
            current.push(c);
        }
        i = i + 1;
    }
    proof {
        assert(chars@.take(chars@.len() as int) =~= chars@);
    }
    let ghost before = out@;
    let ghost line = current@;
    out.push(current);
    proof {
        assert(texts(out@) =~= texts(before).push(line));
    }
    out
}

/// Every enabled subscription the login can see, out of what `az account list`
/// printed: a GUID to a line.
#[must_use]
pub fn subscriptions(listed: &str) -> (r: Vec<String>)
    ensures
        texts(r@) == full_lines(lines_of(listed@)),
{
    lines(listed)
}

/// The CLI's version, out of what `az version` printed: its first line, which
/// is the version and nothing else.
#[must_use]
pub fn az_version(printed: &str) -> (r: String)
    ensures
        r@ == leading_line(printed@),
{
    first_line(printed)
}

/// Who is signed in, and to which tenant, out of what `az account show`
/// printed: `-o tsv` on a two-element array is one tab-separated line.
pub fn account(shown: &str) -> (r: Result<(String, String), String>)
    ensures
        match account_said(shown@) {
            Some((user, tenant)) => r matches Ok(held) && held.0@ == user && held.1@ == tenant,
            None => r matches Err(text) && text@
                == "`az account show` answered with nothing — run `az login`"@,
        },
{
    let fields = split_cells(shown);
    proof {
        assert(texts(fields@).len() == fields@.len());
        assert(texts(fields@)[0] == fields@[0]@);
    }
    let user = trim(fields[0].as_str());
    let tenant = if fields.len() > 1 {
        proof {
            assert(texts(fields@)[1] == fields@[1]@);
        }
        trim(fields[1].as_str())
    } else {
        String::new()
    };
    if user.as_str().is_empty() && tenant.as_str().is_empty() {
        return Err("`az account show` answered with nothing — run `az login`".to_owned());
    }
    Ok((user, tenant))
}

// ---------------------------------------------------------------------------
// Fixed tokens
// ---------------------------------------------------------------------------

/// A token source over fixed strings, keeping what it minted.
pub struct FixedTokens {
    /// What each mint was for.
    pub mints: Vec<Audience>,
    /// What the first mints answer with, or why they answer with nothing; the
    /// rest answer with the audience's label and a counter, so a re-mint is
    /// visibly a different token.
    pub answers: Vec<Result<String, String>>,
}

/// The token a counter names.
pub open spec fn counted_token(audience: AudienceView, count: nat) -> Seq<char> {
    audience.label_text() + "-token-"@ + decimal(count)
}

impl FixedTokens {
    #[must_use]
    pub fn new() -> (r: Self)
        ensures
            r.mints@.len() == 0,
            r.answers@.len() == 0,
    {
        FixedTokens { mints: Vec::new(), answers: Vec::new() }
    }

    /// How many tokens were minted, whatever the audience.
    #[must_use]
    pub fn count(&self) -> (r: usize)
        ensures
            r == self.minted().len(),
    {
        self.mints.len()
    }
}

impl TokenSource for FixedTokens {
    open spec fn tokens(&self) -> spec_fn(nat, AudienceView) -> Result<Seq<char>, FailureView> {
        let answers = self.answers@;
        |at: nat, audience: AudienceView|
            if at < answers.len() {
                match answers[at as int] {
                    Ok(token) => Ok(token@),
                    Err(text) => Err(FailureView::no_login(text@)),
                }
            } else {
                Ok(counted_token(audience, at + 1))
            }
    }

    open spec fn home(&self) -> Option<Seq<char>> {
        None
    }

    open spec fn minted(&self) -> Seq<AudienceView> {
        self.mints@.map_values(|audience: Audience| audience@)
    }

    fn token(&mut self, audience: &Audience) -> (r: Result<String, Failure>) {
        let ghost was = self.minted();
        let at: usize = self.mints.len();
        self.mints.push(audience.copy());
        proof {
            assert(self.minted() =~= was.push(audience@));
        }
        if at < self.answers.len() {
            match &self.answers[at] {
                Ok(token) => Ok(token.clone()),
                Err(text) => Err(Failure::no_login(text.clone())),
            }
        } else {
            let mut token = audience.label().to_owned();
            token.push_str("-token-");
            token.push_str(number(self.mints.len() as u64).as_str());
            Ok(token)
        }
    }

    fn tenant(&mut self) -> (r: Option<String>) {
        None
    }
}

} // verus!
