//! The one client every Azure read goes through, and the seams a test replaces
//! the network with.
//!
//! The client owns the policy all three planes share: sign with the cached
//! token, mint a new one and retry once when a plane says the token is spent,
//! wait out a throttle once, and turn every other refusal into the message the
//! service actually wrote. Nothing above this file retries anything.
//!
//! [`Method`] has two variants and neither is a write. That is the read-only
//! promise: a write verb cannot be named here, so no later step can add one by
//! accident.

use vstd::prelude::*;

use super::auth::{token_said, Audience, AudienceView, TokenSource};
use super::encode::{host_under, is_host_under};
use super::failure::{
    codes_in, is_no_login, is_signed_out, parsed, refusal_said, ApiError, ApiErrorView, Failure,
    FailureView,
};
use super::json::{json_of, text, Json, JsonView};
use super::waits::{find_header, header_in, header_said, throttle_said, wait_of};
use crate::filter::pairs;
use crate::kube::said;
use crate::text::{blank, equal, is_blank};
use crate::timestamp::Moment;

verus! {

/// The two verbs this crate can spell. Both read.
#[derive(Clone, Copy, Debug, PartialEq, Eq, Structural)]
pub enum Method {
    Get,
    /// Resource Graph's query and the two registry token endpoints. All three
    /// read; a `POST` is simply how they take their arguments.
    Post,
}

/// What a `POST` carries: a document, or the form fields a token endpoint
/// wants.
#[derive(Debug)]
pub enum Body {
    Empty,
    Json(Json),
    Form(Vec<(String, String)>),
}

pub enum BodyView {
    Empty,
    Json(JsonView),
    Form(Seq<(Seq<char>, Seq<char>)>),
}

impl View for Body {
    type V = BodyView;

    open spec fn view(&self) -> BodyView {
        match self {
            Body::Empty => BodyView::Empty,
            Body::Json(document) => BodyView::Json(document@),
            Body::Form(fields) => BodyView::Form(pairs(fields@)),
        }
    }
}

#[derive(Debug)]
pub struct Request {
    pub method: Method,
    pub url: String,
    /// Filled in by [`Client::call`]; a request built by hand carries `None`
    /// and is signed on its way out.
    pub bearer: Option<String>,
    pub body: Body,
}

pub struct RequestView {
    pub method: Method,
    pub url: Seq<char>,
    pub bearer: Option<Seq<char>>,
    pub body: BodyView,
}

impl View for Request {
    type V = RequestView;

    open spec fn view(&self) -> RequestView {
        RequestView {
            method: self.method,
            url: self.url@,
            bearer: said(self.bearer),
            body: self.body@,
        }
    }
}

impl RequestView {
    pub open spec fn get(url: Seq<char>) -> Self {
        RequestView { method: Method::Get, url, bearer: None, body: BodyView::Empty }
    }

    pub open spec fn post_json(url: Seq<char>, document: JsonView) -> Self {
        RequestView { method: Method::Post, url, bearer: None, body: BodyView::Json(document) }
    }

    pub open spec fn post_form(url: Seq<char>, fields: Seq<(Seq<char>, Seq<char>)>) -> Self {
        RequestView { method: Method::Post, url, bearer: None, body: BodyView::Form(fields) }
    }

    pub open spec fn signed(self, token: Seq<char>) -> Self {
        RequestView { bearer: Some(token), ..self }
    }
}

impl Request {
    #[must_use]
    pub fn get(url: &str) -> (r: Self)
        ensures
            r@ == RequestView::get(url@),
    {
        Request { method: Method::Get, url: url.to_owned(), bearer: None, body: Body::Empty }
    }

    #[must_use]
    pub fn post_json(url: &str, document: Json) -> (r: Self)
        ensures
            r@ == RequestView::post_json(url@, document@),
    {
        Request {
            method: Method::Post,
            url: url.to_owned(),
            bearer: None,
            body: Body::Json(document),
        }
    }

    #[must_use]
    pub fn post_form(url: &str, fields: Vec<(String, String)>) -> (r: Self)
        ensures
            r@ == RequestView::post_form(url@, pairs(fields@)),
    {
        Request { method: Method::Post, url: url.to_owned(), bearer: None, body: Body::Form(fields) }
    }
}

#[derive(Debug)]
pub struct Response {
    pub status: u16,
    pub headers: Vec<(String, String)>,
    pub body: String,
}

pub struct ResponseView {
    pub status: u16,
    pub headers: Seq<(Seq<char>, Seq<char>)>,
    pub body: Seq<char>,
}

impl View for Response {
    type V = ResponseView;

    open spec fn view(&self) -> ResponseView {
        ResponseView { status: self.status, headers: pairs(self.headers@), body: self.body@ }
    }
}

impl Request {
    #[must_use]
    pub fn copy(&self) -> (r: Self)
        ensures
            r@ == self@,
    {
        Request {
            method: self.method,
            url: self.url.clone(),
            bearer: crate::kube::copy_text(&self.bearer),
            body: match &self.body {
                Body::Empty => Body::Empty,
                Body::Json(document) => Body::Json(document.copy()),
                Body::Form(fields) => Body::Form(copy_pairs(fields)),
            },
        }
    }
}

/// The same pairs again.
#[must_use]
pub fn copy_pairs(held: &Vec<(String, String)>) -> (r: Vec<(String, String)>)
    ensures
        pairs(r@) == pairs(held@),
{
    let mut out: Vec<(String, String)> = Vec::new();
    let mut i: usize = 0;
    while i < held.len()
        invariant
            i <= held@.len(),
            out@.len() == i,
            forall|k: int|
                0 <= k < i ==> (#[trigger] out@[k]).0@ == held@[k].0@ && out@[k].1@
                    == held@[k].1@,
        decreases held@.len() - i,
    {
        out.push((held[i].0.clone(), held[i].1.clone()));
        i = i + 1;
    }
    proof {
        assert(pairs(out@) =~= pairs(held@));
    }
    out
}

impl Response {
    #[must_use]
    pub fn header(&self, name: &str) -> (r: Option<&str>)
        ensures
            header_said(r) == header_in(self@.headers, name@),
    {
        find_header(&self.headers, name)
    }
}

/// What a request that was sent came to: an answer, or why there is none.
pub open spec fn reply_said(reply: Result<Response, String>) -> Result<ResponseView, Seq<char>> {
    match reply {
        Ok(response) => Ok(response@),
        Err(text) => Err(text@),
    }
}

/// What the so-many-th request comes to.
pub type Replies = spec_fn(nat, RequestView) -> Result<ResponseView, Seq<char>>;

/// The requests a network was sent.
pub type Requests = Seq<RequestView>;

/// What a clock says the so-many-th time it is looked at.
pub type Times = spec_fn(nat) -> Moment;

/// How often a clock was looked at.
pub type Looks = nat;

/// The waits that were taken, in nanoseconds.
pub type Taken = Seq<u64>;

/// How the client reaches the network. One seam, so a test drives every read
/// in the crate with canned answers rather than a socket.
///
/// The client is proved against every network at once: `replies` is whatever
/// the network turns out to answer, and `requests` is what it was sent. The two
/// are for proofs and are never called.
pub trait Transport {
    /// What the so-many-th request, counted from nought, comes to.
    spec fn replies(&self) -> Replies;

    /// Every request so far, in turn.
    spec fn requests(&self) -> Requests;

    fn send(&mut self, request: &Request) -> (r: Result<Response, String>)
        ensures
            final(self).replies() == old(self).replies(),
            final(self).requests() == old(self).requests().push(request@),
            reply_said(r) == (old(self).replies())(old(self).requests().len(), request@),
    ;
}

/// How the client tells the time and takes a wait. The worker hands in one
/// that says so on screen first; a test hands in one that records the wait
/// instead of sleeping.
pub trait Clock {
    /// What the clock says the so-many-th time it is looked at.
    spec fn times(&self) -> Times;

    /// How often it was looked at.
    spec fn looks(&self) -> Looks;

    /// Every wait taken, in nanoseconds.
    spec fn waits(&self) -> Taken;

    fn now(&mut self) -> (r: Moment)
        ensures
            final(self).times() == old(self).times(),
            final(self).looks() == old(self).looks() + 1,
            final(self).waits() == old(self).waits(),
            r == (old(self).times())(old(self).looks()),
    ;

    fn sleep(&mut self, nanos: u64)
        ensures
            final(self).times() == old(self).times(),
            final(self).looks() == old(self).looks(),
            final(self).waits() == old(self).waits().push(nanos),
    ;
}

// ---------------------------------------------------------------------------
// What is read out of an answer
// ---------------------------------------------------------------------------

/// The statuses Azure sheds load with.
pub open spec fn throttled(status: u16) -> bool {
    status == 429 || status == 503
}

/// How long to leave a throttled answer alone, in nanoseconds.
#[must_use]
pub fn throttle_wait(response: &Response, now: Moment) -> (r: u64)
    ensures
        r == throttle_said(response@.headers, now),
{
    wait_of(&response.headers, now)
}

/// What an answer comes to, once its body has been parsed.
pub open spec fn answer_with(
    url: Seq<char>,
    response: ResponseView,
    document: Result<JsonView, Seq<char>>,
) -> Result<JsonView, FailureView> {
    let held = match document {
        Ok(document) => document,
        Err(_) => JsonView::Null,
    };
    let message = refusal_said(held, response.body);
    if response.status == 401 {
        Err(
            FailureView::signed_out("Azure refused the token for "@ + url + ": "@ + message),
        )
    } else if throttled(response.status) {
        Err(
            FailureView::refused(
                ApiErrorView {
                    status: response.status,
                    url,
                    codes: codes_in(held),
                    message: "Azure is still throttling this: "@ + message,
                },
            ),
        )
    } else if !(200 <= response.status < 300) {
        Err(
            FailureView::refused(
                ApiErrorView { status: response.status, url, codes: codes_in(held), message },
            ),
        )
    } else if blank(response.body) {
        Err(FailureView::other(url + " answered with an empty body"@))
    } else {
        match document {
            Ok(document) => Ok(document),
            Err(why) => Err(
                FailureView::other(
                    url + " answered with something other than JSON"@ + ": "@ + why,
                ),
            ),
        }
    }
}

/// What an answer comes to.
pub open spec fn answer_said(url: Seq<char>, response: ResponseView) -> Result<
    JsonView,
    FailureView,
> {
    answer_with(url, response, json_of(response.body))
}

/// What a read came to.
pub open spec fn outcome(result: Result<Json, Failure>) -> Result<JsonView, FailureView> {
    match result {
        Ok(document) => Ok(document@),
        Err(failure) => Err(failure@),
    }
}

/// What an answer comes to, its body parsed: the document, or the refusal in
/// the words the service wrote.
///
/// No call in the crate legitimately answers with nothing: read as "no rows"
/// it would empty a vault, or both tabs, and the next save would write that
/// emptiness to the cache.
pub fn read_parsed(url: &str, response: &Response, document: Result<Json, String>) -> (r: Result<
    Json,
    Failure,
>)
    ensures
        outcome(r) == answer_with(url@, response@, super::json::document_said(document)),
{
    let status: u16 = response.status;
    let parsed = match &document {
        Ok(document) => Some(document),
        Err(_) => None,
    };
    if status == 401 {
        let mut said = "Azure refused the token for ".to_owned();
        said.push_str(url);
        said.push_str(": ");
        said.push_str(super::failure::message_in(parsed, response.body.as_str()).as_str());
        return Err(Failure::signed_out(said));
    }
    if status == 429 || status == 503 {
        // The wait has already been taken once; a second refusal is the
        // service saying to come back later, not to ask again now.
        let mut message = "Azure is still throttling this: ".to_owned();
        message.push_str(super::failure::message_in(parsed, response.body.as_str()).as_str());
        return Err(
            Failure::refused(
                ApiError {
                    status,
                    url: url.to_owned(),
                    codes: super::failure::codes_of(parsed),
                    message,
                },
            ),
        );
    }
    if !(200 <= status && status < 300) {
        return Err(
            Failure::refused(
                ApiError {
                    status,
                    url: url.to_owned(),
                    codes: super::failure::codes_of(parsed),
                    message: super::failure::message_in(parsed, response.body.as_str()),
                },
            ),
        );
    }
    if is_blank(response.body.as_str()) {
        let mut said = url.to_owned();
        said.push_str(" answered with an empty body");
        return Err(Failure::other(said));
    }
    match document {
        Ok(document) => Ok(document),
        Err(why) => {
            let mut said = url.to_owned();
            said.push_str(" answered with something other than JSON");
            said.push_str(": ");
            said.push_str(why.as_str());
            Err(Failure::other(said))
        },
    }
}

fn read(url: &str, response: &Response) -> (r: Result<Json, Failure>)
    ensures
        outcome(r) == answer_said(url@, response@),
{
    read_parsed(url, response, Json::parse(response.body.as_str()))
}

// ---------------------------------------------------------------------------
// The client
// ---------------------------------------------------------------------------

/// The value put under a key last.
pub open spec fn cached_under(pairs: Seq<(Seq<char>, Seq<char>)>, key: Seq<char>) -> Option<
    Seq<char>,
>
    decreases pairs.len(),
{
    if pairs.len() == 0 {
        None
    } else if pairs.last().0 == key {
        Some(pairs.last().1)
    } else {
        cached_under(pairs.drop_last(), key)
    }
}

/// The pairs but for those under a key.
pub open spec fn without_key(pairs: Seq<(Seq<char>, Seq<char>)>, key: Seq<char>) -> Seq<
    (Seq<char>, Seq<char>),
>
    decreases pairs.len(),
{
    if pairs.len() == 0 {
        pairs
    } else if pairs.last().0 == key {
        without_key(pairs.drop_last(), key)
    } else {
        without_key(pairs.drop_last(), key).push(pairs.last())
    }
}

/// What the client's seams answer, whenever they are asked.
pub struct WorldView {
    pub replies: spec_fn(nat, RequestView) -> Result<ResponseView, Seq<char>>,
    pub tokens: spec_fn(nat, AudienceView) -> Result<Seq<char>, FailureView>,
    pub home: Option<Seq<char>>,
    pub times: spec_fn(nat) -> Moment,
}

/// What the client holds and what it has done so far.
pub struct ClientView {
    pub world: WorldView,
    pub requests: Seq<RequestView>,
    pub minted: Seq<AudienceView>,
    pub looks: nat,
    pub waits: Seq<u64>,
    pub cached: Seq<(Seq<char>, Seq<char>)>,
    pub refresh_tokens: Seq<(Seq<char>, Seq<char>)>,
    pub tenant: Option<Option<Seq<char>>>,
    pub throttled: Option<u64>,
}

/// The longest of the waits asked for, with one more of them.
pub open spec fn longest(held: Option<u64>, wait: u64) -> Option<u64> {
    match held {
        Some(held) if held >= wait => Some(held),
        _ => Some(wait),
    }
}

impl ClientView {
    /// One request sent, and what it came to.
    pub open spec fn sent(self, request: RequestView) -> (Self, Result<ResponseView, Seq<char>>) {
        (
            ClientView { requests: self.requests.push(request), ..self },
            (self.world.replies)(self.requests.len(), request),
        )
    }

    /// After a wait as long as a throttled answer asks for.
    pub open spec fn waited(self, response: ResponseView) -> Self {
        let wait = throttle_said(response.headers, (self.world.times)(self.looks));
        ClientView {
            looks: self.looks + 1,
            waits: self.waits.push(wait),
            throttled: longest(self.throttled, wait),
            ..self
        }
    }

    /// One request, waiting out a throttle once.
    #[verifier::opaque]
    pub open spec fn attempted(self, request: RequestView) -> (
        Self,
        Result<JsonView, FailureView>,
    ) {
        let (one, first) = self.sent(request);
        match first {
            Err(text) => (one, Err(FailureView::other(text))),
            Ok(response) => if throttled(response.status) {
                let (two, second) = one.waited(response).sent(request);
                match second {
                    Err(text) => (two, Err(FailureView::other(text))),
                    Ok(response) => (two, answer_said(request.url, response)),
                }
            } else {
                (one, answer_said(request.url, response))
            },
        }
    }

    /// A token of the CLI's: the cached one, or one minted now.
    #[verifier::opaque]
    pub open spec fn plain_token(self, audience: AudienceView) -> (
        Self,
        Result<Seq<char>, FailureView>,
    ) {
        match cached_under(self.cached, audience.key_text()) {
            Some(token) => (self, Ok(token)),
            None => {
                let asked = ClientView { minted: self.minted.push(audience), ..self };
                match (self.world.tokens)(self.minted.len(), audience) {
                    Ok(token) => (asked.with_token(audience, token), Ok(token)),
                    Err(failure) => (asked, Err(failure)),
                }
            },
        }
    }

    pub open spec fn with_token(self, audience: AudienceView, token: Seq<char>) -> Self {
        ClientView { cached: self.cached.push((audience.key_text(), token)), ..self }
    }

    /// Without the token of one audience; of a registry's, without the whole
    /// chain it was traded from.
    #[verifier::opaque]
    pub open spec fn forgetting(self, audience: AudienceView) -> Self {
        let kept = without_key(self.cached, audience.key_text());
        match audience {
            AudienceView::Acr { login_server, .. } => ClientView {
                cached: without_key(kept, AudienceView::ContainerRegistry.key_text()),
                refresh_tokens: without_key(self.refresh_tokens, login_server),
                ..self
            },
            _ => ClientView { cached: kept, ..self },
        }
    }

    /// The tenant the login is in, asked for at most once.
    pub open spec fn tenant_known(self) -> (Self, Option<Seq<char>>) {
        match self.tenant {
            Some(tenant) => (self, tenant),
            None => (
                ClientView { tenant: Some(self.world.home), ..self },
                self.world.home,
            ),
        }
    }

    /// The exchange post, with whatever CLI token the cache holds.
    #[verifier::opaque]
    pub open spec fn exchange_posted(self, login_server: Seq<char>) -> (
        Self,
        Result<JsonView, FailureView>,
    ) {
        let (signed, token) = self.plain_token(AudienceView::ContainerRegistry);
        match token {
            Err(failure) => (signed, Err(failure)),
            Ok(token) => {
                let (known, tenant) = signed.tenant_known();
                known.attempted(
                    RequestView::post_form(
                        "https://"@ + login_server + "/oauth2/exchange"@,
                        exchange_fields(login_server, token, tenant),
                    ),
                )
            },
        }
    }

    /// A CLI token in, a refresh token out.
    #[verifier::opaque]
    pub open spec fn exchanged(self, login_server: Seq<char>) -> (
        Self,
        Result<Seq<char>, FailureView>,
    ) {
        let (one, first) = self.exchange_posted(login_server);
        let (two, second) = match first {
            Err(failure) if failure.cause is SignedOut => one.forgetting(
                AudienceView::ContainerRegistry,
            ).exchange_posted(login_server),
            _ => (one, first),
        };
        (
            two,
            match second {
                Err(failure) => Err(registry_refusal(login_server, failure)),
                Ok(document) => match document.member("refresh_token"@).some_text() {
                    Some(token) => Ok(token),
                    None => Err(
                        FailureView::other(
                            login_server + " answered the exchange without a token"@,
                        ),
                    ),
                },
            },
        )
    }

    /// The refresh token one registry issued, or the one it issues now.
    #[verifier::opaque]
    pub open spec fn refreshed(self, login_server: Seq<char>) -> (
        Self,
        Result<Seq<char>, FailureView>,
    ) {
        match cached_under(self.refresh_tokens, login_server) {
            Some(token) => (self, Ok(token)),
            None => {
                let (then, minted) = self.exchanged(login_server);
                match minted {
                    Ok(token) => (
                        ClientView {
                            refresh_tokens: then.refresh_tokens.push((login_server, token)),
                            ..then
                        },
                        Ok(token),
                    ),
                    Err(failure) => (then, Err(failure)),
                }
            },
        }
    }

    /// A registry's access token for one scope.
    #[verifier::opaque]
    pub open spec fn registry_token(self, login_server: Seq<char>, scope: Seq<char>) -> (
        Self,
        Result<Seq<char>, FailureView>,
    ) {
        if !is_host_under(login_server, ".azurecr.io"@) {
            (self, Err(FailureView::other(not_a_registry(login_server))))
        } else {
            let (one, refresh) = self.refreshed(login_server);
            match refresh {
                Err(failure) => (one, Err(failure)),
                Ok(refresh) => {
                    let (two, issued) = one.attempted(
                        RequestView::post_form(
                            "https://"@ + login_server + "/oauth2/token"@,
                            token_fields(login_server, scope, refresh),
                        ),
                    );
                    (
                        two,
                        match issued {
                            Err(failure) => Err(failure),
                            Ok(document) => match document.member("access_token"@).some_text() {
                                Some(token) => Ok(token),
                                None => Err(
                                    FailureView::other(
                                        login_server
                                            + " answered the token call without a token"@,
                                    ),
                                ),
                            },
                        },
                    )
                },
            }
        }
    }

    /// This audience's token, minted on first use.
    #[verifier::opaque]
    pub open spec fn token_of(self, audience: AudienceView) -> (
        Self,
        Result<Seq<char>, FailureView>,
    ) {
        match audience {
            AudienceView::Acr { login_server, scope } => match cached_under(
                self.cached,
                audience.key_text(),
            ) {
                Some(token) => (self, Ok(token)),
                None => {
                    let (then, minted) = self.registry_token(login_server, scope);
                    match minted {
                        Ok(token) => (then.with_token(audience, token), Ok(token)),
                        Err(failure) => (then, Err(failure)),
                    }
                },
            },
            _ => self.plain_token(audience),
        }
    }

    /// A first try: a token, and the request signed with it.
    pub open spec fn tried(self, audience: AudienceView, request: RequestView) -> (
        Self,
        Result<JsonView, FailureView>,
    ) {
        let (signed, token) = self.token_of(audience);
        match token {
            Err(failure) => (signed, Err(failure)),
            Ok(token) => signed.attempted(request.signed(token)),
        }
    }

    /// One signed call: a spent token is worth exactly one fresh one.
    #[verifier::opaque]
    pub open spec fn called(self, audience: AudienceView, request: RequestView) -> (
        Self,
        Result<JsonView, FailureView>,
    ) {
        let (one, first) = self.tried(audience, request);
        match first {
            Err(failure) if failure.cause is SignedOut => {
                let (two, token) = one.forgetting(audience).token_of(audience);
                match token {
                    Err(_) => (two, first),
                    Ok(token) => two.attempted(request.signed(token)),
                }
            },
            _ => (one, first),
        }
    }
}

/// What the exchange post carries.
pub open spec fn exchange_fields(
    login_server: Seq<char>,
    token: Seq<char>,
    tenant: Option<Seq<char>>,
) -> Seq<(Seq<char>, Seq<char>)> {
    let fields = seq![
        ("grant_type"@, "access_token"@),
        ("service"@, login_server),
        ("access_token"@, token),
    ];
    match tenant {
        Some(tenant) => fields.push(("tenant"@, tenant)),
        None => fields,
    }
}

/// What the token post carries.
pub open spec fn token_fields(
    login_server: Seq<char>,
    scope: Seq<char>,
    refresh: Seq<char>,
) -> Seq<(Seq<char>, Seq<char>)> {
    seq![
        ("grant_type"@, "refresh_token"@),
        ("service"@, login_server),
        ("scope"@, scope),
        ("refresh_token"@, refresh),
    ]
}

/// Whether a refusal is a login with no role on a registry.
pub open spec fn without_a_role(failure: FailureView) -> bool {
    ||| failure.cause is SignedOut
    ||| failure.cause matches super::failure::CauseView::Api(refusal) && (refusal.status == 401
        || refusal.status == 403)
}

/// A refusal on a registry is not a spent token: it is a login with no role on
/// it, which no retry fixes. No login at all goes through untouched.
pub open spec fn registry_refusal(login_server: Seq<char>, failure: FailureView) -> FailureView {
    if without_a_role(failure) {
        FailureView::other(
            login_server
                + ": no permission (needs AcrPull, or Container Registry Repository Reader on an ABAC registry)"@,
        )
    } else {
        failure
    }
}

pub open spec fn not_a_registry(login_server: Seq<char>) -> Seq<char> {
    quoted_text(login_server) + " is not a registry login server; no token is sent there"@
}

/// A text as `{:?}` prints it: in quotes, with what cannot be printed escaped.
pub uninterp spec fn quoted_text(text: Seq<char>) -> Seq<char>;

/// `format!("{:?}", text)`, which is `str`'s `Debug`.
#[verifier::external_body]
fn quoted(text: &str) -> (r: String)
    ensures
        r@ == quoted_text(text@),
{
    format!("{text:?}")
}

/// The client every read in the crate goes through.
pub struct Client<T: TokenSource, H: Transport, C: Clock> {
    pub tokens: T,
    pub transport: H,
    pub clock: C,
    /// One token per audience, minted on first use and re-minted once when a
    /// plane says it is spent. A CLI token lasts about an hour; a running TUI
    /// outlives that.
    pub cached: Vec<(String, String)>,
    /// One refresh token per registry, by login server. The exchange that
    /// mints one costs a round trip and the token it mints is good for every
    /// scope that registry is asked for, for about three hours.
    pub refresh_tokens: Vec<(String, String)>,
    /// The tenant, asked for once and only when something needs it.
    pub tenant: Option<Option<String>>,
    /// The longest wait a refusal asked for, in nanoseconds, until something
    /// reads it.
    pub throttled: Option<u64>,
}

/// What an optional tenant that may not have been asked for says.
pub open spec fn tenant_said(tenant: Option<Option<String>>) -> Option<Option<Seq<char>>> {
    match tenant {
        Some(tenant) => Some(said(tenant)),
        None => None,
    }
}

impl<T: TokenSource, H: Transport, C: Clock> View for Client<T, H, C> {
    type V = ClientView;

    open spec fn view(&self) -> ClientView {
        ClientView {
            world: WorldView {
                replies: self.transport.replies(),
                tokens: self.tokens.tokens(),
                home: self.tokens.home(),
                times: self.clock.times(),
            },
            requests: self.transport.requests(),
            minted: self.tokens.minted(),
            looks: self.clock.looks(),
            waits: self.clock.waits(),
            cached: pairs(self.cached@),
            refresh_tokens: pairs(self.refresh_tokens@),
            tenant: tenant_said(self.tenant),
            throttled: self.throttled,
        }
    }
}

fn find_cached(held: &Vec<(String, String)>, key: &str) -> (r: Option<String>)
    ensures
        said(r) == cached_under(pairs(held@), key@),
{
    let ghost all = pairs(held@);
    let mut i: usize = held.len();
    proof {
        assert(all.take(all.len() as int) =~= all);
    }
    while i > 0
        invariant
            i <= held@.len(),
            all == pairs(held@),
            cached_under(all, key@) == cached_under(all.take(i as int), key@),
        decreases i,
    {
        proof {
            assert(all.take(i as int).drop_last() =~= all.take(i - 1));
            assert(all.take(i as int).last() == (held@[i - 1].0@, held@[i - 1].1@));
        }
        if equal(held[i - 1].0.as_str(), key) {
            return Some(held[i - 1].1.clone());
        }
        i = i - 1;
    }
    None
}

fn drop_key(held: &mut Vec<(String, String)>, key: &str)
    ensures
        pairs(final(held)@) == without_key(pairs(old(held)@), key@),
{
    let mut taken: Vec<(String, String)> = Vec::new();
    std::mem::swap(&mut taken, held);
    let ghost all = pairs(taken@);
    proof {
        assert(pairs(held@) =~= Seq::<(Seq<char>, Seq<char>)>::empty());
        assert(all.take(0) =~= Seq::<(Seq<char>, Seq<char>)>::empty());
    }
    for pair in iter: taken.into_iter()
        invariant
            all == pairs(iter.seq()),
            pairs(held@) == without_key(all.take(iter.index() as int), key@),
    {
        let ghost i = iter.index() as int;
        let ghost before = held@;
        proof {
            assert(all.take(i + 1).drop_last() =~= all.take(i));
            assert(all.take(i + 1).last() == (pair.0@, pair.1@));
        }
        if !equal(pair.0.as_str(), key) {
            held.push(pair);
            proof {
                assert(pairs(held@) =~= pairs(before).push((pair.0@, pair.1@)));
            }
        }
    }
    proof {
        assert(all.take(all.len() as int) =~= all);
    }
}

fn push_pair(held: &mut Vec<(String, String)>, key: String, value: &str)
    ensures
        pairs(final(held)@) == pairs(old(held)@).push((key@, value@)),
{
    let ghost before = held@;
    let ghost named = key@;
    held.push((key, value.to_owned()));
    proof {
        assert(pairs(held@) =~= pairs(before).push((named, value@)));
    }
}

fn pair(key: &str, value: &str) -> (r: (String, String))
    ensures
        (r.0@, r.1@) == (key@, value@),
{
    (key.to_owned(), value.to_owned())
}

fn join3(a: &str, b: &str, c: &str) -> (r: String)
    ensures
        r@ == a@ + b@ + c@,
{
    let mut text = a.to_owned();
    text.push_str(b);
    text.push_str(c);
    text
}

/// A refusal on a registry, explained.
#[must_use]
pub fn explain_registry(login_server: &str, error: Failure) -> (r: Failure)
    ensures
        r@ == registry_refusal(login_server@, error@),
{
    // No login at all is not a missing role: it goes through untouched, and
    // the worker reduces it to the two words that fix it.
    if is_no_login(&error) {
        return error;
    }
    let refused = match super::failure::api_error(&error) {
        Some(refusal) => refusal.status == 401 || refusal.status == 403,
        None => is_signed_out(&error),
    };
    if refused {
        let mut text = login_server.to_owned();
        text.push_str(
            ": no permission (needs AcrPull, or Container Registry Repository Reader on an ABAC registry)",
        );
        return Failure::other(text);
    }
    error
}

impl<T: TokenSource, H: Transport, C: Clock> Client<T, H, C> {
    #[must_use]
    pub fn new(tokens: T, transport: H, clock: C) -> (r: Self)
        ensures
            r.tokens == tokens,
            r.transport == transport,
            r.clock == clock,
            r@.cached.len() == 0,
            r@.refresh_tokens.len() == 0,
            r@.tenant is None,
            r@.throttled is None,
    {
        Client {
            tokens,
            transport,
            clock,
            cached: Vec::new(),
            refresh_tokens: Vec::new(),
            tenant: None,
            throttled: None,
        }
    }

    /// How long the refusals since this was last asked want to be left alone,
    /// in nanoseconds: the longest wait any of them asked for, which is the one
    /// worth reporting. Reading it clears it, so one refusal is reported once.
    pub fn last_throttle(&mut self) -> (r: Option<u64>)
        ensures
            r == old(self)@.throttled,
            final(self)@ == (ClientView { throttled: None, ..old(self)@ }),
    {
        self.throttled.take()
    }

    /// Forgets the token for one audience, so the next call mints afresh.
    ///
    /// A registry's access token is minted from its refresh token, and that
    /// from the CLI's token, so forgetting one has to forget the whole chain:
    /// otherwise the retry trades a spent token for another spent token, and a
    /// TUI left open past the CLI token's hour loses every registry for good.
    pub fn forget(&mut self, audience: &Audience)
        ensures
            final(self)@ == old(self)@.forgetting(audience@),
    {
        proof {
            reveal(ClientView::forgetting);
        }
        let key = audience.cache_key();
        drop_key(&mut self.cached, key.as_str());
        if let Audience::Acr { login_server, .. } = audience {
            drop_key(&mut self.refresh_tokens, login_server.as_str());
            let cli = Audience::ContainerRegistry.cache_key();
            drop_key(&mut self.cached, cli.as_str());
        }
    }

    /// The tenant the login is in, asked for at most once a run.
    pub fn tenant(&mut self) -> (r: Option<String>)
        ensures
            (final(self)@, said(r)) == old(self)@.tenant_known(),
    {
        if let Some(tenant) = &self.tenant {
            return crate::kube::copy_text(tenant);
        }
        let tenant = self.tokens.tenant();
        self.tenant = Some(crate::kube::copy_text(&tenant));
        tenant
    }

    /// One request, waiting out a throttle once. Throttling first: it is the
    /// one refusal that is nobody's fault and only worth waiting out.
    fn attempt(&mut self, request: &Request) -> (r: Result<Json, Failure>)
        ensures
            (final(self)@, outcome(r)) == old(self)@.attempted(request@),
    {
        proof {
            reveal(ClientView::attempted);
        }
        let response = match self.transport.send(request) {
            Ok(response) => response,
            Err(text) => return Err(Failure::other(text)),
        };
        if response.status == 429 || response.status == 503 {
            let now = self.clock.now();
            let wait: u64 = throttle_wait(&response, now);
            self.throttled = match self.throttled {
                Some(held) => if held >= wait {
                    Some(held)
                } else {
                    Some(wait)
                },
                None => Some(wait),
            };
            self.clock.sleep(wait);
            let again = match self.transport.send(request) {
                Ok(response) => response,
                Err(text) => return Err(Failure::other(text)),
            };
            return read(request.url.as_str(), &again);
        }
        read(request.url.as_str(), &response)
    }

    /// One unsigned call: the two registry token endpoints, which are how a
    /// token is got and so carry none. The throttle and error policy is the
    /// same; only the bearer is missing.
    pub fn call_unsigned(&mut self, request: &Request) -> (r: Result<Json, Failure>)
        ensures
            (final(self)@, outcome(r)) == old(self)@.attempted(request@),
    {
        self.attempt(request)
    }

    /// A token of the CLI's, minted on first use.
    fn mint_plain(&mut self, audience: &Audience) -> (r: Result<String, Failure>)
        ensures
            (final(self)@, token_said(r)) == old(self)@.plain_token(audience@),
    {
        proof {
            reveal(ClientView::plain_token);
        }
        let key = audience.cache_key();
        if let Some(held) = find_cached(&self.cached, key.as_str()) {
            return Ok(held);
        }
        match self.tokens.token(audience) {
            Ok(token) => {
                push_pair(&mut self.cached, key, token.as_str());
                Ok(token)
            },
            Err(failure) => Err(failure),
        }
    }

    /// The exchange post itself, with whatever CLI token the cache holds.
    fn post_exchange(&mut self, login_server: &str) -> (r: Result<Json, Failure>)
        ensures
            (final(self)@, outcome(r)) == old(self)@.exchange_posted(login_server@),
    {
        proof {
            reveal(ClientView::exchange_posted);
        }
        let cli = match self.mint_plain(&Audience::ContainerRegistry) {
            Ok(token) => token,
            Err(failure) => return Err(failure),
        };
        // The swagger calls `tenant` optional and the prose calls it required;
        // `az acr` always sends it, so this does too when the CLI will say.
        let tenant = self.tenant();
        let mut fields: Vec<(String, String)> = Vec::new();
        fields.push(pair("grant_type", "access_token"));
        fields.push(pair("service", login_server));
        fields.push(pair("access_token", cli.as_str()));
        if let Some(tenant) = &tenant {
            fields.push(pair("tenant", tenant.as_str()));
        }
        proof {
            assert(pairs(fields@) =~= exchange_fields(login_server@, cli@, said(tenant)));
        }
        self.attempt(
            &Request::post_form(
                join3("https://", login_server, "/oauth2/exchange").as_str(),
                fields,
            ),
        )
    }

    /// The first of the two posts: a CLI token in, a refresh token out. Once
    /// per registry per run, however many scopes are asked for after it.
    fn exchange(&mut self, login_server: &str) -> (r: Result<String, Failure>)
        ensures
            (final(self)@, token_said(r)) == old(self)@.exchanged(login_server@),
    {
        proof {
            reveal(ClientView::exchanged);
        }
        let first = self.post_exchange(login_server);
        let spent = match &first {
            Err(error) => is_signed_out(error) && !is_no_login(error),
            Ok(_) => false,
        };
        // A 401 here is most often the CLI token gone stale in the cache,
        // which only a data-plane 401 would otherwise drop — and a registry
        // that never answered has had none. One fresh token, one retry.
        let answer = if spent {
            self.forget(&Audience::ContainerRegistry);
            self.post_exchange(login_server)
        } else {
            first
        };
        match answer {
            Err(error) => Err(explain_registry(login_server, error)),
            Ok(document) => match text(document.get("refresh_token")) {
                Some(token) => Ok(token),
                None => {
                    let mut said = login_server.to_owned();
                    said.push_str(" answered the exchange without a token");
                    Err(Failure::other(said))
                },
            },
        }
    }

    /// The refresh token one registry issued, or the one it issues now.
    fn registry_refresh_token(&mut self, login_server: &str) -> (r: Result<String, Failure>)
        ensures
            (final(self)@, token_said(r)) == old(self)@.refreshed(login_server@),
    {
        proof {
            reveal(ClientView::refreshed);
        }
        if let Some(held) = find_cached(&self.refresh_tokens, login_server) {
            return Ok(held);
        }
        match self.exchange(login_server) {
            Ok(token) => {
                push_pair(&mut self.refresh_tokens, login_server.to_owned(), token.as_str());
                Ok(token)
            },
            Err(failure) => Err(failure),
        }
    }

    /// A registry's access token for one scope.
    ///
    /// Two posts, both `application/x-www-form-urlencoded`, neither signed
    /// with a bearer: the first trades a CLI token for a refresh token that
    /// lives about three hours and is cached per registry, the second trades
    /// that for an access token scoped to the one thing about to be read.
    ///
    /// The login server comes from Resource Graph and the exchange hands it a
    /// CLI token, so it has to be a registry's own host under `.azurecr.io`
    /// before anything is sent.
    fn mint(&mut self, login_server: &str, scope: &str) -> (r: Result<String, Failure>)
        ensures
            (final(self)@, token_said(r)) == old(self)@.registry_token(login_server@, scope@),
    {
        proof {
            reveal(ClientView::registry_token);
        }
        if !host_under(login_server, ".azurecr.io") {
            let mut said = quoted(login_server);
            said.push_str(" is not a registry login server; no token is sent there");
            return Err(Failure::other(said));
        }
        let refresh = match self.registry_refresh_token(login_server) {
            Ok(token) => token,
            Err(failure) => return Err(failure),
        };
        let mut fields: Vec<(String, String)> = Vec::new();
        fields.push(pair("grant_type", "refresh_token"));
        fields.push(pair("service", login_server));
        fields.push(pair("scope", scope));
        fields.push(pair("refresh_token", refresh.as_str()));
        proof {
            assert(pairs(fields@) =~= token_fields(login_server@, scope@, refresh@));
        }
        let issued = self.attempt(
            &Request::post_form(
                join3("https://", login_server, "/oauth2/token").as_str(),
                fields,
            ),
        );
        match issued {
            Err(failure) => Err(failure),
            Ok(document) => match text(document.get("access_token")) {
                Some(token) => Ok(token),
                None => {
                    let mut said = login_server.to_owned();
                    said.push_str(" answered the token call without a token");
                    Err(Failure::other(said))
                },
            },
        }
    }

    /// This audience's token, minted on first use.
    pub fn token(&mut self, audience: &Audience) -> (r: Result<String, Failure>)
        ensures
            (final(self)@, token_said(r)) == old(self)@.token_of(audience@),
    {
        proof {
            reveal(ClientView::token_of);
        }
        match audience {
            // A registry does not take a CLI token: it trades one for its own.
            Audience::Acr { login_server, scope } => {
                let key = audience.cache_key();
                if let Some(held) = find_cached(&self.cached, key.as_str()) {
                    return Ok(held);
                }
                match self.mint(login_server.as_str(), scope.as_str()) {
                    Ok(token) => {
                        push_pair(&mut self.cached, key, token.as_str());
                        Ok(token)
                    },
                    Err(failure) => Err(failure),
                }
            },
            _ => self.mint_plain(audience),
        }
    }

    /// One signed call, and the JSON it answered with.
    ///
    /// A `401` is worth exactly one fresh token: the CLI's tokens expire while
    /// the TUI is open, and re-minting is cheap. A second `401` is a
    /// signed-out login, which no amount of retrying fixes. The mint is inside
    /// the retried expression: a registry refusing a spent refresh token says
    /// so while the token is being minted, not while the call is being made.
    pub fn call(&mut self, audience: &Audience, request: Request) -> (r: Result<Json, Failure>)
        ensures
            (final(self)@, outcome(r)) == old(self)@.called(audience@, request@),
    {
        proof {
            reveal(ClientView::called);
        }
        let mut request = request;
        let ghost plain = request@;
        let first = match self.token(audience) {
            Ok(token) => {
                request.bearer = Some(token);
                self.attempt(&request)
            },
            Err(failure) => Err(failure),
        };
        // A missing login is not retried: a second `az` shell-out would only
        // fail the same way, a second later.
        let spent = match &first {
            Err(error) => is_signed_out(error) && !is_no_login(error),
            Ok(_) => false,
        };
        if !spent {
            return first;
        }
        self.forget(audience);
        match self.token(audience) {
            // The mint failed too; the first refusal is the one that says to
            // sign in.
            Err(_) => first,
            Ok(token) => {
                request.bearer = Some(token);
                self.attempt(&request)
            },
        }
    }
}

} // verus!
