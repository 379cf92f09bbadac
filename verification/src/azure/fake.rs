//! A transport over canned answers, keeping every request it was handed, and a
//! clock that stands still and keeps every wait.
//!
//! No read in the crate needs the network: the recorded requests say which
//! address was asked and which plane's token signed it.

use vstd::prelude::*;

use super::auth::{counted_token, AudienceView, FixedTokens};
use super::failure::FailureView;
use super::transport::{
    copy_pairs, Client, Clock, Request, RequestView, Response, ResponseView, Transport,
};
use crate::filter::pairs;
use crate::kube::said;
use crate::text::texts;
use crate::timestamp::Moment;

verus! {

/// One canned answer: a status, the headers worth carrying, and a body.
#[derive(Debug)]
pub struct Answer {
    pub status: u16,
    pub headers: Vec<(String, String)>,
    pub body: String,
}

impl View for Answer {
    type V = ResponseView;

    open spec fn view(&self) -> ResponseView {
        ResponseView { status: self.status, headers: pairs(self.headers@), body: self.body@ }
    }
}

impl Answer {
    #[must_use]
    pub fn ok(body: &str) -> (r: Self)
        ensures
            r@ == (ResponseView { status: 200, headers: Seq::empty(), body: body@ }),
    {
        Answer::status(200, body)
    }

    #[must_use]
    pub fn status(status: u16, body: &str) -> (r: Self)
        ensures
            r@ == (ResponseView { status, headers: Seq::empty(), body: body@ }),
    {
        let r = Answer { status, headers: Vec::new(), body: body.to_owned() };
        proof {
            assert(r@.headers =~= Seq::<(Seq<char>, Seq<char>)>::empty());
        }
        r
    }

    #[must_use]
    pub fn with_header(self, name: &str, value: &str) -> (r: Self)
        ensures
            r@ == (ResponseView { headers: self@.headers.push((name@, value@)), ..self@ }),
    {
        let mut answer = self;
        let ghost was = answer@.headers;
        answer.headers.push((name.to_owned(), value.to_owned()));
        proof {
            assert(answer@.headers =~= was.push((name@, value@)));
        }
        answer
    }
}

/// A transport over canned answers.
pub struct FakeTransport {
    pub answers: Vec<Answer>,
    /// Every request it was handed, in order.
    pub sent: Vec<Request>,
}

impl FakeTransport {
    #[must_use]
    pub fn answering(answers: Vec<Answer>) -> (r: Self)
        ensures
            r.answers == answers,
            r.requests().len() == 0,
    {
        FakeTransport { answers, sent: Vec::new() }
    }

    /// The address of each request.
    #[must_use]
    pub fn urls(&self) -> (r: Vec<String>)
        ensures
            texts(r@) == self.requests().map_values(|request: RequestView| request.url),
    {
        let mut out: Vec<String> = Vec::new();
        let mut i: usize = 0;
        while i < self.sent.len()
            invariant
                i <= self.sent@.len(),
                out@.len() == i,
                forall|k: int| 0 <= k < i ==> (#[trigger] out@[k])@ == self.sent@[k].url@,
            decreases self.sent@.len() - i,
        {
            out.push(self.sent[i].url.clone());
            i = i + 1;
        }
        proof {
            assert(texts(out@) =~= self.requests().map_values(|request: RequestView| request.url));
        }
        out
    }

    /// The bearer each request carried.
    #[must_use]
    pub fn bearers(&self) -> (r: Vec<Option<String>>)
        ensures
            r@.len() == self.requests().len(),
            forall|i: int|
                0 <= i < r@.len() ==> said(#[trigger] r@[i]) == self.requests()[i].bearer,
    {
        let mut out: Vec<Option<String>> = Vec::new();
        let mut i: usize = 0;
        while i < self.sent.len()
            invariant
                i <= self.sent@.len(),
                out@.len() == i,
                forall|k: int| 0 <= k < i ==> said(#[trigger] out@[k]) == said(self.sent@[k].bearer),
            decreases self.sent@.len() - i,
        {
            out.push(crate::kube::copy_text(&self.sent[i].bearer));
            i = i + 1;
        }
        out
    }

    /// How many answers are left.
    #[must_use]
    pub fn remaining(&self) -> (r: usize)
        ensures
            r == if self.answers@.len() > self.requests().len() {
                self.answers@.len() - self.requests().len()
            } else {
                0
            },
    {
        self.answers.len().saturating_sub(self.sent.len())
    }
}

impl Transport for FakeTransport {
    open spec fn replies(&self) -> spec_fn(nat, RequestView) -> Result<ResponseView, Seq<char>> {
        let answers = self.answers@;
        |at: nat, request: RequestView|
            if at < answers.len() {
                Ok(answers[at as int]@)
            } else {
                Err("the fake transport ran out of answers at "@ + request.url)
            }
    }

    open spec fn requests(&self) -> Seq<RequestView> {
        self.sent@.map_values(|request: Request| request@)
    }

    fn send(&mut self, request: &Request) -> (r: Result<Response, String>) {
        let at: usize = self.sent.len();
        let ghost was = self.requests();
        self.sent.push(request.copy());
        proof {
            assert(self.requests() =~= was.push(request@));
        }
        if at < self.answers.len() {
            let answer = &self.answers[at];
            Ok(
                Response {
                    status: answer.status,
                    headers: copy_pairs(&answer.headers),
                    body: answer.body.clone(),
                },
            )
        } else {
            let mut said = "the fake transport ran out of answers at ".to_owned();
            said.push_str(request.url.as_str());
            Err(said)
        }
    }
}

/// A clock that stands still, and keeps every wait instead of sleeping.
pub struct Waits {
    pub at: Moment,
    pub looked: Vec<Moment>,
    /// In nanoseconds.
    pub taken: Vec<u64>,
}

impl Waits {
    #[must_use]
    pub fn standing_at(at: Moment) -> (r: Self)
        ensures
            r.at == at,
            r.looks() == 0,
            r.waits().len() == 0,
    {
        Waits { at, looked: Vec::new(), taken: Vec::new() }
    }
}

impl Clock for Waits {
    open spec fn times(&self) -> spec_fn(nat) -> Moment {
        let at = self.at;
        |look: nat| at
    }

    open spec fn looks(&self) -> nat {
        self.looked@.len()
    }

    open spec fn waits(&self) -> Seq<u64> {
        self.taken@
    }

    fn now(&mut self) -> (r: Moment) {
        self.looked.push(self.at);
        self.at
    }

    fn sleep(&mut self, nanos: u64) {
        self.taken.push(nanos);
    }
}

/// A client over canned answers and fixed tokens, at the start of 1970: every
/// token is the audience's label and how many there are by then.
#[must_use]
pub fn client(answers: Vec<Answer>) -> (r: Client<FixedTokens, FakeTransport, Waits>)
    ensures
        r.transport.answers == answers,
        r.tokens.answers@.len() == 0,
        r.clock.at == (Moment { nanos: 0 }),
        forall|at: nat, audience: AudienceView| #[trigger]
            (r@.world.tokens)(at, audience) == Ok::<Seq<char>, FailureView>(
                counted_token(audience, at + 1),
            ),
        r@.world.home is None,
        forall|at: nat, request: RequestView| #[trigger]
            (r@.world.replies)(at, request) == if at < answers@.len() {
                Ok::<ResponseView, Seq<char>>(answers@[at as int]@)
            } else {
                Err("the fake transport ran out of answers at "@ + request.url)
            },
        forall|look: nat| #[trigger] (r@.world.times)(look) == (Moment { nanos: 0 }),
        r@.requests.len() == 0,
        r@.minted.len() == 0,
        r@.looks == 0,
        r@.waits.len() == 0,
        r@.cached.len() == 0,
        r@.refresh_tokens.len() == 0,
        r@.tenant is None,
        r@.throttled is None,
{
    Client::new(
        FixedTokens::new(),
        FakeTransport::answering(answers),
        Waits::standing_at(Moment { nanos: 0 }),
    )
}

} // verus!
