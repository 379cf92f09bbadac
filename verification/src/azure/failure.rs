//! What goes wrong between here and Azure, kept apart by what it means.

use vstd::prelude::*;

use super::auth::{first_line, leading_line};
use super::json::{as_str, field_of, first_of, held, json_of, Json, JsonView};
use crate::text::{
    chars_of, decimal, equal_ignoring_case, join, joined, number, same, slice_text, texts,
    trim, trimmed,
};

verus! {

/// A plane refused, and said why in its own words.
///
/// Carried as a type rather than a formatted string so a caller can ask what
/// the status and the code were without parsing the message back apart —
/// which is how "a `403` naming `ForbiddenByFirewall`" gets told from "a `403`
/// naming nothing" a few frames later.
#[derive(Debug)]
pub struct ApiError {
    pub status: u16,
    pub url: String,
    /// `error.code`, its `innererror.code`, and a registry's `errors[0].code`
    /// — whichever of the three the body carried.
    pub codes: Vec<String>,
    pub message: String,
}

pub struct ApiErrorView {
    pub status: u16,
    pub url: Seq<char>,
    pub codes: Seq<Seq<char>>,
    pub message: Seq<char>,
}

impl View for ApiError {
    type V = ApiErrorView;

    open spec fn view(&self) -> ApiErrorView {
        ApiErrorView {
            status: self.status,
            url: self.url@,
            codes: texts(self.codes@),
            message: self.message@,
        }
    }
}

impl ApiErrorView {
    pub open spec fn names(self, code: Seq<char>) -> bool {
        exists|i: int| 0 <= i < self.codes.len() && same(#[trigger] self.codes[i], code)
    }

    pub open spec fn said(self) -> Seq<char> {
        self.url + " answered "@ + decimal(self.status as nat) + ": "@ + self.message
    }
}

impl ApiError {
    #[must_use]
    pub fn has_code(&self, code: &str) -> (r: bool)
        ensures
            r == self@.names(code@),
    {
        let mut i: usize = 0;
        while i < self.codes.len()
            invariant
                i <= self.codes@.len(),
                forall|k: int| 0 <= k < i ==> !same(#[trigger] self@.codes[k], code@),
            decreases self.codes@.len() - i,
        {
            if equal_ignoring_case(self.codes[i].as_str(), code) {
                proof {
                    assert(same(self@.codes[i as int], code@));
                }
                return true;
            }
            i = i + 1;
        }
        false
    }

    /// What a person is shown.
    #[must_use]
    pub fn printed(&self) -> (r: String)
        ensures
            r@ == self@.said(),
    {
        let mut text = self.url.clone();
        text.push_str(" answered ");
        text.push_str(number(self.status as u64).as_str());
        text.push_str(": ");
        text.push_str(self.message.as_str());
        text
    }
}

/// What is at the bottom of a failure.
#[derive(Debug)]
pub enum Cause {
    /// The credentials are spent rather than the request being wrong: stop
    /// the refresh and tell the user to sign in, rather than mark one vault
    /// bad and carry on.
    SignedOut,
    /// There is no login at all: `az` would not mint a token.
    ///
    /// Told apart from the spent credentials because they mean different
    /// things to a registry. A registry answering `401` means this login has
    /// no role on it, which is worth naming the role for; `az` answering
    /// nothing means there is no login to have a role, which is worth naming
    /// `az login` for.
    NoLogin,
    Api(ApiError),
    Other,
}

pub enum CauseView {
    SignedOut,
    NoLogin,
    Api(ApiErrorView),
    Other,
}

impl View for Cause {
    type V = CauseView;

    open spec fn view(&self) -> CauseView {
        match self {
            Cause::SignedOut => CauseView::SignedOut,
            Cause::NoLogin => CauseView::NoLogin,
            Cause::Api(refusal) => CauseView::Api(refusal@),
            Cause::Other => CauseView::Other,
        }
    }
}

/// One failure: what it says, the newest explanation first, and what it was
/// at bottom.
#[derive(Debug)]
pub struct Failure {
    pub text: String,
    pub cause: Cause,
}

pub struct FailureView {
    pub text: Seq<char>,
    pub cause: CauseView,
}

impl View for Failure {
    type V = FailureView;

    open spec fn view(&self) -> FailureView {
        FailureView { text: self.text@, cause: self.cause@ }
    }
}

/// What a person is shown when nobody is signed in.
pub const SIGNED_OUT: &'static str = "not signed in — run `az login`";

impl FailureView {
    pub open spec fn signed_out(text: Seq<char>) -> Self {
        FailureView { text, cause: CauseView::SignedOut }
    }

    pub open spec fn no_login(text: Seq<char>) -> Self {
        FailureView { text, cause: CauseView::NoLogin }
    }

    pub open spec fn refused(refusal: ApiErrorView) -> Self {
        FailureView { text: refusal.said(), cause: CauseView::Api(refusal) }
    }

    pub open spec fn other(text: Seq<char>) -> Self {
        FailureView { text, cause: CauseView::Other }
    }

    /// With an explanation put in front.
    pub open spec fn explained(self, why: Seq<char>) -> Self {
        FailureView { text: why + ": "@ + self.text, ..self }
    }

    /// Whether the run cannot go on until somebody signs in.
    pub open spec fn needs_a_login(self) -> bool {
        self.cause is SignedOut || self.cause is NoLogin
    }

    /// What a person is shown.
    pub open spec fn shown(self) -> Seq<char> {
        if self.needs_a_login() {
            let reason = leading_line(self.text);
            if reason.len() == 0 {
                SIGNED_OUT@
            } else {
                SIGNED_OUT@ + " ("@ + reason + ")"@
            }
        } else {
            self.text
        }
    }
}

impl Failure {
    #[must_use]
    pub fn signed_out(text: String) -> (r: Self)
        ensures
            r@ == FailureView::signed_out(text@),
    {
        Failure { text, cause: Cause::SignedOut }
    }

    #[must_use]
    pub fn no_login(text: String) -> (r: Self)
        ensures
            r@ == FailureView::no_login(text@),
    {
        Failure { text, cause: Cause::NoLogin }
    }

    #[must_use]
    pub fn refused(refusal: ApiError) -> (r: Self)
        ensures
            r@ == FailureView::refused(refusal@),
    {
        Failure { text: refusal.printed(), cause: Cause::Api(refusal) }
    }

    #[must_use]
    pub fn other(text: String) -> (r: Self)
        ensures
            r@ == FailureView::other(text@),
    {
        Failure { text, cause: Cause::Other }
    }

    /// The failure with an explanation put in front.
    #[must_use]
    pub fn context(self, why: &str) -> (r: Self)
        ensures
            r@ == self@.explained(why@),
    {
        let mut text = why.to_owned();
        text.push_str(": ");
        text.push_str(self.text.as_str());
        Failure { text, cause: self.cause }
    }
}

/// Whether there is no login at all.
#[must_use]
pub fn is_no_login(error: &Failure) -> (r: bool)
    ensures
        r == (error@.cause is NoLogin),
{
    match &error.cause {
        Cause::NoLogin => true,
        _ => false,
    }
}

/// True when this failure means the run cannot go on until somebody signs in —
/// either plane's way of saying so.
#[must_use]
pub fn is_signed_out(error: &Failure) -> (r: bool)
    ensures
        r == error@.needs_a_login(),
{
    match &error.cause {
        Cause::SignedOut | Cause::NoLogin => true,
        _ => false,
    }
}

/// The refusal this failure carries, if it is one.
#[must_use]
pub fn api_error(error: &Failure) -> (r: Option<&ApiError>)
    ensures
        match error@.cause {
            CauseView::Api(refusal) => r matches Some(held) && held@ == refusal,
            _ => r is None,
        },
{
    match &error.cause {
        Cause::Api(refusal) => Some(refusal),
        _ => None,
    }
}

/// What a person is shown for one failure.
///
/// A signed-out login is the one refusal worth rewording: the CLI answers it
/// with five lines of its own stack, and what a person needs is the two words
/// that fix it, with the first of those lines behind them. The status bar and
/// the subcommands' errors both go through here, so they say the same thing.
#[must_use]
pub fn said(error: &Failure) -> (r: String)
    ensures
        r@ == error@.shown(),
{
    if is_signed_out(error) {
        let reason = first_line(error.text.as_str());
        let mut text = SIGNED_OUT.to_owned();
        if !reason.as_str().is_empty() {
            text.push_str(" (");
            text.push_str(reason.as_str());
            text.push_str(")");
        }
        text
    } else {
        error.text.clone()
    }
}

// ---------------------------------------------------------------------------
// What a refusal's body says
// ---------------------------------------------------------------------------

/// The texts under one key of each item that has one.
pub open spec fn texts_under(items: Seq<JsonView>, key: Seq<char>) -> Seq<Seq<char>>
    decreases items.len(),
{
    if items.len() == 0 {
        Seq::empty()
    } else {
        let before = texts_under(items.drop_last(), key);
        match items.last().member(key).text() {
            Some(text) => before.push(text),
            None => before,
        }
    }
}

/// What a body that may not be a document holds.
pub open spec fn parsed(text: Seq<char>) -> JsonView {
    match json_of(text) {
        Ok(document) => document,
        Err(_) => JsonView::Null,
    }
}

/// The reason a refusal's body gives, in the first of the places a plane
/// writes one.
pub open spec fn reason_in(document: JsonView) -> Option<Seq<char>> {
    match document.member("error"@).member("message"@).text() {
        Some(text) => Some(text),
        None => match document.member("errors"@).first().member("message"@).text() {
            Some(text) => Some(text),
            None => document.member("message"@).text(),
        },
    }
}

/// What a plane says when it refuses: the reason and the details, or the front
/// of the body.
pub open spec fn refusal_said(document: JsonView, text: Seq<char>) -> Seq<char> {
    let details = texts_under(
        document.member("error"@).member("details"@).items(),
        "message"@,
    );
    match reason_in(document) {
        Some(reason) => if details.len() == 0 {
            reason
        } else {
            reason + " \u{2014} "@ + joined(details, "; "@)
        },
        None => front(trimmed(text)),
    }
}

/// The first two hundred characters.
pub open spec fn front(text: Seq<char>) -> Seq<char> {
    if text.len() > 200 {
        text.take(200)
    } else {
        text
    }
}

/// The codes a refusal's body names.
pub open spec fn codes_in(document: JsonView) -> Seq<Seq<char>> {
    let error = document.member("error"@);
    some_of(error.member("code"@)) + some_of(error.member("innererror"@).member("code"@)) + some_of(
        document.member("errors"@).first().member("code"@),
    )
}

pub open spec fn some_of(value: JsonView) -> Seq<Seq<char>> {
    match value.text() {
        Some(text) => seq![text],
        None => Seq::empty(),
    }
}

fn details_of(value: Option<&Json>) -> (r: Vec<String>)
    ensures
        texts(r@) == texts_under(held(value).items(), "message"@),
{
    let mut out: Vec<String> = Vec::new();
    proof {
        assert(texts(out@) =~= Seq::<Seq<char>>::empty());
    }
    let items = match value {
        Some(value) => match value.items() {
            Some(items) => items,
            None => return out,
        },
        None => return out,
    };
    let ghost all = held(value).items();
    proof {
        assert(all.take(0) =~= Seq::<JsonView>::empty());
    }
    let mut i: usize = 0;
    while i < items.len()
        invariant
            i <= items@.len(),
            all.len() == items@.len(),
            forall|k: int| 0 <= k < items@.len() ==> (#[trigger] items@[k])@ == all[k],
            texts(out@) == texts_under(all.take(i as int), "message"@),
        decreases items@.len() - i,
    {
        proof {
            assert(all.take(i + 1).drop_last() =~= all.take(i as int));
            assert(items@[i as int]@ == all[i as int]);
        }
        if let Some(message) = as_str(items[i].get("message")) {
            let ghost before = out@;
            out.push(message.to_owned());
            proof {
                assert(texts(out@) =~= texts(before).push(message@));
            }
        }
        i = i + 1;
    }
    proof {
        assert(all.take(all.len() as int) =~= all);
    }
    out
}

/// What a parsed refusal says, its body beside it.
#[must_use]
pub fn message_in(document: Option<&Json>, text: &str) -> (r: String)
    ensures
        r@ == refusal_said(held(document), text@),
{
    let error = field_of(document, "error");
    // ARM puts the reason a person can act on under `error.details` and a
    // stub about correlation ids in `error.message`; both are said.
    let details = details_of(field_of(error, "details"));
    let reason = match as_str(field_of(error, "message")) {
        Some(reason) => Some(reason),
        None => match as_str(
            field_of(first_of(field_of(document, "errors")), "message"),
        ) {
            Some(reason) => Some(reason),
            None => as_str(field_of(document, "message")),
        },
    };
    proof {
        assert(texts(details@).len() == details@.len());
    }
    match reason {
        Some(reason) => {
            let mut said = reason.to_owned();
            if details.len() > 0 {
                said.push_str(" \u{2014} ");
                said.push_str(join(&details, "; ").as_str());
            }
            said
        },
        None => {
            let held = trim(text);
            let chars = chars_of(held.as_str());
            if chars.len() > 200 {
                slice_text(&chars, 0, 200)
            } else {
                held
            }
        },
    }
}

fn push_text(out: &mut Vec<String>, value: Option<&Json>)
    ensures
        texts(final(out)@) == texts(old(out)@) + some_of(held(value)),
{
    let ghost before = out@;
    if let Some(text) = as_str(value) {
        out.push(text.to_owned());
        proof {
            assert(texts(out@) =~= texts(before) + seq![text@]);
        }
    } else {
        proof {
            assert(texts(out@) =~= texts(before) + Seq::<Seq<char>>::empty());
        }
    }
}

/// The codes a parsed refusal names.
#[must_use]
pub fn codes_of(document: Option<&Json>) -> (r: Vec<String>)
    ensures
        texts(r@) == codes_in(held(document)),
{
    let mut out: Vec<String> = Vec::new();
    let error = field_of(document, "error");
    proof {
        assert(texts(out@) =~= Seq::<Seq<char>>::empty());
    }
    push_text(&mut out, field_of(error, "code"));
    push_text(&mut out, field_of(field_of(error, "innererror"), "code"));
    push_text(&mut out, field_of(first_of(field_of(document, "errors")), "code"));
    proof {
        assert(texts(out@) =~= codes_in(held(document)));
    }
    out
}

/// What a plane says when it refuses. ARM and Key Vault write the reason under
/// `error.message`, a registry under `errors[0].message`, and anything else is
/// worth the front of its body rather than nothing.
#[must_use]
pub fn failure_message(text: &str) -> (r: String)
    ensures
        r@ == refusal_said(parsed(text@), text@),
{
    match Json::parse(text) {
        Ok(document) => message_in(Some(&document), text),
        Err(_) => message_in(None, text),
    }
}

/// The code a plane refused with, when it wrote one: `error.code`, or a
/// registry's `errors[0].code`. The inner code is where Key Vault says *why* a
/// `403` happened, so it is read too.
#[must_use]
pub fn failure_codes(text: &str) -> (r: Vec<String>)
    ensures
        texts(r@) == codes_in(parsed(text@)),
{
    match Json::parse(text) {
        Ok(document) => codes_of(Some(&document)),
        Err(_) => codes_of(None),
    }
}

} // verus!
