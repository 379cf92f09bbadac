//! What the client promises of every call.

use vstd::prelude::*;

use super::auth::AudienceView;
use super::encode::is_host_under;
use super::transport::{cached_under, without_key, ClientView, RequestView};
use super::waits::{law_a_wait_is_kept_within_bounds, MAX_RETRY_AFTER, MIN_RETRY_AFTER};

verus! {

/// Whether a client has only gone on from where another was: what its seams
/// answer is the same, and what had been done stands.
pub open spec fn goes_on(before: ClientView, after: ClientView) -> bool {
    &&& after.world == before.world
    &&& before.requests.is_prefix_of(after.requests)
    &&& before.minted.is_prefix_of(after.minted)
    &&& before.waits.is_prefix_of(after.waits)
}

/// A request is sent once, or twice where the first answer was a throttle; it
/// is the same request both times, and there is one wait between them, no
/// shorter and no longer than a wait may be. No token is minted or forgotten.
pub proof fn law_a_throttle_is_waited_out_once(client: ClientView, request: RequestView)
    ensures
        ({
            let then = client.attempted(request).0;
            &&& goes_on(client, then)
            &&& client.requests.len() < then.requests.len() <= client.requests.len() + 2
            &&& forall|i: int|
                client.requests.len() <= i < then.requests.len() ==> (#[trigger] then.requests[i])
                    == request
            &&& then.waits.len() - client.waits.len() == then.requests.len()
                - client.requests.len() - 1
            &&& then.waits.len() > client.waits.len() ==> MIN_RETRY_AFTER <= then.waits.last()
                <= MAX_RETRY_AFTER
            &&& then.minted == client.minted
            &&& then.cached == client.cached
            &&& then.refresh_tokens == client.refresh_tokens
            &&& then.tenant == client.tenant
        }),
{
    reveal(ClientView::attempted);
    let (one, first) = client.sent(request);
    if let Ok(response) = first {
        law_a_wait_is_kept_within_bounds(
            response.headers,
            None,
            (one.world.times)(one.looks),
        );
    }
}

/// A token of the CLI's is minted once and then read from the cache.
pub proof fn law_a_token_is_minted_once(client: ClientView, audience: AudienceView)
    ensures
        ({
            let (then, token) = client.plain_token(audience);
            &&& goes_on(client, then)
            &&& then.requests == client.requests
            &&& then.minted.len() <= client.minted.len() + 1
            &&& token is Ok ==> then.plain_token(audience) == (then, token)
        }),
{
    reveal(ClientView::plain_token);
}

/// Whether every request from a place on is one request, signed with some
/// token.
pub open spec fn all_signed(requests: Seq<RequestView>, from: int, request: RequestView) -> bool {
    forall|i: int|
        from <= i < requests.len() ==> (#[trigger] requests[i]).bearer is Some && requests[i]
            == request.signed(requests[i].bearer->0)
}

/// A call signed by the CLI makes one request, or the same one again with a
/// fresh token where the first was spent; each may be waited out once. It
/// never makes more, and never another.
pub proof fn law_a_spent_token_is_worth_one_more(
    client: ClientView,
    audience: AudienceView,
    request: RequestView,
)
    requires
        !(audience is Acr),
    ensures
        ({
            let then = client.called(audience, request).0;
            &&& goes_on(client, then)
            &&& then.requests.len() <= client.requests.len() + 4
            &&& then.minted.len() <= client.minted.len() + 2
            &&& all_signed(then.requests, client.requests.len() as int, request)
        }),
{
    reveal(ClientView::called);
    reveal(ClientView::token_of);
    reveal(ClientView::forgetting);
    let (signed, token) = client.token_of(audience);
    law_a_token_is_minted_once(client, audience);
    if let Ok(token) = token {
        law_a_throttle_is_waited_out_once(signed, request.signed(token));
    }
    let (one, first) = client.tried(audience, request);
    let forgot = one.forgetting(audience);
    law_a_token_is_minted_once(forgot, audience);
    let (two, again) = forgot.token_of(audience);
    lemma_goes_on(client, signed, one);
    assert(all_signed(one.requests, client.requests.len() as int, request));
    if let Ok(token) = again {
        law_a_throttle_is_waited_out_once(two, request.signed(token));
        let last = two.attempted(request.signed(token)).0;
        lemma_goes_on(client, one, two);
        lemma_goes_on(client, two, last);
        assert forall|i: int| client.requests.len() <= i < last.requests.len() implies (
        #[trigger] last.requests[i]).bearer is Some && last.requests[i] == request.signed(
            last.requests[i].bearer->0,
        ) by {
            if i < two.requests.len() {
                assert(last.requests[i] == two.requests[i]);
                assert(two.requests[i] == one.requests[i]);
            }
        }
    } else {
        lemma_goes_on(client, one, two);
    }
}

/// Going on twice is going on.
pub proof fn lemma_goes_on(a: ClientView, b: ClientView, c: ClientView)
    requires
        goes_on(a, b),
        goes_on(b, c),
    ensures
        goes_on(a, c),
{
    assert(a.requests =~= c.requests.subrange(0, a.requests.len() as int));
    assert(a.minted =~= c.minted.subrange(0, a.minted.len() as int));
    assert(a.waits =~= c.waits.subrange(0, a.waits.len() as int));
}

/// A missing login is not retried.
pub proof fn law_a_missing_login_is_not_retried(
    client: ClientView,
    audience: AudienceView,
    request: RequestView,
)
    requires
        client.tried(audience, request).1 matches Err(failure) && failure.cause is NoLogin,
    ensures
        client.called(audience, request) == client.tried(audience, request),
{
    reveal(ClientView::called);
}

/// No token is sent, and nothing else, to a host that is not a registry's.
pub proof fn law_nothing_is_sent_to_a_host_that_is_no_registry(
    client: ClientView,
    login_server: Seq<char>,
    scope: Seq<char>,
    request: RequestView,
)
    requires
        !is_host_under(login_server, ".azurecr.io"@),
        cached_under(
            client.cached,
            (AudienceView::Acr { login_server, scope }).key_text(),
        ) is None,
    ensures
        client.called(AudienceView::Acr { login_server, scope }, request).0 == client,
        client.called(AudienceView::Acr { login_server, scope }, request).1 is Err,
{
    reveal(ClientView::called);
    reveal(ClientView::token_of);
    reveal(ClientView::registry_token);
}

proof fn lemma_without_key(pairs: Seq<(Seq<char>, Seq<char>)>, key: Seq<char>, other: Seq<char>)
    ensures
        cached_under(without_key(pairs, key), key) is None,
        cached_under(pairs, other) is None ==> cached_under(without_key(pairs, key), other) is None,
    decreases pairs.len(),
{
    if pairs.len() > 0 {
        lemma_without_key(pairs.drop_last(), key, other);
        let rest = without_key(pairs.drop_last(), key);
        if pairs.last().0 != key {
            assert(rest.push(pairs.last()).drop_last() =~= rest);
        }
    }
}

/// Forgetting a registry's token forgets the whole chain: the access token, the
/// refresh token it was traded for, and the CLI token that was traded for that.
pub proof fn law_forgetting_forgets_the_whole_chain(
    client: ClientView,
    login_server: Seq<char>,
    scope: Seq<char>,
)
    ensures
        ({
            let audience = AudienceView::Acr { login_server, scope };
            let then = client.forgetting(audience);
            &&& cached_under(then.cached, audience.key_text()) is None
            &&& cached_under(then.cached, AudienceView::ContainerRegistry.key_text()) is None
            &&& cached_under(then.refresh_tokens, login_server) is None
        }),
{
    reveal(ClientView::forgetting);
    let audience = AudienceView::Acr { login_server, scope };
    let cli = AudienceView::ContainerRegistry.key_text();
    lemma_without_key(client.cached, audience.key_text(), cli);
    lemma_without_key(
        without_key(client.cached, audience.key_text()),
        cli,
        audience.key_text(),
    );
    lemma_without_key(client.refresh_tokens, login_server, login_server);
}

/// A registry's refresh token is traded for once, however many scopes are asked
/// for after it: with one on file, a token for another scope takes one post.
pub proof fn law_the_exchange_runs_once_per_registry(
    client: ClientView,
    login_server: Seq<char>,
    scope: Seq<char>,
)
    requires
        cached_under(client.refresh_tokens, login_server) is Some,
    ensures
        ({
            let then = client.registry_token(login_server, scope).0;
            &&& goes_on(client, then)
            &&& then.minted == client.minted
            &&& then.requests.len() <= client.requests.len() + 2
            &&& forall|i: int|
                client.requests.len() <= i < then.requests.len() ==> (
                #[trigger] then.requests[i]).url == "https://"@ + login_server + "/oauth2/token"@
                    && then.requests[i].bearer is None
        }),
{
    reveal(ClientView::registry_token);
    reveal(ClientView::refreshed);
    let token = cached_under(client.refresh_tokens, login_server)->0;
    law_a_throttle_is_waited_out_once(
        client,
        RequestView::post_form(
            "https://"@ + login_server + "/oauth2/token"@,
            super::transport::token_fields(login_server, scope, token),
        ),
    );
}

/// A second refusal is reported as a signed-out login, in the words the service
/// wrote.
pub proof fn law_a_second_refusal_is_a_signed_out_login(
    url: Seq<char>,
    response: super::transport::ResponseView,
)
    requires
        response.status == 401,
    ensures
        super::transport::answer_said(url, response) matches Err(failure) && failure.cause
            is SignedOut && failure.needs_a_login() && crate::text::begins(
            failure.shown(),
            super::failure::SIGNED_OUT@,
        ),
{
    if let Err(failure) = super::transport::answer_said(url, response) {
        let words = super::failure::SIGNED_OUT@;
        assert(failure.shown().subrange(0, words.len() as int) =~= words);
    }
}

} // verus!
