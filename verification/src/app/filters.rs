//! What a search box promises of each table: which cell each filter looks in,
//! where each word is looked for, and which rows are left.

use vstd::prelude::*;

use super::list::{has_key, images, keys_said, row_answers, ListView, Row, Sorted};
use super::listing::{left_by, shown_rows, OrderKey, RowsView, Searchable};
use super::registries::{
    self, repository_keys, tag_answers, tag_answers_all, tag_keys, tag_searched, RegistriesView,
    RepositoryTable, TagTable,
};
use super::secrets::{self, known_keys, tags_said, SecretTable, SecretsView, VaultOrder};
use crate::azure::{Repository, SecretRow, Tag};
use crate::columns::ColumnId;
use crate::filter::{mentions, mentions_all, pairs, tagged, Env, QueryView, When};
use crate::input::InputView;
use crate::kube::{ConfigMap, Container, K8sEvent, Pod, SecretMeta};
use crate::order::{law_the_order_is_in_order, the_order};
use crate::plain::{
    appears, law_a_mention_is_an_appearance, law_the_same_name_has_the_same_letters,
    lemma_appears_in_either, no_colons, same_letters,
};
use crate::store::AzureStore;
use crate::timestamp::Timestamp;

verus! {

// ---------------------------------------------------------------------------
// What a value says
// ---------------------------------------------------------------------------

/// Whether a text says yes.
pub open spec fn says_yes(value: Seq<char>) -> bool {
    same_letters(value, "y"@) || same_letters(value, "yes"@) || same_letters(value, "true"@)
}

/// Whether a text says no.
pub open spec fn says_no(value: Seq<char>) -> bool {
    same_letters(value, "n"@) || same_letters(value, "no"@) || same_letters(value, "false"@)
}

/// Whether a name is of an environment: it holds its letters, and those of no
/// environment that comes before it.
pub open spec fn is_of(name: Seq<char>, env: Env) -> bool {
    match env {
        Env::Dev => appears("dev"@, name),
        Env::Qa => appears("qa"@, name) && !appears("dev"@, name),
        Env::Prod => appears("prod"@, name) && !appears("qa"@, name) && !appears("dev"@, name),
    }
}

/// A name is of the environment whose letters it holds, the first of them
/// where it holds several, and of none where it holds none.
pub proof fn law_a_name_is_of_the_environment_it_holds(name: Seq<char>)
    ensures
        forall|env: Env| Env::named_in(name) == Some(env) <==> #[trigger] is_of(name, env),
        Env::named_in(name) is None <==> !appears("dev"@, name) && !appears("qa"@, name)
            && !appears("prod"@, name),
{
    law_a_mention_is_an_appearance(name, "dev"@);
    law_a_mention_is_an_appearance(name, "qa"@);
    law_a_mention_is_an_appearance(name, "prod"@);
}

proof fn lemma_yes_and_no(value: Seq<char>)
    ensures
        crate::filter::boolean_of(value) == Some(true) <==> says_yes(value),
        crate::filter::boolean_of(value) == Some(false) <==> says_no(value) && !says_yes(value),
        crate::filter::boolean_of(value) is None <==> !says_yes(value) && !says_no(value),
{
    reveal_strlit("y");
    reveal_strlit("yes");
    reveal_strlit("true");
    reveal_strlit("n");
    reveal_strlit("no");
    reveal_strlit("false");
    lemma_small("y"@);
    lemma_small("yes"@);
    lemma_small("true"@);
    lemma_small("n"@);
    lemma_small("no"@);
    lemma_small("false"@);
    law_the_same_name_has_the_same_letters(value, "y"@);
    law_the_same_name_has_the_same_letters(value, "yes"@);
    law_the_same_name_has_the_same_letters(value, "true"@);
    law_the_same_name_has_the_same_letters(value, "n"@);
    law_the_same_name_has_the_same_letters(value, "no"@);
    law_the_same_name_has_the_same_letters(value, "false"@);
}

/// A text of small letters is its own.
proof fn lemma_small(s: Seq<char>)
    requires
        forall|i: int| 0 <= i < s.len() ==> 'a' <= #[trigger] s[i] <= 'z',
    ensures
        crate::text::lower(s) == s,
{
    assert(crate::text::lower(s) =~= s);
}

// ---------------------------------------------------------------------------
// Vault secrets
// ---------------------------------------------------------------------------

proof fn lemma_one_field(row: SecretRow, key: Seq<char>, value: Seq<char>, now: Timestamp)
    ensures
        secrets::answers_all(row@, seq![(key, value)], now) == secrets::answers(
            row@,
            key,
            value,
            now,
        ),
{
    let fields = seq![(key, value)];
    assert(fields[0] == (key, value));
}

proof fn lemma_secret_keys()
    ensures
        "env"@ != "vault"@ && "env"@ != "name"@ && "env"@ != "type"@ && "env"@ != "enabled"@ && "env"@
            != "managed"@ && "env"@ != "expires"@ && "env"@ != "tag"@,
        "vault"@ != "name"@ && "vault"@ != "type"@ && "vault"@ != "enabled"@ && "vault"@
            != "managed"@ && "vault"@ != "expires"@ && "vault"@ != "tag"@,
        "name"@ != "type"@ && "name"@ != "enabled"@ && "name"@ != "managed"@ && "name"@
            != "expires"@ && "name"@ != "tag"@,
        "type"@ != "enabled"@ && "type"@ != "managed"@ && "type"@ != "expires"@ && "type"@
            != "tag"@,
        "enabled"@ != "managed"@ && "enabled"@ != "expires"@ && "enabled"@ != "tag"@,
        "managed"@ != "expires"@ && "managed"@ != "tag"@ && "expires"@ != "tag"@,
{
    reveal_strlit("env");
    reveal_strlit("vault");
    reveal_strlit("name");
    reveal_strlit("type");
    reveal_strlit("enabled");
    reveal_strlit("managed");
    reveal_strlit("expires");
    reveal_strlit("tag");
    assert("env"@.len() == 3 && "env"@[0] == 'e' && "env"@[1] == 'n');
    assert("vault"@.len() == 5 && "vault"@[0] == 'v' && "vault"@[1] == 'a');
    assert("name"@.len() == 4 && "name"@[0] == 'n' && "name"@[1] == 'a');
    assert("type"@.len() == 4 && "type"@[0] == 't' && "type"@[1] == 'y');
    assert("enabled"@.len() == 7 && "enabled"@[0] == 'e' && "enabled"@[1] == 'n');
    assert("managed"@.len() == 7 && "managed"@[0] == 'm' && "managed"@[1] == 'a');
    assert("expires"@.len() == 7 && "expires"@[0] == 'e' && "expires"@[1] == 'x');
    assert("tag"@.len() == 3 && "tag"@[0] == 't' && "tag"@[1] == 'a');
}

/// Each filter of the Secrets table looks in the one cell it names: `vault:`
/// in the vault, `name:` in the name, `type:` in the content type, `tag:` in
/// each tag as it is written, without regard to case.
pub proof fn law_a_secret_is_found_by_its_own_cells(row: SecretRow, value: Seq<char>, now: Timestamp)
    ensures
        secrets::answers_all(row@, seq![("vault"@, value)], now) <==> appears(value, row.vault@),
        secrets::answers_all(row@, seq![("name"@, value)], now) <==> appears(value, row.name@),
        secrets::answers_all(row@, seq![("type"@, value)], now) <==> (row.content_type matches Some(
            held,
        ) && appears(value, held@)),
        secrets::answers_all(row@, seq![("tag"@, value)], now) <==> exists|i: int|
            0 <= i < row.tags@.len() && appears(
                value,
                (#[trigger] row.tags@[i]).0@ + "="@ + row.tags@[i].1@,
            ),
{
    lemma_secret_keys();
    lemma_one_field(row, "vault"@, value, now);
    lemma_one_field(row, "name"@, value, now);
    lemma_one_field(row, "type"@, value, now);
    lemma_one_field(row, "tag"@, value, now);
    law_a_mention_is_an_appearance(row.vault@, value);
    law_a_mention_is_an_appearance(row.name@, value);
    if let Some(held) = row.content_type {
        law_a_mention_is_an_appearance(held@, value);
    }
    let tags = pairs(row.tags@);
    assert forall|i: int| 0 <= i < tags.len() implies mentions(
        (#[trigger] tags[i]).0 + "="@ + tags[i].1,
        value,
    ) == appears(value, row.tags@[i].0@ + "="@ + row.tags@[i].1@) by {
        law_a_mention_is_an_appearance(row.tags@[i].0@ + "="@ + row.tags@[i].1@, value);
    }
    if tagged(tags, value) {
        let i = choose|i: int|
            0 <= i < tags.len() && mentions((#[trigger] tags[i]).0 + "="@ + tags[i].1, value);
        assert(appears(value, row.tags@[i].0@ + "="@ + row.tags@[i].1@));
    }
    if exists|i: int|
        0 <= i < row.tags@.len() && appears(
            value,
            (#[trigger] row.tags@[i]).0@ + "="@ + row.tags@[i].1@,
        ) {
        let i = choose|i: int|
            0 <= i < row.tags@.len() && appears(
                value,
                (#[trigger] row.tags@[i]).0@ + "="@ + row.tags@[i].1@,
            );
        assert(mentions(tags[i].0 + "="@ + tags[i].1, value));
    }
}

/// `enabled:` and `managed:` go by the row's own flags, and say nothing until
/// the value is a yes or a no; `env:` goes by the environment that the vault's
/// name is of, and says nothing until the value names one.
pub proof fn law_a_secret_is_found_by_its_own_flags(row: SecretRow, value: Seq<char>, now: Timestamp)
    ensures
        says_yes(value) ==> (secrets::answers_all(row@, seq![("enabled"@, value)], now)
            <==> row.enabled),
        says_no(value) && !says_yes(value) ==> (secrets::answers_all(
            row@,
            seq![("enabled"@, value)],
            now,
        ) <==> !row.enabled),
        says_yes(value) ==> (secrets::answers_all(row@, seq![("managed"@, value)], now)
            <==> row.managed),
        says_no(value) && !says_yes(value) ==> (secrets::answers_all(
            row@,
            seq![("managed"@, value)],
            now,
        ) <==> !row.managed),
        !says_yes(value) && !says_no(value) ==> secrets::answers_all(
            row@,
            seq![("enabled"@, value)],
            now,
        ) && secrets::answers_all(row@, seq![("managed"@, value)], now),
        forall|env: Env| #[trigger]
            is_of(value, env) ==> (secrets::answers_all(row@, seq![("env"@, value)], now) <==> is_of(
                row.vault@,
                env,
            )),
        (forall|env: Env| !(#[trigger] is_of(value, env))) ==> secrets::answers_all(
            row@,
            seq![("env"@, value)],
            now,
        ),
{
    lemma_secret_keys();
    lemma_one_field(row, "enabled"@, value, now);
    lemma_one_field(row, "managed"@, value, now);
    lemma_one_field(row, "env"@, value, now);
    lemma_yes_and_no(value);
    law_a_name_is_of_the_environment_it_holds(value);
    law_a_name_is_of_the_environment_it_holds(row.vault@);
    if let Some(env) = Env::named_in(value) {
        assert(is_of(value, env));
        assert(is_of(row.vault@, env) <==> Env::named_in(row.vault@) == Some(env));
    }
}

/// `expires:` goes by the row's own expiry.
pub proof fn law_a_secret_is_found_by_its_expiry(row: SecretRow, value: Seq<char>, now: Timestamp)
    ensures
        When::of(value) matches Some(bound) ==> (secrets::answers_all(
            row@,
            seq![("expires"@, value)],
            now,
        ) <==> bound.reached(row.expires, now)),
        When::of(value) is None ==> secrets::answers_all(row@, seq![("expires"@, value)], now),
{
    lemma_secret_keys();
    lemma_one_field(row, "expires"@, value, now);
}

/// A row has to answer every filter, each as it would alone; with none it
/// passes.
pub proof fn law_a_secret_answers_every_filter(
    row: SecretRow,
    a: Seq<(Seq<char>, Seq<char>)>,
    b: Seq<(Seq<char>, Seq<char>)>,
    now: Timestamp,
)
    ensures
        secrets::answers_all(row@, a + b, now) <==> secrets::answers_all(row@, a, now)
            && secrets::answers_all(row@, b, now),
        secrets::answers_all(row@, Seq::empty(), now),
{
    let both = a + b;
    if secrets::answers_all(row@, both, now) {
        assert forall|i: int| 0 <= i < a.len() implies secrets::answers(
            row@,
            (#[trigger] a[i]).0,
            a[i].1,
            now,
        ) by {
            assert(both[i] == a[i]);
        }
        assert forall|i: int| 0 <= i < b.len() implies secrets::answers(
            row@,
            (#[trigger] b[i]).0,
            b[i].1,
            now,
        ) by {
            assert(both[a.len() + i] == b[i]);
        }
    }
    if secrets::answers_all(row@, a, now) && secrets::answers_all(row@, b, now) {
        assert forall|i: int| 0 <= i < both.len() implies secrets::answers(
            row@,
            (#[trigger] both[i]).0,
            both[i].1,
            now,
        ) by {
            if i < a.len() {
                assert(both[i] == a[i]);
            } else {
                assert(both[i] == b[i - a.len()]);
            }
        }
    }
}

proof fn lemma_tags_said(word: Seq<char>, head: Seq<char>, tags: Seq<(Seq<char>, Seq<char>)>)
    requires
        word.len() > 0,
        forall|k: int| 0 <= k < word.len() ==> #[trigger] word[k] != ' ',
    ensures
        appears(word, head + tags_said(tags)) <==> appears(word, head) || exists|i: int|
            0 <= i < tags.len() && appears(word, (#[trigger] tags[i]).0 + "="@ + tags[i].1),
    decreases tags.len(),
{
    if tags.len() == 0 {
        assert(head + tags_said(tags) =~= head);
    } else {
        let before = tags.drop_last();
        let last = tags.last().0 + "="@ + tags.last().1;
        lemma_tags_said(word, head, before);
        assert(head + tags_said(tags) =~= (head + tags_said(before)) + " "@ + last);
        lemma_appears_in_either(word, head + tags_said(before), last);
        if exists|i: int|
            0 <= i < before.len() && appears(word, (#[trigger] before[i]).0 + "="@ + before[i].1) {
            let i = choose|i: int|
                0 <= i < before.len() && appears(
                    word,
                    (#[trigger] before[i]).0 + "="@ + before[i].1,
                );
            assert(tags[i] == before[i]);
        }
        if exists|i: int|
            0 <= i < tags.len() && appears(word, (#[trigger] tags[i]).0 + "="@ + tags[i].1) {
            let i = choose|i: int|
                0 <= i < tags.len() && appears(word, (#[trigger] tags[i]).0 + "="@ + tags[i].1);
            if i < before.len() {
                assert(before[i] == tags[i]);
            }
        }
        assert(tags[tags.len() - 1] == tags.last());
    }
}

/// A word finds a secret by its vault, its name, its content type or one of
/// its tags, and by nothing else.
pub proof fn law_a_word_finds_a_secret_by_what_it_shows(row: SecretRow, word: Seq<char>)
    requires
        word.len() > 0,
        forall|k: int| 0 <= k < word.len() ==> #[trigger] word[k] != ' ',
    ensures
        appears(word, secrets::searched(row@)) <==> {
            ||| appears(word, row.vault@)
            ||| appears(word, row.name@)
            ||| row.content_type matches Some(held) && appears(word, held@)
            ||| exists|i: int|
                0 <= i < row.tags@.len() && appears(
                    word,
                    (#[trigger] row.tags@[i]).0@ + "="@ + row.tags@[i].1@,
                )
        },
{
    let both = row.vault@ + " "@ + row.name@;
    lemma_appears_in_either(word, row.vault@, row.name@);
    let head = match row.content_type {
        Some(held) => both + (" "@ + held@),
        None => both + Seq::<char>::empty(),
    };
    if let Some(held) = row.content_type {
        assert(head =~= both + " "@ + held@);
        lemma_appears_in_either(word, both, held@);
    } else {
        assert(head =~= both);
    }
    let tags = pairs(row.tags@);
    lemma_tags_said(word, head, tags);
    assert(secrets::searched(row@) =~= head + tags_said(tags));
    if exists|i: int|
        0 <= i < tags.len() && appears(word, (#[trigger] tags[i]).0 + "="@ + tags[i].1) {
        let i = choose|i: int|
            0 <= i < tags.len() && appears(word, (#[trigger] tags[i]).0 + "="@ + tags[i].1);
        assert(appears(word, row.tags@[i].0@ + "="@ + row.tags@[i].1@));
    }
    if exists|i: int|
        0 <= i < row.tags@.len() && appears(
            word,
            (#[trigger] row.tags@[i]).0@ + "="@ + row.tags@[i].1@,
        ) {
        let i = choose|i: int|
            0 <= i < row.tags@.len() && appears(
                word,
                (#[trigger] row.tags@[i]).0@ + "="@ + row.tags@[i].1@,
            );
        assert(appears(word, tags[i].0 + "="@ + tags[i].1));
    }
}

// ---------------------------------------------------------------------------
// Repositories and tags
// ---------------------------------------------------------------------------

proof fn lemma_one_repository_field(
    row: Repository,
    key: Seq<char>,
    value: Seq<char>,
    now: Timestamp,
)
    ensures
        registries::answers_all(row@, seq![(key, value)], now) == registries::answers(
            row@,
            key,
            value,
            now,
        ),
{
    let fields = seq![(key, value)];
    assert(fields[0] == (key, value));
}

proof fn lemma_one_tag_field(tag: Tag, key: Seq<char>, value: Seq<char>, now: Timestamp)
    ensures
        tag_answers_all(tag, seq![(key, value)], now) == tag_answers(tag, key, value, now),
{
    let fields = seq![(key, value)];
    assert(fields[0] == (key, value));
}

proof fn lemma_registry_keys_differ()
    ensures
        "env"@ != "registry"@ && "env"@ != "repo"@ && "env"@ != "name"@ && "env"@ != "updated"@
            && "env"@ != "created"@,
        "registry"@ != "repo"@ && "registry"@ != "name"@ && "registry"@ != "updated"@ && "registry"@
            != "created"@,
        "repo"@ != "name"@ && "repo"@ != "updated"@ && "repo"@ != "created"@,
        "name"@ != "updated"@ && "name"@ != "created"@ && "updated"@ != "created"@,
        "tag"@ != "name"@ && "tag"@ != "digest"@ && "tag"@ != "updated"@ && "tag"@ != "created"@,
        "digest"@ != "name"@ && "digest"@ != "updated"@ && "digest"@ != "created"@,
{
    reveal_strlit("env");
    reveal_strlit("registry");
    reveal_strlit("repo");
    reveal_strlit("name");
    reveal_strlit("updated");
    reveal_strlit("created");
    reveal_strlit("tag");
    reveal_strlit("digest");
    assert("env"@.len() == 3 && "env"@[0] == 'e' && "env"@[1] == 'n');
    assert("registry"@.len() == 8 && "registry"@[0] == 'r' && "registry"@[1] == 'e');
    assert("repo"@.len() == 4 && "repo"@[0] == 'r' && "repo"@[1] == 'e');
    assert("name"@.len() == 4 && "name"@[0] == 'n' && "name"@[1] == 'a');
    assert("updated"@.len() == 7 && "updated"@[0] == 'u' && "updated"@[1] == 'p');
    assert("created"@.len() == 7 && "created"@[0] == 'c' && "created"@[1] == 'r');
    assert("tag"@.len() == 3 && "tag"@[0] == 't' && "tag"@[1] == 'a');
    assert("digest"@.len() == 6 && "digest"@[0] == 'd' && "digest"@[1] == 'i');
}

/// Each filter of the repository table looks in the one cell it names:
/// `registry:` in the registry, `repo:` and `name:` in the name, `updated:`
/// and `created:` at the two stamps, and `env:` at the environment that the
/// registry's name is of.
pub proof fn law_a_repository_is_found_by_its_own_cells(
    row: Repository,
    value: Seq<char>,
    now: Timestamp,
)
    ensures
        registries::answers_all(row@, seq![("registry"@, value)], now) <==> appears(
            value,
            row.registry@,
        ),
        registries::answers_all(row@, seq![("repo"@, value)], now) <==> appears(value, row.name@),
        registries::answers_all(row@, seq![("name"@, value)], now) <==> appears(value, row.name@),
        When::of(value) matches Some(bound) ==> {
            &&& registries::answers_all(row@, seq![("updated"@, value)], now) <==> bound.aged(
                row.updated,
                now,
            )
            &&& registries::answers_all(row@, seq![("created"@, value)], now) <==> bound.aged(
                row.created,
                now,
            )
        },
        When::of(value) is None ==> {
            &&& registries::answers_all(row@, seq![("updated"@, value)], now)
            &&& registries::answers_all(row@, seq![("created"@, value)], now)
        },
        forall|env: Env| #[trigger]
            is_of(value, env) ==> (registries::answers_all(row@, seq![("env"@, value)], now)
                <==> is_of(row.registry@, env)),
        (forall|env: Env| !(#[trigger] is_of(value, env))) ==> registries::answers_all(
            row@,
            seq![("env"@, value)],
            now,
        ),
{
    lemma_registry_keys_differ();
    lemma_one_repository_field(row, "registry"@, value, now);
    lemma_one_repository_field(row, "repo"@, value, now);
    lemma_one_repository_field(row, "name"@, value, now);
    lemma_one_repository_field(row, "updated"@, value, now);
    lemma_one_repository_field(row, "created"@, value, now);
    lemma_one_repository_field(row, "env"@, value, now);
    law_a_mention_is_an_appearance(row.registry@, value);
    law_a_mention_is_an_appearance(row.name@, value);
    law_a_name_is_of_the_environment_it_holds(value);
    law_a_name_is_of_the_environment_it_holds(row.registry@);
    if let Some(env) = Env::named_in(value) {
        assert(is_of(value, env));
        assert(is_of(row.registry@, env) <==> Env::named_in(row.registry@) == Some(env));
    }
}

/// Each filter of the tag table looks in the one cell it names.
pub proof fn law_a_tag_is_found_by_its_own_cells(tag: Tag, value: Seq<char>, now: Timestamp)
    ensures
        tag_answers_all(tag, seq![("tag"@, value)], now) <==> appears(value, tag.name@),
        tag_answers_all(tag, seq![("name"@, value)], now) <==> appears(value, tag.name@),
        tag_answers_all(tag, seq![("digest"@, value)], now) <==> appears(value, tag.digest@),
        When::of(value) matches Some(bound) ==> {
            &&& tag_answers_all(tag, seq![("updated"@, value)], now) <==> bound.aged(
                tag.updated,
                now,
            )
            &&& tag_answers_all(tag, seq![("created"@, value)], now) <==> bound.aged(
                tag.created,
                now,
            )
        },
        When::of(value) is None ==> {
            &&& tag_answers_all(tag, seq![("updated"@, value)], now)
            &&& tag_answers_all(tag, seq![("created"@, value)], now)
        },
{
    lemma_registry_keys_differ();
    lemma_one_tag_field(tag, "tag"@, value, now);
    lemma_one_tag_field(tag, "name"@, value, now);
    lemma_one_tag_field(tag, "digest"@, value, now);
    lemma_one_tag_field(tag, "updated"@, value, now);
    lemma_one_tag_field(tag, "created"@, value, now);
    law_a_mention_is_an_appearance(tag.name@, value);
    law_a_mention_is_an_appearance(tag.digest@, value);
}

/// A repository and a tag have to answer every filter, each as it would alone.
pub proof fn law_a_registrys_rows_answer_every_filter(
    row: Repository,
    tag: Tag,
    a: Seq<(Seq<char>, Seq<char>)>,
    b: Seq<(Seq<char>, Seq<char>)>,
    now: Timestamp,
)
    ensures
        registries::answers_all(row@, a + b, now) <==> registries::answers_all(row@, a, now)
            && registries::answers_all(row@, b, now),
        tag_answers_all(tag, a + b, now) <==> tag_answers_all(tag, a, now) && tag_answers_all(
            tag,
            b,
            now,
        ),
        registries::answers_all(row@, Seq::empty(), now),
        tag_answers_all(tag, Seq::empty(), now),
{
    let both = a + b;
    assert forall|i: int| 0 <= i < a.len() implies both[i] == #[trigger] a[i] by {}
    assert forall|i: int| 0 <= i < b.len() implies both[a.len() + i] == #[trigger] b[i] by {}
    assert forall|i: int| 0 <= i < both.len() implies #[trigger] both[i] == if i < a.len() {
        a[i]
    } else {
        b[i - a.len()]
    } by {}
}

/// A word finds a repository by its registry or its name, and a tag by its
/// name or its digest.
pub proof fn law_a_word_finds_a_registrys_rows_by_what_they_show(
    row: Repository,
    tag: Tag,
    word: Seq<char>,
)
    requires
        word.len() > 0,
        forall|k: int| 0 <= k < word.len() ==> #[trigger] word[k] != ' ',
    ensures
        appears(word, registries::searched(row@)) <==> appears(word, row.registry@) || appears(
            word,
            row.name@,
        ),
        appears(word, tag_searched(tag)) <==> appears(word, tag.name@) || appears(
            word,
            tag.digest@,
        ),
{
    lemma_appears_in_either(word, row.registry@, row.name@);
    lemma_appears_in_either(word, tag.name@, tag.digest@);
}

// ---------------------------------------------------------------------------
// A cluster's rows
// ---------------------------------------------------------------------------

proof fn lemma_one_rows_field<T: Row>(row: T, key: Seq<char>, value: Seq<char>)
    ensures
        row_answers(row, seq![(key, value)]) == row.answers(key, value),
{
    let fields = seq![(key, value)];
    assert(fields[0] == (key, value));
}

proof fn lemma_cluster_keys_differ()
    ensures
        "name"@ != "ns"@ && "name"@ != "status"@ && "name"@ != "owner"@ && "name"@ != "app"@
            && "name"@ != "node"@ && "name"@ != "key"@ && "name"@ != "type"@,
        "ns"@ != "status"@ && "ns"@ != "owner"@ && "ns"@ != "app"@ && "ns"@ != "node"@ && "ns"@
            != "key"@ && "ns"@ != "type"@ && "ns"@ != "reason"@ && "ns"@ != "object"@ && "ns"@
            != "kind"@ && "ns"@ != "message"@,
        "status"@ != "owner"@ && "status"@ != "app"@ && "status"@ != "node"@ && "owner"@ != "app"@
            && "owner"@ != "node"@ && "app"@ != "node"@,
        "type"@ != "reason"@ && "type"@ != "object"@ && "type"@ != "kind"@ && "type"@ != "message"@
            && "type"@ != "key"@,
        "reason"@ != "object"@ && "reason"@ != "kind"@ && "reason"@ != "message"@,
        "object"@ != "kind"@ && "object"@ != "message"@ && "kind"@ != "message"@,
{
    reveal_strlit("name");
    reveal_strlit("ns");
    reveal_strlit("status");
    reveal_strlit("owner");
    reveal_strlit("app");
    reveal_strlit("node");
    reveal_strlit("key");
    reveal_strlit("type");
    reveal_strlit("reason");
    reveal_strlit("object");
    reveal_strlit("kind");
    reveal_strlit("message");
    assert("name"@.len() == 4 && "name"@[0] == 'n' && "name"@[1] == 'a');
    assert("ns"@.len() == 2 && "ns"@[0] == 'n' && "ns"@[1] == 's');
    assert("status"@.len() == 6 && "status"@[0] == 's' && "status"@[1] == 't');
    assert("owner"@.len() == 5 && "owner"@[0] == 'o' && "owner"@[1] == 'w');
    assert("app"@.len() == 3 && "app"@[0] == 'a' && "app"@[1] == 'p');
    assert("node"@.len() == 4 && "node"@[0] == 'n' && "node"@[1] == 'o');
    assert("key"@.len() == 3 && "key"@[0] == 'k' && "key"@[1] == 'e');
    assert("type"@.len() == 4 && "type"@[0] == 't' && "type"@[1] == 'y');
    assert("reason"@.len() == 6 && "reason"@[0] == 'r' && "reason"@[1] == 'e');
    assert("object"@.len() == 6 && "object"@[0] == 'o' && "object"@[1] == 'b');
    assert("kind"@.len() == 4 && "kind"@[0] == 'k' && "kind"@[1] == 'i');
    assert("message"@.len() == 7 && "message"@[0] == 'm' && "message"@[1] == 'e');
}

/// What put a pod there, by name; nothing where nothing did.
pub open spec fn owner_is(pod: Pod, name: Seq<char>) -> bool {
    match pod.owner {
        Some(owner) => name == owner.1@,
        None => name.len() == 0,
    }
}

/// Each filter of the pods looks in the one cell it names.
pub proof fn law_a_pod_is_found_by_its_own_cells(pod: Pod, owner: Seq<char>, value: Seq<char>)
    requires
        owner_is(pod, owner),
    ensures
        row_answers(pod, seq![("name"@, value)]) <==> appears(value, pod.key.name@),
        row_answers(pod, seq![("ns"@, value)]) <==> appears(value, pod.key.namespace@),
        row_answers(pod, seq![("status"@, value)]) <==> appears(value, pod.status@),
        row_answers(pod, seq![("owner"@, value)]) <==> appears(value, owner),
        row_answers(pod, seq![("app"@, value)]) <==> (pod.app matches Some(app) && appears(
            value,
            app@,
        )),
        row_answers(pod, seq![("node"@, value)]) <==> appears(value, pod.node@),
{
    lemma_cluster_keys_differ();
    lemma_owner_text(pod, owner);
    lemma_one_rows_field(pod, "name"@, value);
    lemma_one_rows_field(pod, "ns"@, value);
    lemma_one_rows_field(pod, "status"@, value);
    lemma_one_rows_field(pod, "owner"@, value);
    lemma_one_rows_field(pod, "app"@, value);
    lemma_one_rows_field(pod, "node"@, value);
    law_a_mention_is_an_appearance(pod.key.name@, value);
    law_a_mention_is_an_appearance(pod.key.namespace@, value);
    law_a_mention_is_an_appearance(pod.status@, value);
    law_a_mention_is_an_appearance(owner, value);
    law_a_mention_is_an_appearance(pod.node@, value);
    if let Some(app) = pod.app {
        law_a_mention_is_an_appearance(app@, value);
    }
}

proof fn lemma_owner_text(pod: Pod, owner: Seq<char>)
    requires
        owner_is(pod, owner),
    ensures
        pod.owner_text() == owner,
{
    reveal_strlit("");
    if pod.owner is None {
        assert(owner =~= ""@);
    }
}

/// Each filter of the events looks in the one cell it names: `object:` and
/// `kind:` at what the event happened to.
pub proof fn law_an_event_is_found_by_its_own_cells(event: K8sEvent, value: Seq<char>)
    ensures
        row_answers(event, seq![("type"@, value)]) <==> appears(value, event.kind@),
        row_answers(event, seq![("reason"@, value)]) <==> appears(value, event.reason@),
        row_answers(event, seq![("object"@, value)]) <==> appears(value, event.object.name@),
        row_answers(event, seq![("kind"@, value)]) <==> appears(value, event.object.kind@),
        row_answers(event, seq![("message"@, value)]) <==> appears(value, event.message@),
        row_answers(event, seq![("ns"@, value)]) <==> appears(value, event.namespace@),
{
    lemma_cluster_keys_differ();
    lemma_one_rows_field(event, "type"@, value);
    lemma_one_rows_field(event, "reason"@, value);
    lemma_one_rows_field(event, "object"@, value);
    lemma_one_rows_field(event, "kind"@, value);
    lemma_one_rows_field(event, "message"@, value);
    lemma_one_rows_field(event, "ns"@, value);
    law_a_mention_is_an_appearance(event.kind@, value);
    law_a_mention_is_an_appearance(event.reason@, value);
    law_a_mention_is_an_appearance(event.object.name@, value);
    law_a_mention_is_an_appearance(event.object.kind@, value);
    law_a_mention_is_an_appearance(event.message@, value);
    law_a_mention_is_an_appearance(event.namespace@, value);
}

proof fn lemma_has_key<V>(data: Seq<(String, V)>, value: Seq<char>)
    ensures
        has_key(data, value) <==> exists|i: int|
            0 <= i < data.len() && appears(value, (#[trigger] data[i]).0@),
{
    assert forall|i: int| 0 <= i < data.len() implies mentions((#[trigger] data[i]).0@, value)
        == appears(value, data[i].0@) by {
        law_a_mention_is_an_appearance(data[i].0@, value);
    }
    if has_key(data, value) {
        let i = choose|i: int| 0 <= i < data.len() && mentions((#[trigger] data[i]).0@, value);
        assert(appears(value, data[i].0@));
    }
    if exists|i: int| 0 <= i < data.len() && appears(value, (#[trigger] data[i]).0@) {
        let i = choose|i: int| 0 <= i < data.len() && appears(value, (#[trigger] data[i]).0@);
        assert(mentions(data[i].0@, value));
    }
}

/// Each filter of the configmaps and of a cluster's secrets looks in the one
/// cell it names: `key:` in the keys, and never in a value.
pub proof fn law_a_map_is_found_by_its_own_cells(
    map: ConfigMap,
    secret: SecretMeta,
    value: Seq<char>,
)
    ensures
        row_answers(map, seq![("name"@, value)]) <==> appears(value, map.name@),
        row_answers(map, seq![("ns"@, value)]) <==> appears(value, map.namespace@),
        row_answers(map, seq![("key"@, value)]) <==> exists|i: int|
            0 <= i < map.data@.len() && appears(value, (#[trigger] map.data@[i]).0@),
        row_answers(secret, seq![("name"@, value)]) <==> appears(value, secret.name@),
        row_answers(secret, seq![("ns"@, value)]) <==> appears(value, secret.namespace@),
        row_answers(secret, seq![("type"@, value)]) <==> appears(value, secret.kind@),
        row_answers(secret, seq![("key"@, value)]) <==> exists|i: int|
            0 <= i < secret.keys@.len() && appears(value, (#[trigger] secret.keys@[i]).0@),
{
    lemma_cluster_keys_differ();
    lemma_one_rows_field(map, "name"@, value);
    lemma_one_rows_field(map, "ns"@, value);
    lemma_one_rows_field(map, "key"@, value);
    lemma_one_rows_field(secret, "name"@, value);
    lemma_one_rows_field(secret, "ns"@, value);
    lemma_one_rows_field(secret, "type"@, value);
    lemma_one_rows_field(secret, "key"@, value);
    law_a_mention_is_an_appearance(map.name@, value);
    law_a_mention_is_an_appearance(map.namespace@, value);
    law_a_mention_is_an_appearance(secret.name@, value);
    law_a_mention_is_an_appearance(secret.namespace@, value);
    law_a_mention_is_an_appearance(secret.kind@, value);
    lemma_has_key(map.data@, value);
    lemma_has_key(secret.keys@, value);
}

/// A cluster's row has to answer every filter, each as it would alone.
pub proof fn law_a_clusters_row_answers_every_filter<T: Row>(
    row: T,
    a: Seq<(Seq<char>, Seq<char>)>,
    b: Seq<(Seq<char>, Seq<char>)>,
)
    ensures
        row_answers(row, a + b) <==> row_answers(row, a) && row_answers(row, b),
        row_answers(row, Seq::empty()),
{
    let both = a + b;
    assert forall|i: int| 0 <= i < a.len() implies both[i] == #[trigger] a[i] by {}
    assert forall|i: int| 0 <= i < b.len() implies both[a.len() + i] == #[trigger] b[i] by {}
    assert forall|i: int| 0 <= i < both.len() implies #[trigger] both[i] == if i < a.len() {
        a[i]
    } else {
        b[i - a.len()]
    } by {}
}

proof fn lemma_images(word: Seq<char>, head: Seq<char>, containers: Seq<Container>)
    requires
        word.len() > 0,
        forall|k: int| 0 <= k < word.len() ==> #[trigger] word[k] != ' ',
    ensures
        appears(word, head + images(containers)) <==> appears(word, head) || exists|i: int|
            0 <= i < containers.len() && appears(word, (#[trigger] containers[i]).image@),
    decreases containers.len(),
{
    if containers.len() == 0 {
        assert(head + images(containers) =~= head);
    } else {
        let before = containers.drop_last();
        lemma_images(word, head, before);
        assert(head + images(containers) =~= (head + images(before)) + " "@
            + containers.last().image@);
        lemma_appears_in_either(word, head + images(before), containers.last().image@);
        if exists|i: int| 0 <= i < before.len() && appears(word, (#[trigger] before[i]).image@) {
            let i = choose|i: int|
                0 <= i < before.len() && appears(word, (#[trigger] before[i]).image@);
            assert(containers[i] == before[i]);
        }
        if exists|i: int|
            0 <= i < containers.len() && appears(word, (#[trigger] containers[i]).image@) {
            let i = choose|i: int|
                0 <= i < containers.len() && appears(word, (#[trigger] containers[i]).image@);
            if i < before.len() {
                assert(before[i] == containers[i]);
            }
        }
        assert(containers[containers.len() - 1] == containers.last());
    }
}

proof fn lemma_keys_said<V>(word: Seq<char>, head: Seq<char>, data: Seq<(String, V)>)
    requires
        word.len() > 0,
        forall|k: int| 0 <= k < word.len() ==> #[trigger] word[k] != ' ',
    ensures
        appears(word, head + keys_said(data)) <==> appears(word, head) || exists|i: int|
            0 <= i < data.len() && appears(word, (#[trigger] data[i]).0@),
    decreases data.len(),
{
    if data.len() == 0 {
        assert(head + keys_said(data) =~= head);
    } else {
        let before = data.drop_last();
        lemma_keys_said(word, head, before);
        assert(head + keys_said(data) =~= (head + keys_said(before)) + " "@ + data.last().0@);
        lemma_appears_in_either(word, head + keys_said(before), data.last().0@);
        if exists|i: int| 0 <= i < before.len() && appears(word, (#[trigger] before[i]).0@) {
            let i = choose|i: int| 0 <= i < before.len() && appears(word, (#[trigger] before[i]).0@);
            assert(data[i] == before[i]);
        }
        if exists|i: int| 0 <= i < data.len() && appears(word, (#[trigger] data[i]).0@) {
            let i = choose|i: int| 0 <= i < data.len() && appears(word, (#[trigger] data[i]).0@);
            if i < before.len() {
                assert(before[i] == data[i]);
            }
        }
        assert(data[data.len() - 1] == data.last());
    }
}

/// A word finds a pod by its name, its namespace, its status, its owner, its
/// node or one of its images, and by nothing else.
pub proof fn law_a_word_finds_a_pod_by_what_it_shows(
    pod: Pod,
    owner: Seq<char>,
    word: Seq<char>,
)
    requires
        owner_is(pod, owner),
        word.len() > 0,
        forall|k: int| 0 <= k < word.len() ==> #[trigger] word[k] != ' ',
    ensures
        appears(word, pod.searched()) <==> {
            ||| appears(word, pod.key.name@)
            ||| appears(word, pod.key.namespace@)
            ||| appears(word, pod.status@)
            ||| appears(word, owner)
            ||| appears(word, pod.node@)
            ||| exists|i: int|
                0 <= i < pod.containers@.len() && appears(
                    word,
                    (#[trigger] pod.containers@[i]).image@,
                )
        },
{
    lemma_owner_text(pod, owner);
    let a = pod.key.name@ + " "@ + pod.key.namespace@;
    let b = a + " "@ + pod.status@;
    let c = b + " "@ + owner;
    let d = c + " "@ + pod.node@;
    lemma_appears_in_either(word, pod.key.name@, pod.key.namespace@);
    lemma_appears_in_either(word, a, pod.status@);
    lemma_appears_in_either(word, b, owner);
    lemma_appears_in_either(word, c, pod.node@);
    lemma_images(word, d, pod.containers@);
    assert(pod.searched() =~= d + images(pod.containers@));
}

/// A word finds an event by its type, its reason, what it happened to, its
/// message or its namespace; a configmap or a cluster's secret by its name,
/// its namespace, its type or its keys.
pub proof fn law_a_word_finds_a_clusters_rows_by_what_they_show(
    event: K8sEvent,
    map: ConfigMap,
    secret: SecretMeta,
    word: Seq<char>,
)
    requires
        word.len() > 0,
        forall|k: int| 0 <= k < word.len() ==> #[trigger] word[k] != ' ',
    ensures
        appears(word, event.searched()) <==> {
            ||| appears(word, event.kind@)
            ||| appears(word, event.reason@)
            ||| appears(word, event.object.kind@ + "/"@ + event.object.name@)
            ||| appears(word, event.message@)
            ||| appears(word, event.namespace@)
        },
        appears(word, map.searched()) <==> {
            ||| appears(word, map.name@)
            ||| appears(word, map.namespace@)
            ||| exists|i: int|
                0 <= i < map.data@.len() && appears(word, (#[trigger] map.data@[i]).0@)
        },
        appears(word, secret.searched()) <==> {
            ||| appears(word, secret.name@)
            ||| appears(word, secret.namespace@)
            ||| appears(word, secret.kind@)
            ||| exists|i: int|
                0 <= i < secret.keys@.len() && appears(word, (#[trigger] secret.keys@[i]).0@)
        },
{
    let object = event.object.kind@ + "/"@ + event.object.name@;
    let a = event.kind@ + " "@ + event.reason@;
    let b = a + " "@ + object;
    let c = b + " "@ + event.message@;
    lemma_appears_in_either(word, event.kind@, event.reason@);
    lemma_appears_in_either(word, a, object);
    lemma_appears_in_either(word, b, event.message@);
    lemma_appears_in_either(word, c, event.namespace@);
    assert(event.searched() =~= c + " "@ + event.namespace@);
    let d = map.name@ + " "@ + map.namespace@;
    lemma_appears_in_either(word, map.name@, map.namespace@);
    lemma_keys_said(word, d, map.data@);
    let e = secret.name@ + " "@ + secret.namespace@;
    let f = e + " "@ + secret.kind@;
    lemma_appears_in_either(word, secret.name@, secret.namespace@);
    lemma_appears_in_either(word, e, secret.kind@);
    lemma_keys_said(word, f, secret.keys@);
}

// ---------------------------------------------------------------------------
// The keys
// ---------------------------------------------------------------------------

/// The filters each table knows, and no others.
pub proof fn law_each_table_knows_its_keys(key: Seq<char>)
    ensures
        known_keys().contains(key) <==> key == "env"@ || key == "vault"@ || key == "name"@ || key
            == "type"@ || key == "enabled"@ || key == "managed"@ || key == "expires"@ || key
            == "tag"@,
        repository_keys().contains(key) <==> key == "env"@ || key == "registry"@ || key == "repo"@
            || key == "name"@ || key == "updated"@ || key == "created"@,
        tag_keys().contains(key) <==> key == "tag"@ || key == "name"@ || key == "digest"@ || key
            == "updated"@ || key == "created"@,
        <Pod as Row>::known_keys().contains(key) <==> key == "name"@ || key == "ns"@ || key
            == "status"@ || key == "owner"@ || key == "app"@ || key == "node"@,
        <K8sEvent as Row>::known_keys().contains(key) <==> key == "type"@ || key == "reason"@ || key
            == "object"@ || key == "kind"@ || key == "message"@ || key == "ns"@,
        <ConfigMap as Row>::known_keys().contains(key) <==> key == "name"@ || key == "ns"@ || key
            == "key"@,
        <SecretMeta as Row>::known_keys().contains(key) <==> key == "name"@ || key == "ns"@ || key
            == "type"@ || key == "key"@,
{
    assert(known_keys()[0] == "env"@ && known_keys()[1] == "vault"@ && known_keys()[2] == "name"@
        && known_keys()[3] == "type"@ && known_keys()[4] == "enabled"@ && known_keys()[5]
        == "managed"@ && known_keys()[6] == "expires"@ && known_keys()[7] == "tag"@);
    let r = repository_keys();
    assert(r[0] == "env"@ && r[1] == "registry"@ && r[2] == "repo"@ && r[3] == "name"@ && r[4]
        == "updated"@ && r[5] == "created"@);
    let t = tag_keys();
    assert(t[0] == "tag"@ && t[1] == "name"@ && t[2] == "digest"@ && t[3] == "updated"@ && t[4]
        == "created"@);
    let p = <Pod as Row>::known_keys();
    assert(p[0] == "name"@ && p[1] == "ns"@ && p[2] == "status"@ && p[3] == "owner"@ && p[4]
        == "app"@ && p[5] == "node"@);
    let e = <K8sEvent as Row>::known_keys();
    assert(e[0] == "type"@ && e[1] == "reason"@ && e[2] == "object"@ && e[3] == "kind"@ && e[4]
        == "message"@ && e[5] == "ns"@);
    let c = <ConfigMap as Row>::known_keys();
    assert(c[0] == "name"@ && c[1] == "ns"@ && c[2] == "key"@);
    let s = <SecretMeta as Row>::known_keys();
    assert(s[0] == "name"@ && s[1] == "ns"@ && s[2] == "type"@ && s[3] == "key"@);
}

/// No filter's key has a colon in it, so that what follows the first is its
/// value.
pub proof fn law_no_key_has_a_colon()
    ensures
        no_colons(known_keys()),
        no_colons(repository_keys()),
        no_colons(tag_keys()),
        no_colons(<Pod as Row>::known_keys()),
        no_colons(<K8sEvent as Row>::known_keys()),
        no_colons(<ConfigMap as Row>::known_keys()),
        no_colons(<SecretMeta as Row>::known_keys()),
{
    reveal_strlit("env");
    reveal_strlit("vault");
    reveal_strlit("name");
    reveal_strlit("type");
    reveal_strlit("enabled");
    reveal_strlit("managed");
    reveal_strlit("expires");
    reveal_strlit("tag");
    reveal_strlit("registry");
    reveal_strlit("repo");
    reveal_strlit("updated");
    reveal_strlit("created");
    reveal_strlit("digest");
    reveal_strlit("ns");
    reveal_strlit("status");
    reveal_strlit("owner");
    reveal_strlit("app");
    reveal_strlit("node");
    reveal_strlit("reason");
    reveal_strlit("object");
    reveal_strlit("kind");
    reveal_strlit("message");
    reveal_strlit("key");
}

// ---------------------------------------------------------------------------
// The rows that are left
// ---------------------------------------------------------------------------

/// Whether every word of a query that is no filter appears in a text.
pub open spec fn all_appear(words: Seq<Seq<char>>, held: Seq<char>) -> bool {
    forall|i: int| 0 <= i < words.len() ==> appears(#[trigger] words[i], held)
}

proof fn lemma_all_appear(words: Seq<Seq<char>>, held: Seq<char>)
    ensures
        mentions_all(held, words) <==> all_appear(words, held),
{
    assert forall|i: int| 0 <= i < words.len() implies mentions(held, #[trigger] words[i])
        == appears(words[i], held) by {
        law_a_mention_is_an_appearance(held, words[i]);
    }
}

/// A look at rows that have moved shows exactly those that answer every filter
/// of the box and hold every word of it, each once.
pub proof fn law_exactly_the_rows_asked_for_are_shown<T: Searchable>(
    rows: RowsView,
    table: &T,
    key: OrderKey,
    text: Seq<char>,
)
    ensures
        ({
            let shown = rows.spoiled().refreshed(table, key, text).visible;
            let query = QueryView::of(text, table.filter_keys());
            &&& shown.no_duplicates()
            &&& forall|at: usize|
                #![trigger shown.contains(at)]
                shown.contains(at) <==> at < key.2 && table.answers(query.fields, at as int)
                    && all_appear(query.words, table.searched(at as int))
        }),
{
    super::listing::law_a_look_settles_the_rows(rows, table, key, text);
    let query = QueryView::of(text, table.filter_keys());
    let haystacks = Seq::new(key.2 as nat, |at: int| table.searched(at));
    let keep = |at: usize| at < key.2 && left_by(table, haystacks, query, at);
    let sorted = the_order(table, key.2 as int);
    let shown = rows.spoiled().refreshed(table, key, text).visible;
    law_the_order_is_in_order(table, key.2 as nat);
    crate::order::lemma_in_order_once(table, key.2 as int, sorted);
    lemma_filtered_once(sorted, keep);
    assert forall|at: usize|
        #![trigger shown.contains(at)]
        shown.contains(at) <==> at < key.2 && table.answers(query.fields, at as int) && all_appear(
            query.words,
            table.searched(at as int),
        ) by {
        lemma_all_appear(query.words, table.searched(at as int));
        lemma_filtered_has(sorted, keep, at);
    }
}

/// So it is where the rows are worked out from nothing.
pub proof fn law_exactly_the_tags_asked_for_are_shown<T: Searchable>(
    table: &T,
    count: usize,
    text: Seq<char>,
)
    ensures
        ({
            let shown = shown_rows(table, count, text);
            let query = QueryView::of(text, table.filter_keys());
            &&& shown.no_duplicates()
            &&& forall|at: usize|
                #![trigger shown.contains(at)]
                shown.contains(at) <==> at < count && table.answers(query.fields, at as int)
                    && all_appear(query.words, table.searched(at as int))
        }),
{
    let query = QueryView::of(text, table.filter_keys());
    let keep = |at: usize|
        at < count && table.answers(query.fields, at as int) && mentions_all(
            table.searched(at as int),
            query.words,
        );
    let sorted = the_order(table, count as int);
    let shown = shown_rows(table, count, text);
    law_the_order_is_in_order(table, count as nat);
    crate::order::lemma_in_order_once(table, count as int, sorted);
    lemma_filtered_once(sorted, keep);
    assert forall|at: usize|
        #![trigger shown.contains(at)]
        shown.contains(at) <==> at < count && table.answers(query.fields, at as int) && all_appear(
            query.words,
            table.searched(at as int),
        ) by {
        lemma_all_appear(query.words, table.searched(at as int));
        lemma_filtered_has(sorted, keep, at);
    }
}

proof fn lemma_filtered_once(list: Seq<usize>, keep: spec_fn(usize) -> bool)
    requires
        list.no_duplicates(),
    ensures
        list.filter(keep).no_duplicates(),
    decreases list.len(),
{
    reveal(Seq::filter);
    if list.len() > 0 {
        let before = list.drop_last();
        assert(before.no_duplicates());
        lemma_filtered_once(before, keep);
        let kept = before.filter(keep);
        assert forall|i: int| 0 <= i < kept.len() implies kept[i] != list.last() by {
            assert(kept.contains(kept[i]));
            before.lemma_filter_contains_rev(keep, kept[i]);
            let k = choose|k: int| 0 <= k < before.len() && before[k] == kept[i];
            assert(list[k] == kept[i]);
            assert(list[list.len() - 1] == list.last());
        }
    }
}

proof fn lemma_filtered_has(list: Seq<usize>, keep: spec_fn(usize) -> bool, at: usize)
    ensures
        list.filter(keep).contains(at) <==> list.contains(at) && keep(at),
{
    if list.filter(keep).contains(at) {
        list.lemma_filter_contains_rev(keep, at);
        let i = list.filter(keep).index_of(at);
        list.lemma_filter_pred(keep, i);
    }
    if list.contains(at) && keep(at) {
        let i = list.index_of(at);
        list.lemma_filter_contains(keep, i);
    }
}

/// What each screen shows, once its rows have moved and it has looked again, is
/// what its own box asks of its own rows.
pub proof fn law_each_screen_shows_what_its_box_asks_for(
    secrets: SecretsView,
    registries: RegistriesView,
    store: AzureStore,
    now: Timestamp,
)
    ensures
        ({
            let shown = secrets.spoiled().refiltered(store, now).rows.visible;
            let query = QueryView::of(secrets.input.text, known_keys());
            forall|at: usize|
                #![trigger shown.contains(at)]
                shown.contains(at) <==> at < store.secrets@.len() && secrets::answers_all(
                    store.secrets@[at as int]@,
                    query.fields,
                    now,
                ) && all_appear(query.words, secrets::searched(store.secrets@[at as int]@))
        }),
        ({
            let shown = registries.spoiled().looked(store, now).rows.visible;
            let query = QueryView::of(registries.repositories.input.text, repository_keys());
            forall|at: usize|
                #![trigger shown.contains(at)]
                shown.contains(at) <==> at < store.repositories@.len() && registries::answers_all(
                    store.repositories@[at as int]@,
                    query.fields,
                    now,
                ) && all_appear(query.words, registries::searched(store.repositories@[at as int]@))
        }),
        registries.spoiled().tags_read(store) matches Some(Ok(tags)) ==> {
            let shown = registries.spoiled().looked(store, now).tag_visible;
            let query = QueryView::of(registries.tags.input.text, tag_keys());
            forall|at: usize|
                #![trigger shown.contains(at)]
                shown.contains(at) <==> at < tags@.len() && tag_answers_all(
                    tags@[at as int],
                    query.fields,
                    now,
                ) && all_appear(query.words, tag_searched(tags@[at as int]))
        },
{
    let table = SecretTable {
        rows: &store.secrets,
        by: secrets.sort,
        descending: secrets.descending,
        order: VaultOrder::Inventory(&store.inventory.vaults),
        now,
    };
    law_exactly_the_rows_asked_for_are_shown(
        secrets.rows,
        &table,
        (secrets.sort, secrets.descending, store.secrets.len()),
        secrets.input.text,
    );
    let rows = RepositoryTable {
        rows: &store.repositories,
        by: registries.repositories.sort,
        descending: registries.repositories.descending,
        now,
    };
    law_exactly_the_rows_asked_for_are_shown(
        registries.rows,
        &rows,
        (
            registries.repositories.sort,
            registries.repositories.descending,
            store.repositories.len(),
        ),
        registries.repositories.input.text,
    );
    if let Some(Ok(tags)) = registries.spoiled().tags_read(store) {
        let table = TagTable {
            tags: &tags,
            by: registries.tags.sort,
            descending: registries.tags.descending,
            now,
        };
        law_exactly_the_tags_asked_for_are_shown(&table, tags.len(), registries.tags.input.text);
    }
}

/// So it is with a list of a cluster's rows.
pub proof fn law_each_list_shows_what_its_box_asks_for<T: Row>(list: ListView, rows: Vec<T>)
    ensures
        ({
            let shown = list.spoiled().refiltered(&rows).rows.visible;
            let query = QueryView::of(list.input.text, T::known_keys());
            forall|at: usize|
                #![trigger shown.contains(at)]
                shown.contains(at) <==> at < rows@.len() && row_answers(
                    rows@[at as int],
                    query.fields,
                ) && all_appear(query.words, rows@[at as int].searched())
        }),
{
    reveal(ListView::refiltered);
    let table = Sorted { rows: &rows, by: list.sort, descending: list.descending };
    law_exactly_the_rows_asked_for_are_shown(
        list.rows,
        &table,
        (list.sort, list.descending, rows.len()),
        list.input.text,
    );
}

/// A look after another query was typed, or another sort chosen, shows what a
/// look at everything afresh would.
pub proof fn law_a_later_look_is_as_good_as_a_fresh_one<T: Searchable>(
    rows: RowsView,
    first: &T,
    key: OrderKey,
    text: Seq<char>,
    second: &T,
    next_key: OrderKey,
    next_text: Seq<char>,
)
    requires
        key.2 == next_key.2,
        key == next_key ==> first == second,
        forall|at: int| 0 <= at < key.2 ==> first.searched(at) == #[trigger] second.searched(at),
    ensures
        rows.spoiled().refreshed(first, key, text).refreshed(second, next_key, next_text).visible
            == rows.spoiled().refreshed(second, next_key, next_text).visible,
{
    let fresh = Seq::new(key.2 as nat, |at: int| second.searched(at));
    let held = Seq::new(key.2 as nat, |at: int| first.searched(at));
    assert(fresh =~= held);
    assert(rows.spoiled().texts_after(first, key) =~= held);
    assert(rows.spoiled().texts_after(second, next_key) =~= fresh);
    let once = rows.spoiled().refreshed(first, key, text);
    assert(once.haystacks == held);
    assert(once.texts_after(second, next_key) == held);
}

/// What is typed in the box of the Secrets tab, and the sort that is chosen, are
/// what the next look goes by.
pub proof fn law_the_next_look_goes_by_what_was_typed(
    screen: SecretsView,
    store: AzureStore,
    now: Timestamp,
    input: InputView,
    sort: ColumnId,
    descending: bool,
)
    ensures
        ({
            let seen = screen.spoiled().refiltered(store, now);
            let typed = SecretsView { input, sort, descending, ..seen };
            typed.refiltered(store, now).rows.visible == typed.spoiled().refiltered(
                store,
                now,
            ).rows.visible
        }),
{
    let first = SecretTable {
        rows: &store.secrets,
        by: screen.sort,
        descending: screen.descending,
        order: VaultOrder::Inventory(&store.inventory.vaults),
        now,
    };
    let second = SecretTable { by: sort, descending, ..first };
    let key = (screen.sort, screen.descending, store.secrets.len());
    let next_key = (sort, descending, store.secrets.len());
    law_a_later_look_is_as_good_as_a_fresh_one(
        screen.rows,
        &first,
        key,
        screen.input.text,
        &second,
        next_key,
        input.text,
    );
    let seen = screen.spoiled().refiltered(store, now);
    assert(seen.rows.spoiled().texts_after(&second, next_key) =~= screen.rows.spoiled().texts_after(
        &second,
        next_key,
    ));
}

} // verus!
