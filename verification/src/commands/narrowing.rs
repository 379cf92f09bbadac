//! What is promised of the resources that a command reads: which of those found
//! the allowlist and the flags leave, and which rows come of them.

use vstd::prelude::*;

use super::print::{repositories_document, repository_lines, secret_lines, secrets_document};
use super::read::{
    refusals_of, registries_for, repositories_of, repositories_read, repositories_within, rows_of,
    rows_within, secrets_read, unfilled, vaults_for, Context,
};
use super::{
    holders, keepers, narrowed, registry_chosen, repos_run, repositories_shown, row_named, secrets_run,
    secrets_shown, vault_chosen, OutputView, ReasonView,
};
use crate::app::filters::all_appear;
use crate::app::registries::{
    answers_all as repository_answers, repository_keys, searched as repository_searched,
};
use crate::app::secrets::{answers_all, known_keys, searched};
use crate::azure::allow::{absent, kept, lemma_picks, lemma_place_in_range, picks, place_of};
use crate::azure::failure::FailureView;
use crate::azure::graph::{registry_names, vault_names, PAGES};
use crate::azure::transport::ClientView;
use crate::azure::vault::secrets_url;
use crate::azure::{
    views, Registry, RegistryView, Repository, RepositoryView, SecretRow, SecretRowView, Vault,
    VaultView,
};
use crate::cache::{tab_under, CachedTab, Snapshot};
use crate::config::AzureView;
use crate::filter::{mentions, mentions_all, QueryView};
use crate::plain::{
    law_a_mention_is_an_appearance, law_the_same_name_has_the_same_letters, same_letters,
};
use crate::text::trimmed;
use crate::timestamp::Timestamp;

verus! {

// ---------------------------------------------------------------------------
// Allowlists and flags
// ---------------------------------------------------------------------------

/// Whether one of some names is a name, whatever its case and the blanks round
/// it.
pub open spec fn named_by(wanted: Seq<Seq<char>>, name: Seq<char>) -> bool {
    exists|i: int| 0 <= i < wanted.len() && same_letters(name, trimmed(#[trigger] wanted[i]))
}

/// Whether a list names a resource, or names nothing and leaves all.
pub open spec fn leaves(wanted: Seq<Seq<char>>, name: Seq<char>) -> bool {
    wanted.len() == 0 || named_by(wanted, name)
}

/// Whether one of some names is a name, whatever its case.
pub open spec fn has_name(names: Seq<Seq<char>>, name: Seq<char>) -> bool {
    exists|i: int| 0 <= i < names.len() && same_letters(#[trigger] names[i], name)
}

/// Whether something is what was found at a place, under a name that a list
/// leaves.
pub open spec fn stands_for<V>(
    found: Seq<V>,
    names: Seq<Seq<char>>,
    wanted: Seq<Seq<char>>,
    held: V,
    at: int,
) -> bool {
    0 <= at < found.len() && found[at] == held && leaves(wanted, names[at])
}

proof fn lemma_picked_by(names: Seq<Seq<char>>, wanted: Seq<Seq<char>>, p: int) -> (i: int)
    requires
        0 <= p < picks(names, wanted).len(),
    ensures
        0 <= i < wanted.len(),
        picks(names, wanted)[p] == place_of(names, trimmed(wanted[i])),
        place_of(names, trimmed(wanted[i])) < names.len(),
    decreases wanted.len(),
{
    let before = picks(names, wanted.drop_last());
    if p < before.len() {
        let i = lemma_picked_by(names, wanted.drop_last(), p);
        assert(wanted.drop_last()[i] == wanted[i]);
        i
    } else {
        wanted.len() - 1
    }
}

proof fn lemma_picks_it(names: Seq<Seq<char>>, wanted: Seq<Seq<char>>, i: int) -> (p: int)
    requires
        0 <= i < wanted.len(),
        place_of(names, trimmed(wanted[i])) < names.len(),
    ensures
        0 <= p < picks(names, wanted).len(),
        picks(names, wanted)[p] == place_of(names, trimmed(wanted[i])),
    decreases wanted.len(),
{
    if i < wanted.len() - 1 {
        assert(wanted.drop_last()[i] == wanted[i]);
        let p = lemma_picks_it(names, wanted.drop_last(), i);
        assert(picks(names, wanted)[p] == picks(names, wanted.drop_last())[p]);
        p
    } else {
        picks(names, wanted).len() - 1
    }
}

proof fn lemma_found(names: Seq<Seq<char>>, name: Seq<char>)
    ensures
        place_of(names, name) < names.len() <==> has_name(names, name),
        place_of(names, name) < names.len() ==> 0 <= place_of(names, name) && same_letters(
            names[place_of(names, name)],
            name,
        ),
{
    lemma_place_in_range(names, name);
    let at = place_of(names, name);
    if at < names.len() {
        law_the_same_name_has_the_same_letters(names[at], name);
    }
    if has_name(names, name) {
        let i = choose|i: int| 0 <= i < names.len() && same_letters(#[trigger] names[i], name);
        law_the_same_name_has_the_same_letters(names[i], name);
    }
}

proof fn lemma_alike(a: Seq<char>, b: Seq<char>, c: Seq<char>)
    requires
        same_letters(a, b),
        same_letters(b, c),
    ensures
        same_letters(a, c),
        same_letters(b, a),
{
    assert forall|i: int| 0 <= i < a.len() implies crate::plain::small(#[trigger] a[i])
        == crate::plain::small(c[i]) by {
        assert(crate::plain::small(b[i]) == crate::plain::small(c[i]));
    }
    assert forall|i: int| 0 <= i < b.len() implies crate::plain::small(#[trigger] b[i])
        == crate::plain::small(a[i]) by {
        assert(crate::plain::small(a[i]) == crate::plain::small(b[i]));
    }
}

/// What a list keeps is what was found, under names it leaves.
proof fn lemma_kept_stand_for<V>(
    found: Seq<V>,
    names: Seq<Seq<char>>,
    wanted: Seq<Seq<char>>,
    p: int,
) -> (at: int)
    requires
        found.len() == names.len(),
        0 <= p < kept(found, names, wanted).len(),
    ensures
        stands_for(found, names, wanted, kept(found, names, wanted)[p], at),
        kept(names, names, wanted)[p] == names[at],
        kept(names, names, wanted).len() == kept(found, names, wanted).len(),
{
    if wanted.len() == 0 {
        p
    } else {
        let i = lemma_picked_by(names, wanted, p);
        let at = place_of(names, trimmed(wanted[i]));
        lemma_found(names, trimmed(wanted[i]));
        assert(named_by(wanted, names[at]));
        at
    }
}

/// Every name that a list leaves is kept, of what was found.
proof fn lemma_left_are_kept(
    names: Seq<Seq<char>>,
    wanted: Seq<Seq<char>>,
    name: Seq<char>,
)
    ensures
        has_name(kept(names, names, wanted), name) <==> has_name(names, name) && leaves(
            wanted,
            name,
        ),
{
    let all = kept(names, names, wanted);
    if has_name(all, name) {
        let p = choose|p: int| 0 <= p < all.len() && same_letters(#[trigger] all[p], name);
        let at = lemma_kept_stand_for(names, names, wanted, p);
        assert(same_letters(names[at], name));
        if wanted.len() > 0 {
            let i = choose|i: int|
                0 <= i < wanted.len() && same_letters(names[at], trimmed(#[trigger] wanted[i]));
            lemma_alike(names[at], name, name);
            lemma_alike(name, names[at], trimmed(wanted[i]));
            assert(named_by(wanted, name));
        }
    }
    if has_name(names, name) && leaves(wanted, name) && wanted.len() > 0 {
        let k = choose|k: int| 0 <= k < names.len() && same_letters(#[trigger] names[k], name);
        let i = choose|i: int|
            0 <= i < wanted.len() && same_letters(name, trimmed(#[trigger] wanted[i]));
        lemma_alike(names[k], name, trimmed(wanted[i]));
        assert(has_name(names, trimmed(wanted[i])));
        lemma_found(names, trimmed(wanted[i]));
        let at = place_of(names, trimmed(wanted[i]));
        let p = lemma_picks_it(names, wanted, i);
        assert(all[p] == names[at]);
        lemma_alike(name, trimmed(wanted[i]), trimmed(wanted[i]));
        lemma_alike(names[at], trimmed(wanted[i]), name);
        assert(same_letters(all[p], name));
    }
}

/// Whether every flag that is not blank names something found that the
/// allowlist leaves.
pub open spec fn all_reached(
    names: Seq<Seq<char>>,
    configured: Seq<Seq<char>>,
    only: Seq<Seq<char>>,
) -> bool {
    forall|i: int|
        0 <= i < only.len() && trimmed(#[trigger] only[i]).len() > 0 ==> has_name(
            names,
            trimmed(only[i]),
        ) && leaves(configured, trimmed(only[i]))
}

proof fn lemma_absent(names: Seq<Seq<char>>, wanted: Seq<Seq<char>>)
    ensures
        absent(names, wanted).len() == 0 <==> forall|i: int|
            0 <= i < wanted.len() && trimmed(#[trigger] wanted[i]).len() > 0 ==> has_name(
                names,
                trimmed(wanted[i]),
            ),
    decreases wanted.len(),
{
    if wanted.len() > 0 {
        let rest = wanted.drop_last();
        let last = trimmed(wanted.last());
        lemma_absent(names, rest);
        lemma_found(names, last);
        lemma_place_in_range(names, last);
        assert(wanted[wanted.len() - 1] == wanted.last());
        if absent(names, wanted).len() == 0 {
            assert forall|i: int|
                0 <= i < wanted.len() && trimmed(#[trigger] wanted[i]).len() > 0 implies has_name(
                names,
                trimmed(wanted[i]),
            ) by {
                if i < rest.len() {
                    assert(rest[i] == wanted[i]);
                }
            }
        } else if absent(names, rest).len() > 0 {
            let i = choose|i: int|
                0 <= i < rest.len() && trimmed(#[trigger] rest[i]).len() > 0 && !has_name(
                    names,
                    trimmed(rest[i]),
                );
            assert(wanted[i] == rest[i]);
        }
    }
}

/// A command's flags are good exactly when each names something that was found
/// and that the allowlist leaves; where one does not, it is the arguments that
/// were wrong. What is left is what was found, under names that the allowlist
/// and the flags both leave, and all of it where neither names anything. Every
/// name found that both leave is there.
pub proof fn law_a_command_reads_what_both_lists_leave<V>(
    found: Seq<V>,
    names: Seq<Seq<char>>,
    configured: Seq<Seq<char>>,
    only: Seq<Seq<char>>,
    kind: Seq<char>,
)
    requires
        found.len() == names.len(),
    ensures
        narrowed(found, names, configured, only, kind) is Ok <==> all_reached(
            names,
            configured,
            only,
        ),
        narrowed(found, names, configured, only, kind) matches Err(reason) ==> reason.code == 2,
        narrowed(found, names, configured, only, kind) matches Ok(left) ==> {
            &&& configured.len() == 0 && only.len() == 0 ==> left == found
            &&& forall|k: int|
                0 <= k < left.len() ==> is_left(found, names, configured, only, #[trigger] left[k])
            &&& forall|name: Seq<char>|
                has_name(names, name) && leaves(configured, name) && leaves(only, name)
                    ==> #[trigger] keeps_name(found, names, left, name)
        },
{
    let reach = kept(found, names, configured);
    let reach_names = kept(names, names, configured);
    let gone = absent(reach_names, only);
    if configured.len() > 0 {
        lemma_picks(names, configured);
    }
    assert(reach.len() == reach_names.len());
    lemma_absent(reach_names, only);
    assert forall|name: Seq<char>| #[trigger] has_name(reach_names, name) <==> has_name(names, name)
        && leaves(configured, name) by {
        lemma_left_are_kept(names, configured, name);
    }
    assert(gone.len() == 0 <==> all_reached(names, configured, only));
    lemma_none_beyond(gone, absent(names, only));
    if let Ok(left) = narrowed(found, names, configured, only, kind) {
        assert(left == kept(reach, reach_names, only));
        assert forall|k: int| 0 <= k < left.len() implies is_left(
            found,
            names,
            configured,
            only,
            #[trigger] left[k],
        ) by {
            let p = lemma_kept_stand_for(reach, reach_names, only, k);
            let at = lemma_kept_stand_for(found, names, configured, p);
            assert(reach_names[p] == names[at]);
            assert(stands_for(found, names, configured, left[k], at));
            assert(leaves(only, names[at]));
        }
        assert forall|name: Seq<char>|
            has_name(names, name) && leaves(configured, name) && leaves(
                only,
                name,
            ) implies #[trigger] keeps_name(found, names, left, name) by {
            assert(has_name(reach_names, name));
            lemma_left_are_kept(reach_names, only, name);
            let left_names = kept(reach_names, reach_names, only);
            let k = choose|k: int|
                0 <= k < left_names.len() && same_letters(#[trigger] left_names[k], name);
            if only.len() > 0 {
                lemma_picks(reach_names, only);
            }
            let p = lemma_kept_stand_for(reach, reach_names, only, k);
            let at = lemma_kept_stand_for(found, names, configured, p);
            assert(reach_names[p] == names[at]);
            assert(left[k] == found[at]);
            assert(same_letters(names[at], name));
            assert(kept_at(found, names, left, name, k, at));
        }
    }
}

proof fn lemma_none_beyond(names: Seq<Seq<char>>, known: Seq<Seq<char>>)
    ensures
        super::first_beyond(names, known) is Some ==> names.len() > 0,
{
}

/// Whether something is what was found under a name that both lists leave.
pub open spec fn is_left<V>(
    found: Seq<V>,
    names: Seq<Seq<char>>,
    configured: Seq<Seq<char>>,
    only: Seq<Seq<char>>,
    held: V,
) -> bool {
    exists|at: int| #[trigger]
        stands_for(found, names, configured, held, at) && leaves(only, names[at])
}

/// Whether something of a name is at a place of what is left, and was found at
/// another.
pub open spec fn kept_at<V>(
    found: Seq<V>,
    names: Seq<Seq<char>>,
    left: Seq<V>,
    name: Seq<char>,
    k: int,
    at: int,
) -> bool {
    &&& 0 <= k < left.len()
    &&& 0 <= at < found.len()
    &&& left[k] == found[at]
    &&& same_letters(names[at], name)
}

pub open spec fn keeps_name<V>(
    found: Seq<V>,
    names: Seq<Seq<char>>,
    left: Seq<V>,
    name: Seq<char>,
) -> bool {
    exists|k: int, at: int| kept_at(found, names, left, name, k, at)
}

/// The vaults a command reads are vaults that were found, each under a name
/// that the allowlist and the flags leave: all of them where neither names any.
pub proof fn law_the_vaults_read_are_those_named(
    found: Seq<VaultView>,
    azure: AzureView,
    only: Seq<Seq<char>>,
)
    ensures
        vaults_for(found, azure, only) matches Ok(left) ==> {
            &&& azure.vaults.len() == 0 && only.len() == 0 ==> left == found
            &&& forall|k: int|
                0 <= k < left.len() ==> found.contains(#[trigger] left[k]) && leaves(
                    azure.vaults,
                    left[k].name,
                ) && leaves(only, left[k].name)
        },
        vaults_for(found, azure, only) is Ok <==> forall|i: int|
            0 <= i < only.len() && trimmed(#[trigger] only[i]).len() > 0 ==> leaves(
                azure.vaults,
                trimmed(only[i]),
            ) && exists|k: int|
                0 <= k < found.len() && same_letters((#[trigger] found[k]).name, trimmed(only[i])),
        vaults_for(found, azure, only) matches Err(reason) ==> reason.code == 2,
{
    let names = vault_names(found);
    law_a_command_reads_what_both_lists_leave(found, names, azure.vaults, only, "vault"@);
    if let Ok(left) = vaults_for(found, azure, only) {
        assert forall|k: int| 0 <= k < left.len() implies found.contains(#[trigger] left[k])
            && leaves(azure.vaults, left[k].name) && leaves(only, left[k].name) by {
            assert(is_left(found, names, azure.vaults, only, left[k]));
            let at = choose|at: int| #[trigger]
                stands_for(found, names, azure.vaults, left[k], at) && leaves(only, names[at]);
            assert(names[at] == left[k].name);
        }
    }
    assert forall|name: Seq<char>| #[trigger] has_name(names, name) <==> exists|k: int|
        0 <= k < found.len() && same_letters((#[trigger] found[k]).name, name) by {
        if has_name(names, name) {
            let k = choose|k: int| 0 <= k < names.len() && same_letters(#[trigger] names[k], name);
            assert(same_letters(found[k].name, name));
        }
        if exists|k: int|
            0 <= k < found.len() && same_letters((#[trigger] found[k]).name, name) {
            let k = choose|k: int|
                0 <= k < found.len() && same_letters((#[trigger] found[k]).name, name);
            assert(same_letters(names[k], name));
        }
    }
}

/// So it is with registries.
pub proof fn law_the_registries_read_are_those_named(
    found: Seq<RegistryView>,
    azure: AzureView,
    only: Seq<Seq<char>>,
)
    ensures
        registries_for(found, azure, only) matches Ok(left) ==> {
            &&& azure.registries.len() == 0 && only.len() == 0 ==> left == found
            &&& forall|k: int|
                0 <= k < left.len() ==> found.contains(#[trigger] left[k]) && leaves(
                    azure.registries,
                    left[k].name,
                ) && leaves(only, left[k].name)
        },
        registries_for(found, azure, only) is Ok <==> forall|i: int|
            0 <= i < only.len() && trimmed(#[trigger] only[i]).len() > 0 ==> leaves(
                azure.registries,
                trimmed(only[i]),
            ) && exists|k: int|
                0 <= k < found.len() && same_letters((#[trigger] found[k]).name, trimmed(only[i])),
        registries_for(found, azure, only) matches Err(reason) ==> reason.code == 2,
{
    let names = registry_names(found);
    law_a_command_reads_what_both_lists_leave(found, names, azure.registries, only, "registry"@);
    if let Ok(left) = registries_for(found, azure, only) {
        assert forall|k: int| 0 <= k < left.len() implies found.contains(#[trigger] left[k])
            && leaves(azure.registries, left[k].name) && leaves(only, left[k].name) by {
            assert(is_left(found, names, azure.registries, only, left[k]));
            let at = choose|at: int| #[trigger]
                stands_for(found, names, azure.registries, left[k], at) && leaves(only, names[at]);
            assert(names[at] == left[k].name);
        }
    }
    assert forall|name: Seq<char>| #[trigger] has_name(names, name) <==> exists|k: int|
        0 <= k < found.len() && same_letters((#[trigger] found[k]).name, name) by {
        if has_name(names, name) {
            let k = choose|k: int| 0 <= k < names.len() && same_letters(#[trigger] names[k], name);
            assert(same_letters(found[k].name, name));
        }
        if exists|k: int|
            0 <= k < found.len() && same_letters((#[trigger] found[k]).name, name) {
            let k = choose|k: int|
                0 <= k < found.len() && same_letters((#[trigger] found[k]).name, name);
            assert(same_letters(names[k], name));
        }
    }
}

// ---------------------------------------------------------------------------
// Rows on file
// ---------------------------------------------------------------------------

/// Whether some vaults have one of a name.
pub open spec fn has_vault(vaults: Seq<VaultView>, name: Seq<char>) -> bool {
    exists|k: int| 0 <= k < vaults.len() && (#[trigger] vaults[k]).name == name
}

/// Whether some registries have one of a name.
pub open spec fn has_registry(registries: Seq<RegistryView>, name: Seq<char>) -> bool {
    exists|k: int| 0 <= k < registries.len() && (#[trigger] registries[k]).name == name
}

proof fn lemma_rows_within(rows: Seq<SecretRowView>, vaults: Seq<VaultView>)
    ensures
        rows_within(rows, vaults, false) == rows.filter(
            |row: SecretRowView| has_vault(vaults, row.vault),
        ),
        rows_within(rows, vaults, true) == rows,
    decreases rows.len(),
{
    reveal(Seq::filter);
    if rows.len() > 0 {
        lemma_rows_within(rows.drop_last(), vaults);
        let name = rows.last().vault;
        let names = vault_names(vaults);
        if names.contains(name) {
            let k = names.index_of(name);
            assert(vaults[k].name == name);
        }
        if has_vault(vaults, name) {
            let k = choose|k: int| 0 <= k < vaults.len() && (#[trigger] vaults[k]).name == name;
            assert(names[k] == name);
        }
        assert(rows.drop_last().push(rows.last()) =~= rows);
    } else {
        assert(rows_within(rows, vaults, true) =~= rows);
    }
}

proof fn lemma_repositories_within(rows: Seq<RepositoryView>, registries: Seq<RegistryView>)
    ensures
        repositories_within(rows, registries, false) == rows.filter(
            |row: RepositoryView| has_registry(registries, row.registry),
        ),
        repositories_within(rows, registries, true) == rows,
    decreases rows.len(),
{
    reveal(Seq::filter);
    if rows.len() > 0 {
        lemma_repositories_within(rows.drop_last(), registries);
        let name = rows.last().registry;
        let names = registry_names(registries);
        if names.contains(name) {
            let k = names.index_of(name);
            assert(registries[k].name == name);
        }
        if has_registry(registries, name) {
            let k = choose|k: int|
                0 <= k < registries.len() && (#[trigger] registries[k]).name == name;
            assert(names[k] == name);
        }
        assert(rows.drop_last().push(rows.last()) =~= rows);
    } else {
        assert(repositories_within(rows, registries, true) =~= rows);
    }
}

/// The secrets that are read from the file are of the vaults that the flags
/// and the allowlist leave. With either of them, each row is of a vault that
/// was left, and every row on file of such a vault is there, in the order of
/// the file; with neither, every row on file is.
pub proof fn law_the_secrets_on_file_are_narrowed(
    client: ClientView,
    context: Context,
    only: Seq<Seq<char>>,
    read_at: Timestamp,
    vaults: Vec<Vault>,
    secrets: Vec<SecretRow>,
) -> (left: Seq<VaultView>)
    requires
        context.on_file("secrets"@) == Some(CachedTab::Secrets { read_at, vaults, secrets }),
    ensures
        ({
            let (then, read) = secrets_read(client, context, only, false);
            &&& then == client
            &&& read is Ok <==> vaults_for(views(vaults@), context.azure@, only) is Ok
            &&& read matches Ok(listing) ==> {
                let rows = listing.0;
                &&& vaults_for(views(vaults@), context.azure@, only) == Ok::<
                    Seq<VaultView>,
                    ReasonView,
                >(left)
                &&& listing.1.len() == 0
                &&& only.len() > 0 || context.azure.vaults@.len() > 0 ==> {
                    &&& rows == views(secrets@).filter(
                        |row: SecretRowView| has_vault(left, row.vault),
                    )
                    &&& forall|i: int|
                        0 <= i < rows.len() ==> has_vault(left, (#[trigger] rows[i]).vault)
                    &&& forall|i: int|
                        0 <= i < secrets@.len() && has_vault(left, (#[trigger] secrets@[i]).vault@)
                            ==> rows.contains(secrets@[i]@)
                }
                &&& only.len() == 0 && context.azure.vaults@.len() == 0 ==> rows == views(secrets@)
            }
        }),
{
    let all = views(secrets@);
    match vaults_for(views(vaults@), context.azure@, only) {
        Ok(left) => {
            lemma_rows_within(all, left);
            let keep = |row: SecretRowView| has_vault(left, row.vault);
            let rows = all.filter(keep);
            assert forall|i: int| 0 <= i < rows.len() implies has_vault(
                left,
                (#[trigger] rows[i]).vault,
            ) by {
                all.lemma_filter_pred(keep, i);
            }
            assert forall|i: int|
                0 <= i < secrets@.len() && has_vault(
                    left,
                    (#[trigger] secrets@[i]).vault@,
                ) implies rows.contains(secrets@[i]@) by {
                assert(all[i] == secrets@[i]@);
                all.lemma_filter_contains(keep, i);
            }
            left
        },
        Err(_) => Seq::empty(),
    }
}

/// So are the repositories that are read from the file.
pub proof fn law_the_repositories_on_file_are_narrowed(
    client: ClientView,
    context: Context,
    only: Seq<Seq<char>>,
    read_at: Timestamp,
    registries: Vec<Registry>,
    repositories: Vec<Repository>,
) -> (left: Seq<RegistryView>)
    requires
        context.on_file("registries"@) == Some(
            CachedTab::Registries { read_at, registries, repositories },
        ),
    ensures
        ({
            let (then, read) = repositories_read(client, context, only, false);
            &&& then == client
            &&& read is Ok <==> registries_for(views(registries@), context.azure@, only) is Ok
            &&& read matches Ok(listing) ==> {
                let rows = listing.0;
                &&& registries_for(views(registries@), context.azure@, only) == Ok::<
                    Seq<RegistryView>,
                    ReasonView,
                >(left)
                &&& listing.1.len() == 0
                &&& only.len() > 0 || context.azure.registries@.len() > 0 ==> {
                    &&& rows == views(repositories@).filter(
                        |row: RepositoryView| has_registry(left, row.registry),
                    )
                    &&& forall|i: int|
                        0 <= i < rows.len() ==> has_registry(left, (#[trigger] rows[i]).registry)
                    &&& forall|i: int|
                        0 <= i < repositories@.len() && has_registry(
                            left,
                            (#[trigger] repositories@[i]).registry@,
                        ) ==> rows.contains(repositories@[i]@)
                }
                &&& only.len() == 0 && context.azure.registries@.len() == 0 ==> rows == views(
                    repositories@,
                )
            }
        }),
{
    let all = views(repositories@);
    match registries_for(views(registries@), context.azure@, only) {
        Ok(left) => {
            lemma_repositories_within(all, left);
            let keep = |row: RepositoryView| has_registry(left, row.registry);
            let rows = all.filter(keep);
            assert forall|i: int| 0 <= i < rows.len() implies has_registry(
                left,
                (#[trigger] rows[i]).registry,
            ) by {
                all.lemma_filter_pred(keep, i);
            }
            assert forall|i: int|
                0 <= i < repositories@.len() && has_registry(
                    left,
                    (#[trigger] repositories@[i]).registry@,
                ) implies rows.contains(repositories@[i]@) by {
                assert(all[i] == repositories@[i]@);
                all.lemma_filter_contains(keep, i);
            }
            left
        },
        Err(_) => Seq::empty(),
    }
}

/// What is read from the file is under the tab's key there, and young enough:
/// read no longer ago than the refresh interval, and not in time to come. An
/// interval of nought never runs out; where none is set it is five minutes. The
/// bound is said of intervals that a signed count of seconds holds.
pub proof fn law_what_is_on_file_is_young_enough(
    context: Context,
    snapshot: Snapshot,
    tab: Seq<char>,
)
    requires
        context.cache == Some(&snapshot),
    ensures
        context.on_file(tab) matches Some(entry) ==> {
            &&& exists|i: int|
                0 <= i < snapshot.tabs@.len() && (#[trigger] snapshot.tabs@[i]).0@ == tab
                    && snapshot.tabs@[i].1 == entry
            &&& context.azure.refresh is Some && 0 < context.azure.refresh->0 <= i64::MAX ==> {
                &&& entry.moment().seconds <= context.now.seconds
                &&& context.now.seconds - entry.moment().seconds < context.azure.refresh->0
            }
            &&& context.azure.refresh is None ==> {
                &&& entry.moment().seconds <= context.now.seconds
                &&& context.now.seconds - entry.moment().seconds < 300
            }
        },
        context.azure.refresh == Some(0u64) ==> context.on_file(tab) == tab_under(
            snapshot.tabs@,
            tab,
        ),
{
    lemma_tab_under(snapshot.tabs@, tab);
}

proof fn lemma_tab_under(tabs: Seq<(String, CachedTab)>, key: Seq<char>)
    ensures
        tab_under(tabs, key) matches Some(entry) ==> exists|i: int|
            0 <= i < tabs.len() && (#[trigger] tabs[i]).0@ == key && tabs[i].1 == entry,
    decreases tabs.len(),
{
    if tabs.len() > 0 && tabs[0].0@ != key {
        let rest = tabs.skip(1);
        lemma_tab_under(rest, key);
        if let Some(entry) = tab_under(rest, key) {
            let i = choose|i: int|
                0 <= i < rest.len() && (#[trigger] rest[i]).0@ == key && rest[i].1 == entry;
            assert(tabs[i + 1] == rest[i]);
        }
    }
}

// ---------------------------------------------------------------------------
// Rows from Azure
// ---------------------------------------------------------------------------

/// A listing for each vault, of that vault's secrets.
pub proof fn lemma_vaults_listed(client: ClientView, vaults: Seq<VaultView>, count: nat)
    requires
        count <= vaults.len(),
    ensures
        ({
            let listings = client.vaults_listed(vaults, count).1;
            &&& listings.len() == count
            &&& forall|i: int, k: int|
                0 <= i < listings.len() && listings[i] is Ok && 0 <= k < listings[i]->Ok_0.len()
                    ==> (#[trigger] listings[i]->Ok_0[k]).vault == vaults[i].name
        }),
    decreases count,
{
    if count > 0 {
        let (then, before) = client.vaults_listed(vaults, (count - 1) as nat);
        lemma_vaults_listed(client, vaults, (count - 1) as nat);
        let vault = vaults[count - 1];
        let (last, listing) = then.secrets_listed(
            vault,
            Some(secrets_url(vault.uri)),
            Seq::empty(),
            PAGES as nat,
        );
        crate::azure::readings::lemma_secrets_listed(
            then,
            vault,
            secrets_url(vault.uri),
            Seq::empty(),
            PAGES as nat,
        );
        let listings = client.vaults_listed(vaults, count).1;
        assert forall|i: int, k: int|
            0 <= i < listings.len() && listings[i] is Ok && 0 <= k
                < listings[i]->Ok_0.len() implies (#[trigger] listings[i]->Ok_0[k]).vault
            == vaults[i].name by {
            if i < before.len() {
                assert(listings[i] == before[i]);
                assert((before[i]->Ok_0[k]).vault == vaults[i].name);
            } else {
                assert(listings[i] == listing);
            }
        }
    }
}

proof fn lemma_rows_of(
    vaults: Seq<VaultView>,
    listings: Seq<Result<Seq<SecretRowView>, FailureView>>,
)
    requires
        listings.len() <= vaults.len(),
        forall|i: int, k: int|
            0 <= i < listings.len() && listings[i] is Ok && 0 <= k < listings[i]->Ok_0.len() ==> (
            #[trigger] listings[i]->Ok_0[k]).vault == vaults[i].name,
    ensures
        forall|i: int|
            0 <= i < rows_of(listings).len() ==> has_vault(
                vaults,
                (#[trigger] rows_of(listings)[i]).vault,
            ),
    decreases listings.len(),
{
    if listings.len() > 0 {
        let before = listings.drop_last();
        assert forall|i: int, k: int|
            0 <= i < before.len() && before[i] is Ok && 0 <= k < before[i]->Ok_0.len() implies (
        #[trigger] before[i]->Ok_0[k]).vault == vaults[i].name by {
            assert(before[i] == listings[i]);
            assert((listings[i]->Ok_0[k]).vault == vaults[i].name);
        }
        lemma_rows_of(vaults, before);
        let rows = rows_of(listings);
        assert forall|i: int| 0 <= i < rows.len() implies has_vault(
            vaults,
            (#[trigger] rows[i]).vault,
        ) by {
            let first = rows_of(before);
            if i < first.len() {
                assert(rows[i] == first[i]);
            } else {
                let at = listings.len() - 1;
                assert(listings[at] == listings.last());
                let k = i - first.len();
                assert(rows[i] == listings[at]->Ok_0[k]);
                assert((listings[at]->Ok_0[k]).vault == vaults[at].name);
            }
        }
    }
}

/// Every secret that is read from Azure is of a vault that the flags and the
/// allowlist leave, of those in the inventory.
pub proof fn law_the_secrets_listed_are_narrowed(
    client: ClientView,
    context: Context,
    only: Seq<Seq<char>>,
)
    ensures
        ({
            let (then, read) = secrets_read(client, context, only, true);
            let inventory = client.inventory_for(context, true).1;
            read matches Ok(listing) ==> inventory matches Ok(inventory) && vaults_for(
                inventory.vaults,
                context.azure@,
                only,
            ) matches Ok(left) && forall|i: int|
                0 <= i < listing.0.len() ==> has_vault(left, (#[trigger] listing.0[i]).vault)
        }),
{
    let (one, inventory) = client.inventory_for(context, true);
    if let Ok(inventory) = inventory {
        if let Ok(left) = vaults_for(inventory.vaults, context.azure@, only) {
            lemma_vaults_listed(one, left, left.len());
            lemma_rows_of(left, one.vaults_listed(left, left.len()).1);
        }
    }
}

proof fn lemma_repositories_of(
    registries: Seq<RegistryView>,
    catalogs: Seq<Result<Seq<Seq<char>>, FailureView>>,
)
    requires
        catalogs.len() <= registries.len(),
    ensures
        forall|i: int|
            0 <= i < repositories_of(registries, catalogs).len() ==> has_registry(
                registries,
                (#[trigger] repositories_of(registries, catalogs)[i]).registry,
            ),
    decreases catalogs.len(),
{
    if catalogs.len() > 0 {
        let before = catalogs.drop_last();
        lemma_repositories_of(registries, before);
        let rows = repositories_of(registries, catalogs);
        let first = repositories_of(registries, before);
        assert forall|i: int| 0 <= i < rows.len() implies has_registry(
            registries,
            (#[trigger] rows[i]).registry,
        ) by {
            if i < first.len() {
                assert(rows[i] == first[i]);
            } else {
                let at = catalogs.len() - 1;
                assert(rows[i] == unfilled(registries[at].name, catalogs.last()->Ok_0)[i
                    - first.len()]);
                assert(registries[at].name == rows[i].registry);
            }
        }
    }
}

/// A catalog for each registry.
pub proof fn lemma_catalogs_listed(client: ClientView, registries: Seq<RegistryView>, count: nat)
    requires
        count <= registries.len(),
    ensures
        client.catalogs_listed(registries, count).1.len() == count,
    decreases count,
{
    if count > 0 {
        lemma_catalogs_listed(client, registries, (count - 1) as nat);
    }
}

/// Every repository that is read from Azure is of a registry that the flags
/// and the allowlist leave, of those in the inventory.
pub proof fn law_the_repositories_listed_are_narrowed(
    client: ClientView,
    context: Context,
    only: Seq<Seq<char>>,
)
    ensures
        ({
            let (then, read) = repositories_read(client, context, only, true);
            let inventory = client.inventory_for(context, true).1;
            read matches Ok(listing) ==> inventory matches Ok(inventory) && registries_for(
                inventory.registries,
                context.azure@,
                only,
            ) matches Ok(left) && forall|i: int|
                0 <= i < listing.0.len() ==> has_registry(left, (#[trigger] listing.0[i]).registry)
        }),
{
    let (one, inventory) = client.inventory_for(context, true);
    if let Ok(inventory) = inventory {
        if let Ok(left) = registries_for(inventory.registries, context.azure@, only) {
            lemma_catalogs_listed(one, left, left.len());
            lemma_repositories_of(left, one.catalogs_listed(left, left.len()).1);
        }
    }
}

// ---------------------------------------------------------------------------
// What a query leaves
// ---------------------------------------------------------------------------

proof fn lemma_words(held: Seq<char>, words: Seq<Seq<char>>)
    ensures
        mentions_all(held, words) <==> all_appear(words, held),
{
    assert forall|i: int| 0 <= i < words.len() implies mentions(held, #[trigger] words[i])
        == crate::plain::appears(words[i], held) by {
        law_a_mention_is_an_appearance(held, words[i]);
    }
}

/// A query leaves the secrets that answer every filter of it and hold every
/// word of it, in the order they came.
pub proof fn law_a_query_leaves_the_secrets_asked_for(
    rows: Seq<SecretRowView>,
    query: QueryView,
    now: Timestamp,
)
    ensures
        secrets_shown(rows, query, now) == rows.filter(
            |row: SecretRowView|
                answers_all(row, query.fields, now) && all_appear(query.words, searched(row)),
        ),
    decreases rows.len(),
{
    reveal(Seq::filter);
    if rows.len() > 0 {
        law_a_query_leaves_the_secrets_asked_for(rows.drop_last(), query, now);
        lemma_words(searched(rows.last()), query.words);
    }
}

/// A query leaves the repositories that answer every filter of it and hold
/// every word of it, in the order they came.
pub proof fn law_a_query_leaves_the_repositories_asked_for(
    rows: Seq<RepositoryView>,
    query: QueryView,
    now: Timestamp,
)
    ensures
        repositories_shown(rows, query, now) == rows.filter(
            |row: RepositoryView|
                repository_answers(row, query.fields, now) && all_appear(
                    query.words,
                    repository_searched(row),
                ),
        ),
    decreases rows.len(),
{
    reveal(Seq::filter);
    if rows.len() > 0 {
        law_a_query_leaves_the_repositories_asked_for(rows.drop_last(), query, now);
        lemma_words(repository_searched(rows.last()), query.words);
    }
}

// ---------------------------------------------------------------------------
// The one holder
// ---------------------------------------------------------------------------

/// Whether a vault's listing has a secret of a name.
pub open spec fn lists(
    listings: Seq<Result<Seq<SecretRowView>, FailureView>>,
    at: int,
    name: Seq<char>,
) -> bool {
    listings[at] matches Ok(rows) && exists|k: int|
        0 <= k < rows.len() && (#[trigger] rows[k]).name == name
}

proof fn lemma_row_named(rows: Seq<SecretRowView>, name: Seq<char>)
    ensures
        row_named(rows, name) is Some <==> exists|k: int|
            0 <= k < rows.len() && (#[trigger] rows[k]).name == name,
        row_named(rows, name) matches Some(row) ==> rows.contains(row) && row.name == name,
    decreases rows.len(),
{
    if rows.len() > 0 {
        let rest = rows.skip(1);
        lemma_row_named(rest, name);
        if rows[0].name == name {
            assert(rows.contains(rows[0]));
        } else {
            if exists|k: int| 0 <= k < rows.len() && (#[trigger] rows[k]).name == name {
                let k = choose|k: int| 0 <= k < rows.len() && (#[trigger] rows[k]).name == name;
                assert(rest[k - 1] == rows[k]);
            }
            if let Some(row) = row_named(rest, name) {
                let k = rest.index_of(row);
                assert(rows[k + 1] == row);
            }
        }
    }
}

/// Whether a place is where a holder is from.
pub open spec fn held_at(
    vaults: Seq<VaultView>,
    listings: Seq<Result<Seq<SecretRowView>, FailureView>>,
    name: Seq<char>,
    held: (VaultView, SecretRowView),
    at: int,
) -> bool {
    &&& 0 <= at < listings.len()
    &&& held.0 == vaults[at]
    &&& listings[at] matches Ok(rows) && rows.contains(held.1) && held.1.name == name
}

proof fn lemma_holders(
    vaults: Seq<VaultView>,
    listings: Seq<Result<Seq<SecretRowView>, FailureView>>,
    name: Seq<char>,
)
    ensures
        holders(vaults, listings, name).len() == 0 ==> forall|at: int|
            0 <= at < listings.len() ==> !lists(listings, at, name),
        holders(vaults, listings, name).len() == 1 ==> exists|at: int| #[trigger]
            held_at(vaults, listings, name, holders(vaults, listings, name)[0], at) && forall|j: int|
                0 <= j < listings.len() && j != at ==> !lists(listings, j, name),
    decreases listings.len(),
{
    if listings.len() > 0 {
        let before = listings.drop_last();
        let end = listings.len() - 1;
        lemma_holders(vaults, before, name);
        assert forall|j: int| 0 <= j < before.len() implies lists(before, j, name) == lists(
            listings,
            j,
            name,
        ) by {
            assert(before[j] == listings[j]);
        }
        let all = holders(vaults, listings, name);
        let first = holders(vaults, before, name);
        let last = match listings.last() {
            Ok(rows) => row_named(rows, name),
            Err(_) => None,
        };
        if let Ok(rows) = listings.last() {
            lemma_row_named(rows, name);
        }
        assert(lists(listings, end, name) <==> last is Some);
        if all.len() == 0 {
            assert forall|at: int| 0 <= at < listings.len() implies !lists(listings, at, name) by {
                if at < before.len() {
                    assert(!lists(before, at, name));
                }
            }
        }
        if all.len() == 1 {
            if last is Some {
                assert(first.len() == 0);
                assert(held_at(vaults, listings, name, all[0], end));
                assert forall|j: int| 0 <= j < listings.len() && j != end implies !lists(
                    listings,
                    j,
                    name,
                ) by {
                    assert(!lists(before, j, name));
                }
            } else {
                let at = choose|at: int| #[trigger]
                    held_at(vaults, before, name, first[0], at) && forall|j: int|
                        0 <= j < before.len() && j != at ==> !lists(before, j, name);
                assert(before[at] == listings[at]);
                assert(held_at(vaults, listings, name, all[0], at));
                assert forall|j: int| 0 <= j < listings.len() && j != at implies !lists(
                    listings,
                    j,
                    name,
                ) by {
                    if j < before.len() {
                        assert(!lists(before, j, name));
                    }
                }
            }
        }
    }
}

/// The vault that a secret is read from is the only one whose listing has a
/// secret of exactly that name.
pub proof fn law_the_holder_is_the_only_one(
    vaults: Seq<VaultView>,
    listings: Seq<Result<Seq<SecretRowView>, FailureView>>,
    name: Seq<char>,
)
    ensures
        vault_chosen(vaults, listings, name) matches Ok(held) ==> exists|at: int| #[trigger]
            held_at(vaults, listings, name, held, at) && forall|j: int|
                0 <= j < listings.len() && j != at ==> !lists(listings, j, name),
{
    lemma_holders(vaults, listings, name);
    if let Ok(held) = vault_chosen(vaults, listings, name) {
        let all = holders(vaults, listings, name);
        assert(held == all[0]);
        let at = choose|at: int| #[trigger]
            held_at(vaults, listings, name, all[0], at) && forall|j: int|
                0 <= j < listings.len() && j != at ==> !lists(listings, j, name);
        assert(held_at(vaults, listings, name, held, at));
    }
}

/// Whether a registry's catalog has a repository.
pub open spec fn catalogs_it(
    catalogs: Seq<Result<Seq<Seq<char>>, FailureView>>,
    at: int,
    repo: Seq<char>,
) -> bool {
    listings_ok(catalogs, at) && catalogs[at]->Ok_0.contains(repo)
}

pub open spec fn listings_ok(catalogs: Seq<Result<Seq<Seq<char>>, FailureView>>, at: int) -> bool {
    0 <= at < catalogs.len() && catalogs[at] is Ok
}

proof fn lemma_keepers(
    registries: Seq<RegistryView>,
    catalogs: Seq<Result<Seq<Seq<char>>, FailureView>>,
    repo: Seq<char>,
)
    ensures
        keepers(registries, catalogs, repo).len() == 0 ==> forall|at: int|
            0 <= at < catalogs.len() ==> !catalogs_it(catalogs, at, repo),
        keepers(registries, catalogs, repo).len() == 1 ==> exists|at: int| #[trigger]
            catalogs_it(catalogs, at, repo) && keepers(registries, catalogs, repo)[0]
                == registries[at] && forall|j: int|
                0 <= j < catalogs.len() && j != at ==> !catalogs_it(catalogs, j, repo),
    decreases catalogs.len(),
{
    if catalogs.len() > 0 {
        let before = catalogs.drop_last();
        let end = catalogs.len() - 1;
        lemma_keepers(registries, before, repo);
        assert forall|j: int| 0 <= j < before.len() implies catalogs_it(before, j, repo)
            == catalogs_it(catalogs, j, repo) by {
            assert(before[j] == catalogs[j]);
        }
        let all = keepers(registries, catalogs, repo);
        let first = keepers(registries, before, repo);
        if all.len() == 0 {
            assert forall|at: int| 0 <= at < catalogs.len() implies !catalogs_it(
                catalogs,
                at,
                repo,
            ) by {
                if at < before.len() {
                    assert(!catalogs_it(before, at, repo));
                }
            }
        }
        if all.len() == 1 {
            if catalogs_it(catalogs, end, repo) {
                assert(first.len() == 0);
                assert forall|j: int| 0 <= j < catalogs.len() && j != end implies !catalogs_it(
                    catalogs,
                    j,
                    repo,
                ) by {
                    assert(!catalogs_it(before, j, repo));
                }
            } else {
                assert(all == first);
                let at = choose|at: int| #[trigger]
                    catalogs_it(before, at, repo) && first[0] == registries[at] && forall|j: int|
                        0 <= j < before.len() && j != at ==> !catalogs_it(before, j, repo);
                assert(catalogs_it(catalogs, at, repo));
                assert forall|j: int| 0 <= j < catalogs.len() && j != at implies !catalogs_it(
                    catalogs,
                    j,
                    repo,
                ) by {
                    if j < before.len() {
                        assert(!catalogs_it(before, j, repo));
                    }
                }
            }
        }
    }
}

/// The registry that tags are read from is the only one whose catalog has
/// exactly that repository.
pub proof fn law_the_keeper_is_the_only_one(
    registries: Seq<RegistryView>,
    catalogs: Seq<Result<Seq<Seq<char>>, FailureView>>,
    repo: Seq<char>,
)
    ensures
        registry_chosen(registries, catalogs, repo) matches Ok(registry) ==> exists|at: int|
            #[trigger]
            catalogs_it(catalogs, at, repo) && registry == registries[at] && forall|j: int|
                0 <= j < catalogs.len() && j != at ==> !catalogs_it(catalogs, j, repo),
{
    lemma_keepers(registries, catalogs, repo);
}

// ---------------------------------------------------------------------------
// The listings as they are printed
// ---------------------------------------------------------------------------

/// `secrets` prints the rows that were read, of the vaults and from where it
/// was told, but for those that the query leaves out: as a document where one
/// was asked for and as lines where none was. What would not answer is told at
/// the end.
pub proof fn law_secrets_prints_the_rows_asked_for(
    client: ClientView,
    context: Context,
    query: Seq<char>,
    only: Seq<Seq<char>>,
    json: bool,
    refresh: bool,
)
    ensures
        ({
            let (then, read) = secrets_read(client, context, only, refresh);
            let (last, ran) = secrets_run(client, context, query, only, json, refresh);
            let asked = QueryView::of(query, known_keys());
            &&& last == then
            &&& read is Err ==> ran is Err && ran->Err_0 == read->Err_0
            &&& read is Ok ==> {
                let shown = (read->Ok_0).0.filter(
                    |row: SecretRowView|
                        answers_all(row, asked.fields, context.now) && all_appear(
                            asked.words,
                            searched(row),
                        ),
                );
                &&& ran is Ok
                &&& json ==> (ran->Ok_0).0 == OutputView::Document(secrets_document(shown))
                &&& !json ==> (ran->Ok_0).0 == OutputView::Lines(secret_lines(shown, context.now))
                &&& (ran->Ok_0).1 is Some <==> (read->Ok_0).1.len() > 0
            }
        }),
{
    let (then, read) = secrets_read(client, context, only, refresh);
    if let Ok((rows, failed)) = read {
        law_a_query_leaves_the_secrets_asked_for(
            rows,
            QueryView::of(query, known_keys()),
            context.now,
        );
    }
}

/// So does `repos`.
pub proof fn law_repos_prints_the_rows_asked_for(
    client: ClientView,
    context: Context,
    query: Seq<char>,
    only: Seq<Seq<char>>,
    json: bool,
    refresh: bool,
)
    ensures
        ({
            let (then, read) = repositories_read(client, context, only, refresh);
            let (last, ran) = repos_run(client, context, query, only, json, refresh);
            let asked = QueryView::of(query, repository_keys());
            &&& last == then
            &&& read is Err ==> ran is Err && ran->Err_0 == read->Err_0
            &&& read is Ok ==> {
                let shown = (read->Ok_0).0.filter(
                    |row: RepositoryView|
                        repository_answers(row, asked.fields, context.now) && all_appear(
                            asked.words,
                            repository_searched(row),
                        ),
                );
                &&& ran is Ok
                &&& json ==> (ran->Ok_0).0 == OutputView::Document(repositories_document(shown))
                &&& !json ==> (ran->Ok_0).0 == OutputView::Lines(
                    repository_lines(shown, context.now),
                )
                &&& (ran->Ok_0).1 is Some <==> (read->Ok_0).1.len() > 0
            }
        }),
{
    let (then, read) = repositories_read(client, context, only, refresh);
    if let Ok((rows, failed)) = read {
        law_a_query_leaves_the_repositories_asked_for(
            rows,
            QueryView::of(query, repository_keys()),
            context.now,
        );
    }
}

/// What is read of some vaults is what each of them listed, one behind another,
/// and what would not be listed is told in its own words.
pub proof fn law_every_listing_is_in_the_rows(
    listings: Seq<Result<Seq<SecretRowView>, FailureView>>,
    more: Seq<Result<Seq<SecretRowView>, FailureView>>,
)
    ensures
        rows_of(listings + more) == rows_of(listings) + rows_of(more),
        refusals_of(listings + more) == refusals_of(listings) + refusals_of(more),
        forall|rows: Seq<SecretRowView>|
            #[trigger] rows_of(seq![Ok::<Seq<SecretRowView>, FailureView>(rows)]) == rows,
        forall|failure: FailureView|
            #[trigger] refusals_of(seq![Err::<Seq<SecretRowView>, FailureView>(failure)])
                == seq![failure.text],
    decreases more.len(),
{
    if more.len() == 0 {
        assert(listings + more =~= listings);
        assert(rows_of(listings) + rows_of(more) =~= rows_of(listings));
        assert(refusals_of(listings) + refusals_of(more) =~= refusals_of(listings));
    } else {
        assert((listings + more).drop_last() =~= listings + more.drop_last());
        assert((listings + more).last() == more.last());
        law_every_listing_is_in_the_rows(listings, more.drop_last());
        assert(rows_of(listings + more) =~= rows_of(listings) + rows_of(more));
        assert(refusals_of(listings + more) =~= refusals_of(listings) + refusals_of(more));
    }
    assert forall|rows: Seq<SecretRowView>|
        #[trigger] rows_of(seq![Ok::<Seq<SecretRowView>, FailureView>(rows)]) == rows by {
        let one = seq![Ok::<Seq<SecretRowView>, FailureView>(rows)];
        assert(one.drop_last() =~= Seq::empty());
        assert(rows_of(one.drop_last()) == Seq::<SecretRowView>::empty());
        assert(rows_of(one) =~= rows);
    }
    assert forall|failure: FailureView|
        #[trigger] refusals_of(seq![Err::<Seq<SecretRowView>, FailureView>(failure)])
            == seq![failure.text] by {
        let one = seq![Err::<Seq<SecretRowView>, FailureView>(failure)];
        assert(one.drop_last() =~= Seq::empty());
        assert(refusals_of(one.drop_last()) == Seq::<Seq<char>>::empty());
        assert(refusals_of(one) =~= seq![failure.text]);
    }
}

/// A repository that is listed is a name of its registry's catalog, with its
/// counts and its stamps still to come; and every name of a catalog is listed.
pub proof fn law_every_catalogs_name_is_a_repository(
    registries: Seq<RegistryView>,
    catalogs: Seq<Result<Seq<Seq<char>>, FailureView>>,
    row: RepositoryView,
)
    requires
        catalogs.len() <= registries.len(),
    ensures
        repositories_of(registries, catalogs).contains(row) <==> {
            &&& row.tag_count is None
            &&& row.manifest_count is None
            &&& row.created is None
            &&& row.updated is None
            &&& exists|at: int| #[trigger]
                catalogs_it(catalogs, at, row.name) && registries[at].name == row.registry
        },
    decreases catalogs.len(),
{
    let all = repositories_of(registries, catalogs);
    if catalogs.len() > 0 {
        let before = catalogs.drop_last();
        let end = catalogs.len() - 1;
        law_every_catalogs_name_is_a_repository(registries, before, row);
        let first = repositories_of(registries, before);
        assert forall|at: int| 0 <= at < before.len() implies #[trigger] catalogs_it(
            before,
            at,
            row.name,
        ) == catalogs_it(catalogs, at, row.name) by {
            assert(before[at] == catalogs[at]);
        }
        let more = match catalogs.last() {
            Ok(names) => unfilled(registries[end].name, names),
            Err(_) => Seq::empty(),
        };
        assert(all =~= first + more);
        if first.contains(row) {
            let i = first.index_of(row);
            assert(all[i] == row);
            let at = choose|at: int| #[trigger]
                catalogs_it(before, at, row.name) && registries[at].name == row.registry;
            assert(catalogs_it(catalogs, at, row.name));
        }
        if all.contains(row) {
            let i = all.index_of(row);
            if i < first.len() {
                assert(first[i] == row);
            } else {
                assert(more[i - first.len()] == row);
                let names = catalogs[end]->Ok_0;
                assert(names[i - first.len()] == row.name);
                assert(catalogs_it(catalogs, end, row.name));
            }
        }
        if row.tag_count is None && row.manifest_count is None && row.created is None
            && row.updated is None && exists|at: int| #[trigger]
            catalogs_it(catalogs, at, row.name) && registries[at].name == row.registry {
            let at = choose|at: int| #[trigger]
                catalogs_it(catalogs, at, row.name) && registries[at].name == row.registry;
            if at < before.len() {
                assert(catalogs_it(before, at, row.name));
                assert(first.contains(row));
                let i = first.index_of(row);
                assert(all[i] == row);
            } else {
                let names = catalogs[end]->Ok_0;
                let k = names.index_of(row.name);
                assert(more[k] == row);
                assert(all[first.len() + k] == row);
            }
        }
    }
}

} // verus!
