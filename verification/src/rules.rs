//! Small rules that are promised by themselves: what is typed, what a menu puts
//! in a box, what a flag says over a file, and what a pane leaves of its lines.

use vstd::prelude::*;

use crate::app::pane::PaneView;
use crate::app::scope::{acted_said, deleted_said};
use crate::app::shell::{Level, Rect, ShellView};
use crate::azure::auth::{az_said, full_lines};
use crate::azure::{Registry, Repository, SecretRow, Vault};
use crate::cache::{put_back, CachedTab};
use crate::cli::Cli;
use crate::clipboard::{any_worked, copy_said};
use crate::columns::{lemma_column_at, on_screen, sort_after, with_visible, ColumnConfig, ColumnId};
use crate::config::Config;
use crate::filter::{
    is_env, mentions, mentions_all, query_with_env, runs, without_env, words_of, Env,
};
use crate::input::{printable, InputView, KeyCode, KeyEvent};
use crate::kube::{ObjectView, PodKeyView};
use crate::plain::{appears, digits_of, law_a_mention_is_an_appearance};
use crate::store::{AzureStore, ScopeData};
use crate::text::{decimal, digit, joined, parts, trimmed, white};
use crate::timestamp::Timestamp;

verus! {

// ---------------------------------------------------------------------------
// Words
// ---------------------------------------------------------------------------

/// A word: something, and no blank in it.
pub open spec fn is_one_word(word: Seq<char>) -> bool {
    word.len() > 0 && forall|k: int| 0 <= k < word.len() ==> !white(#[trigger] word[k])
}

proof fn lemma_runs_on(a: Seq<char>, word: Seq<char>)
    requires
        forall|k: int| 0 <= k < word.len() ==> !white(#[trigger] word[k]),
    ensures
        runs(a + " "@ + word) == (words_of(a), word),
    decreases word.len(),
{
    reveal_strlit(" ");
    let all = a + " "@ + word;
    if word.len() == 0 {
        assert(all =~= a + " "@);
        assert(all.drop_last() =~= a);
        assert(all.last() == ' ');
        assert(white(' '));
        assert(runs(all).1 =~= word);
    } else {
        let before = word.drop_last();
        assert(all.drop_last() =~= a + " "@ + before);
        assert(all.last() == word.last());
        assert forall|k: int| 0 <= k < before.len() implies !white(#[trigger] before[k]) by {
            assert(before[k] == word[k]);
        }
        assert(word[word.len() - 1] == word.last());
        lemma_runs_on(a, before);
        assert(before.push(word.last()) =~= word);
    }
}

proof fn lemma_one_run(word: Seq<char>)
    requires
        forall|k: int| 0 <= k < word.len() ==> !white(#[trigger] word[k]),
    ensures
        runs(word) == (Seq::<Seq<char>>::empty(), word),
    decreases word.len(),
{
    if word.len() > 0 {
        let before = word.drop_last();
        assert forall|k: int| 0 <= k < before.len() implies !white(#[trigger] before[k]) by {
            assert(before[k] == word[k]);
        }
        assert(word[word.len() - 1] == word.last());
        lemma_one_run(before);
        assert(before.push(word.last()) =~= word);
    } else {
        assert(runs(word).1 =~= word);
    }
}

/// Words that are joined by blanks are the words of what that makes.
pub proof fn law_joined_words_are_read_back(all: Seq<Seq<char>>)
    requires
        forall|i: int| 0 <= i < all.len() ==> is_one_word(#[trigger] all[i]),
    ensures
        words_of(joined(all, " "@)) == all,
    decreases all.len(),
{
    if all.len() == 0 {
        assert(words_of(joined(all, " "@)) =~= all);
    } else if all.len() == 1 {
        assert(is_one_word(all[0]));
        lemma_one_run(all[0]);
        assert(words_of(all[0]) =~= all);
    } else {
        let before = all.drop_last();
        assert forall|i: int| 0 <= i < before.len() implies is_one_word(#[trigger] before[i]) by {
            assert(before[i] == all[i]);
        }
        law_joined_words_are_read_back(before);
        assert(is_one_word(all[all.len() - 1]));
        lemma_runs_on(joined(before, " "@), all.last());
        assert(before.push(all.last()) =~= all);
    }
}

proof fn lemma_words_are_words(text: Seq<char>)
    ensures
        forall|i: int| 0 <= i < words_of(text).len() ==> is_one_word(#[trigger] words_of(text)[i]),
        forall|k: int| 0 <= k < runs(text).1.len() ==> !white(#[trigger] runs(text).1[k]),
        forall|i: int| 0 <= i < runs(text).0.len() ==> is_one_word(#[trigger] runs(text).0[i]),
    decreases text.len(),
{
    if text.len() > 0 {
        lemma_words_are_words(text.drop_last());
        let (done, open) = runs(text.drop_last());
        assert(open.len() > 0 ==> is_one_word(open));
    }
}

/// Whether a word filters by environment, by its first letters.
pub open spec fn heads_env(word: Seq<char>) -> bool {
    word.len() >= 4 && word[0] == 'e' && word[1] == 'n' && word[2] == 'v' && word[3] == ':'
}

proof fn lemma_heads_env(word: Seq<char>)
    ensures
        is_env(word) <==> heads_env(word),
{
    reveal_strlit("env:");
    if heads_env(word) {
        assert(word.subrange(0, 4) =~= "env:"@);
        assert(crate::text::stands_at(word, "env:"@, 0));
    }
    if is_env(word) {
        let head = word.subrange(0, 4);
        assert(head == "env:"@);
        assert(head[0] == word[0] && head[1] == word[1] && head[2] == word[2] && head[3] == word[3]);
        assert(word[0] == "env:"@[0]);
        assert(word[1] == "env:"@[1]);
        assert(word[2] == "env:"@[2]);
        assert(word[3] == "env:"@[3]);
    }
}

/// A query with an environment chosen has the words it had but for those that
/// filtered by environment, and one more that filters by the one chosen, or
/// none where every environment was.
pub proof fn law_an_environment_chosen_is_the_querys(
    text: Seq<char>,
    env: Option<Env>,
    word: Seq<char>,
)
    ensures
        ({
            let before = words_of(text);
            let after = words_of(query_with_env(text, env));
            &&& !heads_env(word) ==> (after.contains(word) <==> before.contains(word))
            &&& heads_env(word) ==> (after.contains(word) <==> (env == Some(Env::Dev) && word
                == "env:dev"@) || (env == Some(Env::Qa) && word == "env:qa"@) || (env == Some(
                Env::Prod,
            ) && word == "env:prod"@))
        }),
{
    let before = words_of(text);
    let keep = |word: Seq<char>| !is_env(word);
    let rest = without_env(before);
    lemma_words_are_words(text);
    assert forall|i: int| 0 <= i < rest.len() implies is_one_word(#[trigger] rest[i]) && !is_env(
        rest[i],
    ) by {
        before.lemma_filter_pred(keep, i);
        assert(rest.contains(rest[i]));
        before.lemma_filter_contains_rev(keep, rest[i]);
        let k = choose|k: int| 0 <= k < before.len() && before[k] == rest[i];
        assert(is_one_word(before[k]));
    }
    reveal_strlit("env:");
    reveal_strlit("dev");
    reveal_strlit("qa");
    reveal_strlit("prod");
    reveal_strlit("env:dev");
    reveal_strlit("env:qa");
    reveal_strlit("env:prod");
    assert("env:"@ + "dev"@ =~= "env:dev"@);
    assert("env:"@ + "qa"@ =~= "env:qa"@);
    assert("env:"@ + "prod"@ =~= "env:prod"@);
    lemma_heads_env(word);
    let all = match env {
        None => rest,
        Some(env) => rest.push("env:"@ + env.spelling()),
    };
    assert forall|i: int| 0 <= i < all.len() implies is_one_word(#[trigger] all[i]) by {
        if i < rest.len() {
            assert(all[i] == rest[i]);
        }
    }
    law_joined_words_are_read_back(all);
    let after = words_of(query_with_env(text, env));
    assert(after == all);
    if !heads_env(word) {
        if before.contains(word) {
            let k = before.index_of(word);
            before.lemma_filter_contains(keep, k);
            let i = rest.index_of(word);
            assert(all[i] == word);
        }
        if after.contains(word) {
            let i = all.index_of(word);
            if i < rest.len() {
                assert(rest[i] == word);
                assert(rest.contains(word));
                before.lemma_filter_contains_rev(keep, word);
            } else {
                assert(heads_env("env:dev"@) && heads_env("env:qa"@) && heads_env("env:prod"@));
            }
        }
    } else {
        if after.contains(word) {
            let i = all.index_of(word);
            if i < rest.len() {
                assert(!is_env(rest[i]));
            }
        }
        if let Some(env) = env {
            assert(all[rest.len() as int] == "env:"@ + env.spelling());
        }
    }
}

// ---------------------------------------------------------------------------
// Typing
// ---------------------------------------------------------------------------

/// A letter that is typed stands where the caret was, what stood before it
/// stays and what stood behind it moves on; the caret is behind the letter.
pub proof fn law_a_letter_is_typed_at_the_caret(input: InputView, key: KeyEvent, c: char)
    requires
        0 <= input.at <= input.text.len() < usize::MAX,
        key.code == KeyCode::Char(c),
        !key.control,
        !key.alt,
        printable(c),
    ensures
        ({
            let then = input.pressed(key);
            &&& then.text.len() == input.text.len() + 1
            &&& then.text[input.at] == c
            &&& then.at == input.at + 1
            &&& forall|k: int| 0 <= k < input.at ==> #[trigger] then.text[k] == input.text[k]
            &&& forall|k: int|
                input.at < k < then.text.len() ==> #[trigger] then.text[k] == input.text[k - 1]
        }),
{
}

/// `Backspace` takes off the letter before the caret and `Delete` the one
/// behind it; the arrows move the caret by one, `Home` and `End` to the ends;
/// `Ctrl-U` empties the box.
pub proof fn law_a_box_is_edited_at_the_caret(input: InputView, key: KeyEvent)
    requires
        0 <= input.at <= input.text.len() <= usize::MAX,
    ensures
        ({
            let then = input.pressed(key);
            let (text, at) = (input.text, input.at);
            &&& key.code == KeyCode::Backspace && at > 0 ==> then.at == at - 1 && then.text
                =~= text.take(at - 1) + text.skip(at)
            &&& key.code == KeyCode::Backspace && at == 0 ==> then == input
            &&& key.code == KeyCode::Delete && at < text.len() ==> then.at == at && then.text
                =~= text.take(at) + text.skip(at + 1)
            &&& key.code == KeyCode::Left ==> then.text == text && then.at == if at > 0 {
                at - 1
            } else {
                0
            }
            &&& key.code == KeyCode::Right ==> then.text == text && then.at == if at < text.len() {
                at + 1
            } else {
                at
            }
            &&& key.code == KeyCode::Home ==> then.text == text && then.at == 0
            &&& key.code == KeyCode::End ==> then.text == text && then.at == text.len()
            &&& key.code == KeyCode::Char('u') && key.control ==> then.text.len() == 0
        }),
{
}

/// What is pasted stands where the caret was, with a blank for each letter that
/// a line cannot hold.
pub proof fn law_a_paste_stands_at_the_caret(input: InputView, text: Seq<char>)
    requires
        0 <= input.at <= input.text.len(),
        input.text.len() + text.len() <= usize::MAX,
    ensures
        ({
            let then = input.pasted(text);
            &&& then.text.len() == input.text.len() + text.len()
            &&& then.at == input.at + text.len()
            &&& forall|k: int|
                0 <= k < text.len() ==> #[trigger] then.text[input.at + k] == if 0x20
                    <= text[k] as u32 && text[k] as u32 != 0x7f {
                    text[k]
                } else {
                    ' '
                }
            &&& forall|k: int| 0 <= k < input.at ==> #[trigger] then.text[k] == input.text[k]
        }),
{
}

// ---------------------------------------------------------------------------
// Flags
// ---------------------------------------------------------------------------

/// A flag that is given wins over the file, each over its own setting; one that
/// is not leaves it.
pub proof fn law_a_flag_wins_over_its_own_setting(cli: Cli, file: Config)
    ensures
        ({
            let run = cli.merged(file);
            &&& cli.subscriptions@.len() > 0 ==> run.azure.subscriptions == cli.subscriptions
            &&& cli.subscriptions@.len() == 0 ==> run.azure.subscriptions
                == file.azure.subscriptions
            &&& cli.vaults@.len() > 0 ==> run.azure.vaults == cli.vaults
            &&& cli.vaults@.len() == 0 ==> run.azure.vaults == file.azure.vaults
            &&& cli.registries@.len() > 0 ==> run.azure.registries == cli.registries
            &&& cli.registries@.len() == 0 ==> run.azure.registries == file.azure.registries
            &&& cli.refresh is Some ==> run.refresh == cli.refresh
            &&& cli.refresh is None ==> run.refresh == file.refresh
            &&& run.azure.refresh == file.azure.refresh
        }),
{
}

// ---------------------------------------------------------------------------
// Numbers and parts
// ---------------------------------------------------------------------------

/// A number is spelled in its own digits, without a nought in front.
pub proof fn law_a_number_is_spelled_in_its_digits(n: nat)
    ensures
        decimal(n).len() > 0,
        digits_of(decimal(n), n),
        n > 0 ==> decimal(n)[0] != '0',
    decreases n,
{
    let s = decimal(n);
    if n < 10 {
        assert(s.last() == digit(n));
        assert(s.drop_last() =~= Seq::<char>::empty());
        assert(n / 10 == 0);
        assert(digits_of(s.drop_last(), n / 10));
    } else {
        law_a_number_is_spelled_in_its_digits(n / 10);
        assert(s.drop_last() =~= decimal(n / 10));
        assert(s.last() == digit(n % 10));
    }
}

/// The parts of a text, put together again with what parted them, are the text,
/// and none of them holds it.
pub proof fn law_parts_make_the_text_again(s: Seq<char>, c: char)
    ensures
        parts(s, c).len() > 0,
        joined(parts(s, c), seq![c]) == s,
        forall|i: int, k: int|
            0 <= i < parts(s, c).len() && 0 <= k < parts(s, c)[i].len()
                ==> #[trigger] parts(s, c)[i][k] != c,
    decreases s.len(),
{
    let all = parts(s, c);
    if s.len() == 0 {
        assert(all[0] =~= s);
    } else {
        let before = parts(s.drop_last(), c);
        law_parts_make_the_text_again(s.drop_last(), c);
        assert(s =~= s.drop_last().push(s.last()));
        if s.last() == c {
            assert(all.drop_last() =~= before);
            assert(all.last() =~= Seq::<char>::empty());
            assert(joined(all, seq![c]) =~= joined(before, seq![c]) + seq![c] + all.last());
            assert(joined(all, seq![c]) =~= s);
            assert forall|i: int, k: int|
                0 <= i < all.len() && 0 <= k < all[i].len() implies #[trigger] all[i][k] != c by {
                if i < before.len() {
                    assert(all[i] == before[i]);
                    assert(before[i][k] != c);
                }
            }
        } else {
            let last = before.last().push(s.last());
            assert(all.last() == last);
            assert(all.drop_last() =~= before.drop_last());
            if before.len() == 1 {
                assert(joined(all, seq![c]) == last);
                assert(joined(before, seq![c]) == before[0]);
            } else {
                assert(joined(all, seq![c]) == joined(before.drop_last(), seq![c]) + seq![c] + last);
                assert(joined(before, seq![c]) == joined(before.drop_last(), seq![c]) + seq![c]
                    + before.last());
            }
            assert(joined(all, seq![c]) =~= s);
            assert forall|i: int, k: int|
                0 <= i < all.len() && 0 <= k < all[i].len() implies #[trigger] all[i][k] != c by {
                if i < before.len() - 1 {
                    assert(all[i] == before[i]);
                    assert(before[i][k] != c);
                } else if k < before.last().len() {
                    assert(before[before.len() - 1][k] != c);
                }
            }
        }
    }
}

// ---------------------------------------------------------------------------
// Cells, columns and what is on file
// ---------------------------------------------------------------------------

/// A rectangle covers the cells from its corner on, as many as it is wide and
/// high, and no others.
pub proof fn law_a_rectangle_covers_its_own_cells(rect: Rect, column: u16, row: u16)
    requires
        column < u16::MAX,
        row < u16::MAX,
    ensures
        rect.covers(column, row) <==> {
            &&& rect.x <= column
            &&& column < rect.x + rect.width
            &&& rect.y <= row
            &&& row < rect.y + rect.height
        },
{
}

/// The next column to sort by is the one on screen behind the one that is
/// sorted by, or the first of them where there is none behind it.
pub proof fn law_the_next_sort_is_the_next_column(
    columns: Seq<ColumnConfig>,
    available: u16,
    at: int,
)
    ensures
        ({
            let shown = on_screen(columns, available);
            0 <= at < shown.len() && (forall|k: int|
                0 <= k < at ==> (#[trigger] shown[k]).id != shown[at].id) ==> sort_after(
                columns,
                shown[at].id,
                available,
            ) == Some(
                if at + 1 < shown.len() {
                    shown[at + 1].id
                } else {
                    shown[0].id
                },
            )
        }),
        on_screen(columns, available).len() == 0 ==> forall|sort: ColumnId| #[trigger]
            sort_after(columns, sort, available) is None,
{
    let shown = on_screen(columns, available);
    if 0 <= at < shown.len() && (forall|k: int|
        0 <= k < at ==> (#[trigger] shown[k]).id != shown[at].id) {
        lemma_column_at(shown, shown[at].id, at);
        if at + 1 < shown.len() {
            vstd::arithmetic::div_mod::lemma_small_mod((at + 1) as nat, shown.len());
        } else {
            vstd::arithmetic::div_mod::lemma_mod_self_0(shown.len() as int);
        }
    }
}

/// A column that is turned on or off is that column alone.
pub proof fn law_a_column_is_turned_by_itself(
    columns: Seq<ColumnConfig>,
    id: ColumnId,
    visible: bool,
    at: int,
)
    requires
        0 <= at < columns.len(),
    ensures
        with_visible(columns, id, visible).len() == columns.len(),
        with_visible(columns, id, visible)[at].id == columns[at].id,
        with_visible(columns, id, visible)[at].width == columns[at].width,
        columns[at].id == id ==> with_visible(columns, id, visible)[at].visible == visible,
        columns[at].id != id ==> with_visible(columns, id, visible)[at] == columns[at],
{
}

/// The lines a pane leaves are those that hold every word of its filter, in the
/// order they came.
pub proof fn law_a_pane_shows_the_lines_asked_for(
    pane: PaneView,
    lines: Seq<Seq<char>>,
    line: Seq<char>,
)
    ensures
        pane.shown(lines).contains(line) <==> lines.contains(line) && forall|i: int|
            0 <= i < words_of(pane.filter.text).len() ==> appears(
                #[trigger] words_of(pane.filter.text)[i],
                line,
            ),
        pane.filter.text.len() == 0 ==> pane.shown(lines) == lines,
{
    let words = words_of(pane.filter.text);
    let keep = |line: Seq<char>| mentions_all(line, words);
    assert forall|i: int| 0 <= i < words.len() implies mentions(line, #[trigger] words[i])
        == appears(words[i], line) by {
        law_a_mention_is_an_appearance(line, words[i]);
    }
    let shown = lines.filter(keep);
    if shown.contains(line) {
        lines.lemma_filter_contains_rev(keep, line);
        let i = shown.index_of(line);
        lines.lemma_filter_pred(keep, i);
    }
    if lines.contains(line) && keep(line) {
        let i = lines.index_of(line);
        lines.lemma_filter_contains(keep, i);
    }
    if pane.filter.text.len() == 0 {
        assert(runs(pane.filter.text).1.len() == 0);
        assert(words.len() == 0);
        lemma_all_kept(lines, keep);
    }
}

proof fn lemma_all_kept(lines: Seq<Seq<char>>, keep: spec_fn(Seq<char>) -> bool)
    requires
        forall|line: Seq<char>| #[trigger] keep(line),
    ensures
        lines.filter(keep) == lines,
    decreases lines.len(),
{
    reveal(Seq::filter);
    if lines.len() > 0 {
        lemma_all_kept(lines.drop_last(), keep);
        assert(keep(lines.last()));
        assert(lines.drop_last().push(lines.last()) =~= lines);
    } else {
        assert(lines.filter(keep) =~= lines);
    }
}

/// What is put back from the file is as old as the older of the two tabs it
/// came from, and each tab's rows are that tab's.
pub proof fn law_what_is_put_back_is_as_old_as_the_older(
    store: AzureStore,
    first: Timestamp,
    vaults: Vec<Vault>,
    secrets: Vec<SecretRow>,
    second: Timestamp,
    registries: Vec<Registry>,
    repositories: Vec<Repository>,
)
    requires
        put_back(
            store,
            Some(CachedTab::Secrets { read_at: first, vaults, secrets }),
            Some(CachedTab::Registries { read_at: second, registries, repositories }),
        ),
    ensures
        store.secrets == secrets,
        store.inventory.vaults == vaults,
        store.repositories == repositories,
        store.inventory.registries == registries,
        store.read_at is Some,
        store.read_at->0.seconds <= first.seconds,
        store.read_at->0.seconds <= second.seconds,
        store.read_at->0 == first || store.read_at->0 == second,
        !store.refreshing,
        store.problems@.len() == 0,
{
}

// ---------------------------------------------------------------------------
// What a program outside says
// ---------------------------------------------------------------------------

/// What `az` prints is read line by line: every line that is not blank, without
/// the blanks round it, in the order they came.
pub proof fn law_what_az_lists_is_read_line_by_line(all: Seq<Seq<char>>, line: Seq<char>)
    ensures
        full_lines(all).contains(line) <==> line.len() > 0 && exists|i: int|
            0 <= i < all.len() && line == trimmed(#[trigger] all[i]),
        full_lines(all).len() <= all.len(),
    decreases all.len(),
{
    if all.len() > 0 {
        let before = all.drop_last();
        let end = all.len() - 1;
        law_what_az_lists_is_read_line_by_line(before, line);
        let (now, was) = (full_lines(all), full_lines(before));
        assert(all[end] == all.last());
        if was.contains(line) {
            let k = was.index_of(line);
            assert(now[k] == was[k]);
            let i = choose|i: int| 0 <= i < before.len() && line == trimmed(#[trigger] before[i]);
            assert(all[i] == before[i]);
        }
        if now.contains(line) {
            let k = now.index_of(line);
            if k < was.len() {
                assert(was[k] == line);
            } else {
                assert(line == trimmed(all[end]));
            }
        }
        if line.len() > 0 && exists|i: int|
            0 <= i < all.len() && line == trimmed(#[trigger] all[i]) {
            let i = choose|i: int| 0 <= i < all.len() && line == trimmed(#[trigger] all[i]);
            if i < before.len() {
                assert(before[i] == all[i]);
                assert(was.contains(line));
                let k = was.index_of(line);
                assert(now[k] == was[k]);
            } else {
                assert(now[now.len() - 1] == line);
            }
        }
    }
}

/// What `az` answers is what it printed, without the blanks round it; a call
/// that failed, or printed nothing, is told as a login to be mended.
pub proof fn law_az_answers_with_what_it_printed(
    arguments: Seq<char>,
    success: bool,
    stdout: Seq<char>,
    stderr: Seq<char>,
)
    ensures
        az_said(arguments, success, stdout, stderr) is Ok <==> success && trimmed(stdout).len() > 0,
        az_said(arguments, success, stdout, stderr) is Ok ==> az_said(
            arguments,
            success,
            stdout,
            stderr,
        )->Ok_0 == trimmed(stdout),
{
}

/// A copy has worked where the terminal was told of it, or one of the commands
/// worked, and only there.
pub proof fn law_a_copy_works_by_either_way(escape_went: bool, ran: Seq<Result<(), String>>)
    ensures
        copy_said(escape_went, ran) is Ok <==> escape_went || exists|i: int|
            0 <= i < ran.len() && (#[trigger] ran[i]) is Ok,
{
    if ran.len() > 0 && !any_worked(ran) {
        assert(ran[ran.len() - 1] is Err);
    }
}

/// What a restart, a rollout or a scale came to is told of what it was done to,
/// as something wrong where it was refused.
pub proof fn law_what_was_done_is_told_of_its_object(
    shell: ShellView,
    data: ScopeData,
    key: PodKeyView,
    verb: Seq<char>,
    object: ObjectView,
    message: Seq<char>,
)
    ensures
        deleted_said(shell, data, key, Some(message)).notification is Some,
        (deleted_said(shell, data, key, Some(message)).notification->0).0 == "Could not restart "@
            + key.name + ": "@ + message,
        (deleted_said(shell, data, key, Some(message)).notification->0).2 == Level::Error,
        deleted_said(shell, data, key, None).notification is Some,
        (deleted_said(shell, data, key, None).notification->0).2 == Level::Info,
        (acted_said(shell, verb, object, Some(message)).notification->0).0 == "Could not "@ + verb
            + " "@ + (object.kind + "/"@ + object.name) + ": "@ + message,
        (acted_said(shell, verb, object, Some(message)).notification->0).2 == Level::Error,
        (acted_said(shell, verb, object, None).notification->0).0 == (object.kind + "/"@
            + object.name) + " "@ + verb + " sent"@,
        (acted_said(shell, verb, object, None).notification->0).2 == Level::Info,
{
}

} // verus!
