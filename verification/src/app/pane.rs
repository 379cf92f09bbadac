//! The text pane under a scope tab's details: what it shows, the log it
//! follows, and the texts that have been read for it.

use vstd::prelude::*;

use super::cursor::{least, ScrollState};
use crate::filter::{all_words_in, mentions_all, words, words_of};
use crate::input::{InputView, TextInput};
use crate::kube::{
    copy_text, said, text_said, Container, LogFollow, LogView, ObjectRef, ObjectView, Pod,
    PodKeyView, TextKind,
};
use crate::store::put_at;
use crate::text::{decimal, equal, number, texts};

verus! {

/// How many log lines the pane keeps. Past this the oldest go, and the first
/// line says how many.
pub const LOG_LINE_CAP: usize = 20_000;

/// What the text pane under the details is showing.
#[derive(Clone, Copy, Debug, PartialEq, Eq, Structural)]
pub enum PaneText {
    /// The pod's log, tailed.
    Log,
    Describe,
    Yaml,
    /// One key of a configmap or a secret.
    Value,
}

// ---------------------------------------------------------------------------
// The pane
// ---------------------------------------------------------------------------

pub struct PaneView {
    pub open: bool,
    pub text: PaneText,
    pub scroll: ScrollState,
    pub zoom: bool,
    pub filter: InputView,
    pub value: Seq<Seq<char>>,
}

impl PaneView {
    /// The lines that hold every word of the filter, without regard to case.
    pub open spec fn shown(self, lines: Seq<Seq<char>>) -> Seq<Seq<char>> {
        lines.filter(|line: Seq<char>| mentions_all(line, words_of(self.filter.text)))
    }

    pub open spec fn opening() -> Self {
        PaneView {
            open: false,
            text: PaneText::Log,
            scroll: ScrollState { offset: 0, content: 0, viewport: 0 },
            zoom: false,
            filter: InputView::empty(),
            value: Seq::empty(),
        }
    }

    pub open spec fn closed(self) -> Self {
        PaneView { open: false, zoom: false, filter: InputView::empty(), ..self }
    }

    /// Whether the pane shows this.
    pub open spec fn shows(self, text: PaneText) -> bool {
        self.open && self.text == text
    }

    /// Open on something; on another thing than it was, from the top.
    pub open spec fn on(self, text: PaneText) -> Self {
        PaneView {
            open: true,
            text,
            scroll: if self.text != text {
                self.scroll.scrolled_to(0)
            } else {
                self.scroll
            },
            ..self
        }
    }

    pub open spec fn zoomed(self) -> Self {
        PaneView {
            zoom: if self.open {
                !self.zoom
            } else {
                self.zoom
            },
            ..self
        }
    }

    pub open spec fn scrolled_to(self, offset: int) -> Self {
        PaneView { scroll: self.scroll.scrolled_to(offset), ..self }
    }

    /// Whether the last line is on screen.
    pub open spec fn at_the_tail(self) -> bool {
        self.scroll.offset >= self.scroll.furthest()
    }

    /// Painting these lines, from the top where they are others than before.
    pub open spec fn painting(self, value: Seq<Seq<char>>) -> Self {
        if self.value == value {
            self
        } else {
            PaneView { value, scroll: self.scroll.scrolled_to(0), ..self }
        }
    }
}

pub struct Pane {
    /// Whether the text pane is open under the details at all.
    pub open: bool,
    pub text: PaneText,
    pub scroll: ScrollState,
    /// Whether the pane has the whole details area to itself.
    pub zoom: bool,
    /// `/` inside the pane: only lines containing every word are shown.
    pub filter: TextInput,
    /// What the Value pane paints, rebuilt each frame from the key under the
    /// details cursor.
    pub value: Vec<String>,
}

impl View for Pane {
    type V = PaneView;

    open spec fn view(&self) -> PaneView {
        PaneView {
            open: self.open,
            text: self.text,
            scroll: self.scroll,
            zoom: self.zoom,
            filter: self.filter@,
            value: texts(self.value@),
        }
    }
}

/// Whether two lists of lines are the same.
fn same_lines(a: &Vec<String>, b: &Vec<String>) -> (r: bool)
    ensures
        r == (texts(a@) == texts(b@)),
{
    if a.len() != b.len() {
        proof {
            assert(texts(a@).len() != texts(b@).len());
        }
        return false;
    }
    let mut i: usize = 0;
    while i < a.len()
        invariant
            i <= a@.len(),
            a@.len() == b@.len(),
            forall|k: int| 0 <= k < i ==> #[trigger] texts(a@)[k] == texts(b@)[k],
        decreases a@.len() - i,
    {
        if !equal(a[i].as_str(), b[i].as_str()) {
            proof {
                assert(texts(a@)[i as int] != texts(b@)[i as int]);
            }
            return false;
        }
        i = i + 1;
    }
    proof {
        assert(texts(a@) =~= texts(b@));
    }
    true
}

impl Pane {
    #[must_use]
    pub fn new() -> (r: Self)
        ensures
            r@ == PaneView::opening(),
    {
        let r = Pane {
            open: false,
            text: PaneText::Log,
            scroll: ScrollState::default(),
            zoom: false,
            filter: TextInput::default(),
            value: Vec::new(),
        };
        proof {
            assert(r@.value =~= Seq::<Seq<char>>::empty());
        }
        r
    }

    pub fn close(&mut self)
        ensures
            final(self)@ == old(self)@.closed(),
    {
        self.open = false;
        self.zoom = false;
        self.filter.clear();
    }

    /// The lines the pane paints out of the ones it has: those that hold every
    /// word of the filter.
    #[must_use]
    pub fn shown_lines(&self, lines: &Vec<String>) -> (r: Vec<String>)
        ensures
            texts(r@) == self@.shown(texts(lines@)),
    {
        let typed = words(self.filter.text());
        let mut shown: Vec<String> = Vec::new();
        let ghost all = texts(lines@);
        let ghost keep = |line: Seq<char>| mentions_all(line, words_of(self@.filter.text));
        let mut i: usize = 0;
        proof {
            reveal(Seq::filter);
            assert(texts(shown@) =~= all.take(0).filter(keep));
        }
        while i < lines.len()
            invariant
                i <= lines@.len(),
                all == texts(lines@),
                texts(typed@) == words_of(self@.filter.text),
                keep == (|line: Seq<char>| mentions_all(line, words_of(self@.filter.text))),
                texts(shown@) == all.take(i as int).filter(keep),
            decreases lines@.len() - i,
        {
            let ghost before = texts(shown@);
            proof {
                reveal(Seq::filter);
                assert(all.take(i + 1).drop_last() =~= all.take(i as int));
                assert(all.take(i + 1).last() == lines@[i as int]@);
            }
            if all_words_in(lines[i].as_str(), &typed) {
                shown.push(lines[i].clone());
                proof {
                    assert(texts(shown@) =~= before.push(lines@[i as int]@));
                }
            }
            i = i + 1;
        }
        proof {
            assert(all.take(all.len() as int) =~= all);
        }
        shown
    }

    /// Whether the pane shows this.
    #[must_use]
    pub fn shows(&self, text: PaneText) -> (r: bool)
        ensures
            r == self@.shows(text),
    {
        self.open && self.text == text
    }

    pub fn open_on(&mut self, text: PaneText)
        ensures
            final(self)@ == old(self)@.on(text),
    {
        self.open = true;
        if self.text != text {
            self.scroll.scroll_to(0);
        }
        self.text = text;
    }

    pub fn toggle_zoom(&mut self)
        ensures
            final(self)@ == old(self)@.zoomed(),
    {
        if self.open {
            self.zoom = !self.zoom;
        }
    }

    /// Scrolls by `delta` lines and says whether the last one is on screen.
    pub fn scroll_by(&mut self, delta: i32) -> (tail: bool)
        ensures
            final(self)@ == old(self)@.scrolled_to(old(self)@.scroll.offset + delta),
            tail == final(self)@.at_the_tail(),
    {
        self.scroll.scroll_by(delta);
        self.scroll.offset >= self.scroll.max_offset()
    }

    pub fn scroll_to(&mut self, offset: usize)
        ensures
            final(self)@ == old(self)@.scrolled_to(offset as int),
    {
        self.scroll.scroll_to(offset);
    }

    pub fn paint(&mut self, value: Vec<String>)
        ensures
            final(self)@ == old(self)@.painting(texts(value@)),
    {
        if !same_lines(&value, &self.value) {
            self.value = value;
            self.scroll.scroll_to(0);
        }
    }
}

// ---------------------------------------------------------------------------
// The log
// ---------------------------------------------------------------------------

/// Whether a pod has a container of that name.
pub open spec fn has_container(containers: Seq<Container>, name: Seq<char>) -> bool {
    exists|i: int| 0 <= i < containers.len() && (#[trigger] containers[i]).name@ == name
}

/// Where a container stands, or how many there are where it is not among them.
pub open spec fn container_at(containers: Seq<Container>, name: Seq<char>) -> int
    decreases containers.len(),
{
    if containers.len() == 0 || containers[0].name@ == name {
        0
    } else {
        1 + container_at(containers.skip(1), name)
    }
}

fn find_container(containers: &Vec<Container>, name: &str) -> (r: usize)
    ensures
        r == container_at(containers@, name@),
        r <= containers@.len(),
        r < containers@.len() <==> has_container(containers@, name@),
{
    let mut i: usize = 0;
    proof {
        assert(containers@.skip(0) =~= containers@);
    }
    while i < containers.len() && !equal(containers[i].name.as_str(), name)
        invariant
            i <= containers@.len(),
            container_at(containers@, name@) == i + container_at(containers@.skip(i as int), name@),
            forall|k: int| 0 <= k < i ==> (#[trigger] containers@[k]).name@ != name@,
        decreases containers@.len() - i,
    {
        proof {
            assert(containers@.skip(i as int).skip(1) =~= containers@.skip(i + 1));
        }
        i = i + 1;
    }
    i
}

/// The line that says how much of the log has gone.
pub open spec fn skipped_line(count: nat) -> Seq<char> {
    "… "@ + decimal(count) + " earlier lines skipped"@
}

/// A log and how many of its lines have gone: all of them while there is
/// room, and else the newest ones under a line that says how many went.
pub open spec fn capped(all: Seq<Seq<char>>, skipped: usize) -> (Seq<Seq<char>>, usize) {
    if all.len() <= LOG_LINE_CAP {
        (all, skipped)
    } else {
        let overflow = all.len() - LOG_LINE_CAP + 1;
        let dropped = if skipped > 0 {
            overflow - 1
        } else {
            overflow
        };
        let gone = least(skipped + dropped, usize::MAX as int);
        (seq![skipped_line(gone as nat)] + all.skip(overflow), gone as usize)
    }
}

/// A log and what it is of.
pub struct LogPaneView {
    pub follow: bool,
    pub finished: bool,
    pub target: Option<LogView>,
    pub lines: Seq<Seq<char>>,
    pub skipped: usize,
    pub container: Option<Seq<char>>,
    pub previous: bool,
}

impl LogPaneView {
    pub open spec fn opening() -> Self {
        LogPaneView {
            follow: true,
            finished: false,
            target: None,
            lines: Seq::empty(),
            skipped: 0,
            container: None,
            previous: false,
        }
    }

    /// Whether the log is a pod's.
    pub open spec fn is_of(self, key: PodKeyView) -> bool {
        self.target matches Some(held) && held.key == key
    }

    /// What to follow of a pod: the container chosen, if the log is still on
    /// the pod it was chosen for and that pod has it, and whether the run
    /// before the last restart was asked for.
    pub open spec fn desired(self, scope: usize, pod: Pod) -> LogView {
        LogView {
            scope,
            key: pod.key@,
            container: match self.container {
                Some(name) if self.is_of(pod.key@) && has_container(pod.containers@, name) => Some(
                    name,
                ),
                _ => None,
            },
            previous: self.previous,
        }
    }

    /// Settled on a new stream.
    pub open spec fn following(self, target: Option<LogView>) -> Self {
        LogPaneView {
            container: match target {
                Some(held) => held.container,
                None => None,
            },
            target,
            lines: Seq::empty(),
            skipped: 0,
            finished: false,
            follow: true,
            ..self
        }
    }

    /// With lines put on the end of the log they belong to.
    pub open spec fn logged(self, target: LogView, added: Seq<Seq<char>>, finished: bool) -> Self {
        if self.target != Some(target) {
            self
        } else {
            let (lines, skipped) = capped(self.lines + added, self.skipped);
            LogPaneView { lines, skipped, finished, ..self }
        }
    }

    /// The container after the one chosen, round to the first again.
    pub open spec fn next_of(self, containers: Seq<Container>) -> Seq<char> {
        let at = match self.container {
            Some(held) => container_at(containers, held),
            None => 0,
        };
        let current = if at < containers.len() {
            at
        } else {
            0
        };
        containers[(current + 1) % (containers.len() as int)].name@
    }

    /// With a container of a pod chosen. The choice is for the pod the pane
    /// is on, so the pane is put on it.
    pub open spec fn choosing(self, pod: Pod, name: Seq<char>) -> Self {
        LogPaneView {
            container: Some(name),
            target: if self.is_of(pod.key@) {
                self.target
            } else {
                Some(
                    LogView {
                        scope: 0,
                        key: pod.key@,
                        container: None,
                        previous: self.previous,
                    },
                )
            },
            ..self
        }
    }

    /// The container the log follows, where it is a pod's.
    pub open spec fn container_of(self, key: PodKeyView) -> Option<Seq<char>> {
        match self.target {
            Some(held) if held.key == key => held.container,
            _ => None,
        }
    }
}

pub struct LogPane {
    /// Whether the log pane is pinned to the tail.
    pub follow: bool,
    /// Whether the stream has ended: the pod went, or `kubectl` refused.
    pub finished: bool,
    /// What the pane is tailing now, which is also what the worker is told
    /// to follow. The lines held are this target's and nobody else's.
    pub target: Option<LogFollow>,
    pub lines: Vec<String>,
    /// How many lines have gone off the top of the buffer, for the line that
    /// says so.
    pub skipped: usize,
    /// The container chosen with `C`, for the pod the pane is on, and whether
    /// `P` has asked for the run before the last restart.
    pub container: Option<String>,
    pub previous: bool,
}

pub open spec fn log_said(target: Option<LogFollow>) -> Option<LogView> {
    match target {
        Some(target) => Some(target@),
        None => None,
    }
}

impl View for LogPane {
    type V = LogPaneView;

    open spec fn view(&self) -> LogPaneView {
        LogPaneView {
            follow: self.follow,
            finished: self.finished,
            target: log_said(self.target),
            lines: texts(self.lines@),
            skipped: self.skipped,
            container: said(self.container),
            previous: self.previous,
        }
    }
}

impl LogPane {
    #[must_use]
    pub fn new() -> (r: Self)
        ensures
            r@ == LogPaneView::opening(),
    {
        let r = LogPane {
            follow: true,
            finished: false,
            target: None,
            lines: Vec::new(),
            skipped: 0,
            container: None,
            previous: false,
        };
        proof {
            assert(r@.lines =~= Seq::<Seq<char>>::empty());
        }
        r
    }

    fn is_of(&self, pod: &Pod) -> (r: bool)
        ensures
            r == self@.is_of(pod.key@),
    {
        match &self.target {
            Some(held) => held.key.is(&pod.key),
            None => false,
        }
    }

    /// What to follow of a pod.
    #[must_use]
    pub fn desired(&self, scope: usize, pod: &Pod) -> (r: LogFollow)
        ensures
            r@ == self@.desired(scope, *pod),
    {
        let same_pod = self.is_of(pod);
        let container = match &self.container {
            Some(name) => if same_pod && find_container(&pod.containers, name.as_str())
                < pod.containers.len() {
                Some(name.clone())
            } else {
                None
            },
            None => None,
        };
        LogFollow { scope, key: pod.key.clone(), container, previous: self.previous }
    }

    /// Settles on a new stream. A different target is a different stream: the
    /// lines held were the last one's.
    pub fn begin(&mut self, target: Option<LogFollow>)
        ensures
            final(self)@ == old(self)@.following(log_said(target)),
    {
        self.container = match &target {
            Some(held) => copy_text(&held.container),
            None => None,
        };
        self.target = target;
        self.lines.clear();
        proof {
            assert(texts(self.lines@) =~= Seq::<Seq<char>>::empty());
        }
        self.skipped = 0;
        self.finished = false;
        self.follow = true;
    }

    /// Folds lines onto the end of the log. Lines for a stream the pane has
    /// already left are dropped rather than mixed into the one it is on.
    pub fn append(&mut self, target: &LogFollow, lines: Vec<String>, finished: bool)
        ensures
            final(self)@ == old(self)@.logged(target@, texts(lines@), finished),
    {
        let ours = match &self.target {
            Some(held) => held.is(target),
            None => false,
        };
        if !ours {
            return;
        }
        let ghost before = texts(self.lines@);
        let ghost added = texts(lines@);
        let mut lines = lines;
        self.lines.append(&mut lines);
        let ghost all = texts(self.lines@);
        proof {
            assert(all =~= before + added);
        }
        if self.lines.len() > LOG_LINE_CAP {
            // One more than the overflow, because the line saying what went
            // takes a place of its own — and when there already is one, it
            // is the first line to go and its count carries on.
            let overflow: usize = self.lines.len() - LOG_LINE_CAP + 1;
            let dropped: usize = if self.skipped > 0 {
                overflow - 1
            } else {
                overflow
            };
            let tail = self.lines.split_off(overflow);
            self.skipped = self.skipped.saturating_add(dropped);
            let mut first = "… ".to_owned();
            first.push_str(number(self.skipped as u64).as_str());
            first.push_str(" earlier lines skipped");
            let ghost line = first@;
            self.lines = tail;
            self.lines.insert(0, first);
            proof {
                assert(texts(self.lines@) =~= seq![line] + all.skip(overflow as int));
            }
        }
        self.finished = finished;
    }

    /// The container after the one chosen, round to the first again.
    #[must_use]
    pub fn next_of(&self, containers: &Vec<Container>) -> (r: String)
        requires
            containers@.len() > 0,
        ensures
            r@ == self@.next_of(containers@),
    {
        let count: usize = containers.len();
        let at: usize = match &self.container {
            Some(held) => find_container(containers, held.as_str()),
            None => 0,
        };
        let current: usize = if at < count {
            at
        } else {
            0
        };
        containers[(current + 1) % count].name.clone()
    }

    pub fn choose_container(&mut self, pod: &Pod, name: String)
        ensures
            final(self)@ == old(self)@.choosing(*pod, name@),
    {
        let elsewhere = !self.is_of(pod);
        self.container = Some(name);
        if elsewhere {
            self.target = Some(
                LogFollow {
                    scope: 0,
                    key: pod.key.clone(),
                    container: None,
                    previous: self.previous,
                },
            );
        }
    }

    /// The container the log follows, where it is this pod's.
    #[must_use]
    pub fn container_of(&self, pod: &Pod) -> (r: Option<String>)
        ensures
            said(r) == self@.container_of(pod.key@),
    {
        match &self.target {
            Some(held) => if held.key.is(&pod.key) {
                copy_text(&held.container)
            } else {
                None
            },
            None => None,
        }
    }
}

/// A log never holds more lines than its cap, and keeps its newest ones.
pub proof fn law_a_log_keeps_its_tail(all: Seq<Seq<char>>, skipped: usize)
    ensures
        capped(all, skipped).0.len() <= LOG_LINE_CAP,
        all.len() > 0 ==> capped(all, skipped).0.last() == all.last(),
{
}

/// The line at the top of a capped log counts every line that has gone: those
/// that had gone before, and those that went now. The line that said so
/// before is not one of them.
pub proof fn law_a_log_counts_what_went(all: Seq<Seq<char>>, skipped: usize)
    requires
        all.len() > LOG_LINE_CAP,
        skipped + all.len() < usize::MAX,
    ensures
        ({
            let (kept, gone) = capped(all, skipped);
            let lines_held = all.len() - if skipped > 0 {
                1int
            } else {
                0
            };
            &&& gone + (kept.len() - 1) == skipped + lines_held
            &&& kept[0] == skipped_line(gone as nat)
        }),
{
}

/// Lines of a stream the pane is not on change nothing.
pub proof fn law_lines_of_another_stream_are_dropped(
    log: LogPaneView,
    target: LogView,
    lines: Seq<Seq<char>>,
    finished: bool,
)
    requires
        log.target != Some(target),
    ensures
        log.logged(target, lines, finished) == log,
{
}

/// Lines that came: of which stream, the lines themselves, and whether the
/// stream ended with them.
pub struct Brought {
    pub target: LogView,
    pub lines: Seq<Seq<char>>,
    pub finished: bool,
}

impl LogPaneView {
    /// The log once lines have come, time after time.
    pub open spec fn logged_all(self, all: Seq<Brought>) -> Self
        decreases all.len(),
    {
        if all.len() == 0 {
            self
        } else {
            self.logged_all(all.drop_last()).logged(
                all.last().target,
                all.last().lines,
                all.last().finished,
            )
        }
    }
}

/// Every line of one stream among the lines that came, in turn.
pub open spec fn stream_lines(all: Seq<Brought>, target: LogView) -> Seq<Seq<char>>
    decreases all.len(),
{
    if all.len() == 0 {
        Seq::empty()
    } else if all.last().target == target {
        stream_lines(all.drop_last(), target) + all.last().lines
    } else {
        stream_lines(all.drop_last(), target)
    }
}

/// Whether the last lines of one stream said that it ended.
pub open spec fn ended_of(all: Seq<Brought>, target: LogView) -> bool
    decreases all.len(),
{
    if all.len() == 0 {
        false
    } else if all.last().target == target {
        all.last().finished
    } else {
        ended_of(all.drop_last(), target)
    }
}

/// How many of so many lines have gone.
pub open spec fn gone_of(count: nat) -> nat {
    if count <= LOG_LINE_CAP {
        0
    } else {
        (count - LOG_LINE_CAP + 1) as nat
    }
}

/// What a log shows of all its lines: every one while there is room, and else
/// how many have gone and the newest ones.
pub open spec fn tail_of(lines: Seq<Seq<char>>) -> Seq<Seq<char>> {
    if lines.len() <= LOG_LINE_CAP {
        lines
    } else {
        seq![skipped_line(gone_of(lines.len()))] + lines.skip(gone_of(lines.len()) as int)
    }
}

proof fn lemma_one_more_batch(lines: Seq<Seq<char>>, added: Seq<Seq<char>>)
    requires
        lines.len() + added.len() <= usize::MAX,
    ensures
        capped(tail_of(lines) + added, gone_of(lines.len()) as usize) == (
            tail_of(lines + added),
            gone_of((lines + added).len()) as usize,
        ),
{
    let held = tail_of(lines);
    let whole = lines + added;
    if lines.len() <= LOG_LINE_CAP {
        assert(held + added =~= whole);
    } else if added.len() == 0 {
        assert(whole =~= lines);
        assert(held + added =~= held);
    } else {
        let overflow = (held + added).len() - LOG_LINE_CAP + 1;
        assert(overflow == added.len() + 1);
        assert((held + added).skip(overflow) =~= whole.skip(gone_of(whole.len()) as int));
    }
}

/// However often lines come, a log that was settled on a stream shows that
/// stream's lines and no other's: all of them while there is room, and else the
/// newest under a line that counts every one that has gone. It has ended when
/// the stream's last lines said so.
pub proof fn law_a_log_is_the_tail_of_what_came(
    log: LogPaneView,
    target: LogView,
    all: Seq<Brought>,
)
    requires
        stream_lines(all, target).len() <= usize::MAX,
    ensures
        ({
            let then = log.following(Some(target)).logged_all(all);
            let lines = stream_lines(all, target);
            &&& then.target == Some(target)
            &&& then.lines == tail_of(lines)
            &&& then.lines.len() <= LOG_LINE_CAP
            &&& then.skipped == gone_of(lines.len())
            &&& then.finished == ended_of(all, target)
        }),
    decreases all.len(),
{
    if all.len() > 0 {
        let before = all.drop_last();
        law_a_log_is_the_tail_of_what_came(log, target, before);
        if all.last().target == target {
            lemma_one_more_batch(stream_lines(before, target), all.last().lines);
        }
    }
}

/// Walking the containers of a pod reaches the next one each time, and the
/// first again after the last.
pub proof fn law_the_containers_are_walked_round(
    log: LogPaneView,
    containers: Seq<Container>,
    at: int,
)
    requires
        containers.len() > 0,
        0 <= at < containers.len(),
        log.container matches Some(name) && container_at(containers, name) == at,
    ensures
        log.next_of(containers) == containers[if at + 1 == containers.len() {
            0
        } else {
            at + 1
        }].name@,
{
    let count = containers.len() as int;
    if at + 1 == count {
        assert((at + 1) % count == 0) by (nonlinear_arith)
            requires
                at + 1 == count,
                count > 0,
        ;
    } else {
        assert((at + 1) % count == at + 1) by (nonlinear_arith)
            requires
                0 <= at + 1 < count,
        ;
    }
}

// ---------------------------------------------------------------------------
// Texts
// ---------------------------------------------------------------------------

/// What describe or yaml said about one object.
pub struct TextRead {
    pub kind: TextKind,
    pub object: ObjectRef,
    pub text: Result<Vec<String>, String>,
}

pub struct TextView {
    pub kind: TextKind,
    pub object: ObjectView,
    pub text: Result<Seq<Seq<char>>, Seq<char>>,
}

impl View for TextRead {
    type V = TextView;

    open spec fn view(&self) -> TextView {
        TextView { kind: self.kind, object: self.object@, text: text_said(self.text) }
    }
}

pub open spec fn text_views(list: Seq<TextRead>) -> Seq<TextView> {
    list.map_values(|text: TextRead| text@)
}

/// Where a text stands among those read, or how many there are where it is
/// not among them.
pub open spec fn text_at(list: Seq<TextView>, kind: TextKind, object: ObjectView) -> int
    decreases list.len(),
{
    if list.len() == 0 || (list[0].kind == kind && list[0].object == object) {
        0
    } else {
        1 + text_at(list.skip(1), kind, object)
    }
}

proof fn lemma_text_at(list: Seq<TextView>, kind: TextKind, object: ObjectView, i: int)
    requires
        0 <= i <= list.len(),
        forall|k: int|
            0 <= k < i ==> !((#[trigger] list[k]).kind == kind && list[k].object == object),
        i < list.len() ==> list[i].kind == kind && list[i].object == object,
    ensures
        text_at(list, kind, object) == i,
    decreases i,
{
    if i > 0 {
        assert forall|k: int| 0 <= k < i - 1 implies !((#[trigger] list.skip(1)[k]).kind == kind
            && list.skip(1)[k].object == object) by {
            assert(list.skip(1)[k] == list[k + 1]);
        }
        lemma_text_at(list.skip(1), kind, object, i - 1);
    }
}

/// The texts that have been read, and the one that is out and not yet back.
pub struct TextsView {
    pub held: Seq<TextView>,
    pub pending: Option<(TextKind, ObjectView)>,
}

impl TextsView {
    pub open spec fn empty() -> Self {
        TextsView { held: Seq::empty(), pending: None }
    }

    pub open spec fn get(self, kind: TextKind, object: ObjectView) -> Option<
        Result<Seq<Seq<char>>, Seq<char>>,
    > {
        let at = text_at(self.held, kind, object);
        if at < self.held.len() {
            Some(self.held[at].text)
        } else {
            None
        }
    }

    pub open spec fn with(
        self,
        kind: TextKind,
        object: ObjectView,
        text: Result<Seq<Seq<char>>, Seq<char>>,
    ) -> Self {
        TextsView {
            pending: if self.pending == Some((kind, object)) {
                None
            } else {
                self.pending
            },
            held: put_at(
                self.held,
                text_at(self.held, kind, object),
                TextView { kind, object, text },
            ),
        }
    }

    pub open spec fn awaiting(self, kind: TextKind, object: ObjectView) -> Self {
        TextsView { pending: Some((kind, object)), ..self }
    }
}

pub struct Texts {
    pub held: Vec<TextRead>,
    pub pending: Option<(TextKind, ObjectRef)>,
}

pub open spec fn pending_said(pending: Option<(TextKind, ObjectRef)>) -> Option<
    (TextKind, ObjectView),
> {
    match pending {
        Some((kind, object)) => Some((kind, object@)),
        None => None,
    }
}

impl View for Texts {
    type V = TextsView;

    open spec fn view(&self) -> TextsView {
        TextsView { held: text_views(self.held@), pending: pending_said(self.pending) }
    }
}

impl Texts {
    #[must_use]
    pub fn new() -> (r: Self)
        ensures
            r@ == TextsView::empty(),
    {
        let r = Texts { held: Vec::new(), pending: None };
        proof {
            assert(r@.held =~= Seq::<TextView>::empty());
        }
        r
    }

    fn find(&self, kind: TextKind, object: &ObjectRef) -> (r: usize)
        ensures
            r == text_at(self@.held, kind, object@),
            r <= self.held@.len(),
    {
        let list = &self.held;
        let mut i: usize = 0;
        while i < list.len() && !(list[i].kind == kind && list[i].object.is(object))
            invariant
                i <= list@.len(),
                list@ == self.held@,
                forall|k: int|
                    0 <= k < i ==> !((#[trigger] text_views(list@)[k]).kind == kind && text_views(
                        list@,
                    )[k].object == object@),
            decreases list@.len() - i,
        {
            i = i + 1;
        }
        proof {
            lemma_text_at(text_views(list@), kind, object@, i as int);
        }
        i
    }

    #[must_use]
    pub fn get(&self, kind: TextKind, object: &ObjectRef) -> (r: Option<
        &Result<Vec<String>, String>,
    >)
        ensures
            match self@.get(kind, object@) {
                Some(text) => r matches Some(held) && text_said(*held) == text,
                None => r is None,
            },
    {
        let at: usize = self.find(kind, object);
        if at < self.held.len() {
            proof {
                assert(text_views(self.held@)[at as int] == self.held@[at as int]@);
            }
            Some(&self.held[at].text)
        } else {
            None
        }
    }

    #[must_use]
    pub fn is_pending(&self, kind: TextKind, object: &ObjectRef) -> (r: bool)
        ensures
            r == (self@.pending == Some((kind, object@))),
    {
        match &self.pending {
            Some((held, held_object)) => *held == kind && held_object.is(object),
            None => false,
        }
    }

    pub fn put(&mut self, kind: TextKind, object: ObjectRef, text: Result<Vec<String>, String>)
        ensures
            final(self)@ == old(self)@.with(kind, object@, text_said(text)),
    {
        if self.is_pending(kind, &object) {
            self.pending = None;
        }
        let at: usize = self.find(kind, &object);
        let ghost before = text_views(self.held@);
        let read = TextRead { kind, object, text };
        let ghost entry = read@;
        if at < self.held.len() {
            self.held[at] = read;
            proof {
                assert(text_views(self.held@) =~= before.update(at as int, entry));
            }
        } else {
            self.held.push(read);
            proof {
                assert(text_views(self.held@) =~= before.push(entry));
            }
        }
    }

    pub fn await_one(&mut self, kind: TextKind, object: ObjectRef)
        ensures
            final(self)@ == old(self)@.awaiting(kind, object@),
    {
        self.pending = Some((kind, object));
    }

    pub fn clear(&mut self)
        ensures
            final(self)@ == TextsView::empty(),
    {
        self.held.clear();
        self.pending = None;
        proof {
            assert(text_views(self.held@) =~= Seq::<TextView>::empty());
        }
    }
}

proof fn lemma_text_at_pushed(list: Seq<TextView>, entry: TextView)
    requires
        text_at(list, entry.kind, entry.object) >= list.len(),
    ensures
        text_at(list.push(entry), entry.kind, entry.object) == list.len(),
    decreases list.len(),
{
    if list.len() > 0 {
        lemma_text_at_pushed(list.skip(1), entry);
        assert(list.push(entry).skip(1) =~= list.skip(1).push(entry));
    }
}

proof fn lemma_text_at_updated(list: Seq<TextView>, entry: TextView)
    requires
        text_at(list, entry.kind, entry.object) < list.len(),
    ensures
        0 <= text_at(list, entry.kind, entry.object),
        text_at(
            list.update(text_at(list, entry.kind, entry.object), entry),
            entry.kind,
            entry.object,
        ) == text_at(list, entry.kind, entry.object),
    decreases list.len(),
{
    if list.len() > 0 && !(list[0].kind == entry.kind && list[0].object == entry.object) {
        lemma_text_at_updated(list.skip(1), entry);
        let at = text_at(list.skip(1), entry.kind, entry.object);
        assert(list.update(at + 1, entry).skip(1) =~= list.skip(1).update(at, entry));
    }
}

/// A text that has come back is what is shown for its object from then on,
/// whatever was shown for it before.
pub proof fn law_a_text_is_read_back(
    list: TextsView,
    kind: TextKind,
    object: ObjectView,
    text: Result<Seq<Seq<char>>, Seq<char>>,
)
    ensures
        list.with(kind, object, text).get(kind, object) == Some(text),
{
    let entry = TextView { kind, object, text };
    if text_at(list.held, kind, object) < list.held.len() {
        lemma_text_at_updated(list.held, entry);
    } else {
        lemma_text_at_pushed(list.held, entry);
    }
}

} // verus!
