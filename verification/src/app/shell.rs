//! What every screen shares and no screen owns: where focus is, what the
//! status bar is saying, where the panes are, and what a click just landed
//! on.

use vstd::prelude::*;

use super::cursor::least;
use super::screen::Target;

verus! {

/// How long a notification stays in the status bar before the footer hint
/// comes back, in milliseconds.
pub const NOTIFICATION: u64 = 4_000;

/// Below this the details pane is hidden until `Tab` asks for it.
pub const DETAILS_HIDDEN_BELOW: u16 = 70;

/// At or above this the details pane sits beside the table rather than under
/// it.
pub const SIDE_BY_SIDE_AT: u16 = 110;

#[derive(Clone, Copy, Debug, PartialEq, Eq, Structural)]
pub enum Focus {
    Table,
    /// The details pane, or the text pane under it when that is open.
    Details,
    Search,
    /// The filter inside the text pane.
    PaneSearch,
}

/// Which drop-down is open: the Env header's on an Azure tab, the kind
/// pill's on a scope tab. Only one table shows, so only one can be.
#[derive(Clone, Copy, Debug, PartialEq, Eq, Structural)]
pub enum Menu {
    Env,
    Kind,
}

#[derive(Clone, Copy, Debug, PartialEq, Eq, Structural)]
pub enum Level {
    Info,
    Error,
}

/// How the two panes are laid out at this width.
#[derive(Clone, Copy, Debug, PartialEq, Eq, Structural)]
pub enum Panes {
    /// Table left, details right.
    SideBySide,
    /// Table above, details below.
    Stacked,
    /// Only one fits; `Tab` swaps which.
    One,
}

/// A part of the screen, in cells.
#[derive(Clone, Copy, Debug, PartialEq, Eq, Structural)]
pub struct Rect {
    pub x: u16,
    pub y: u16,
    pub width: u16,
    pub height: u16,
}

impl Rect {
    /// Whether a cell lies in it. The last cell a terminal can have lies in
    /// none.
    pub open spec fn covers(self, column: u16, row: u16) -> bool {
        &&& self.x <= column < least(self.x + self.width, u16::MAX as int)
        &&& self.y <= row < least(self.y + self.height, u16::MAX as int)
    }

    #[must_use]
    pub fn new(x: u16, y: u16, width: u16, height: u16) -> (r: Self)
        ensures
            r == (Rect { x, y, width, height }),
    {
        Rect { x, y, width, height }
    }

    #[must_use]
    pub fn contains(self, column: u16, row: u16) -> (r: bool)
        ensures
            r == self.covers(column, row),
    {
        self.x <= column && column < self.x.saturating_add(self.width) && self.y <= row && row
            < self.y.saturating_add(self.height)
    }
}

/// What was drawn last over a cell.
pub open spec fn topmost(regions: Seq<(Rect, Target)>, column: u16, row: u16) -> Option<Target>
    decreases regions.len(),
{
    if regions.len() == 0 {
        None
    } else if regions.last().0.covers(column, row) {
        Some(regions.last().1)
    } else {
        topmost(regions.drop_last(), column, row)
    }
}

/// Where something was drawn first.
pub open spec fn drawn_at(regions: Seq<(Rect, Target)>, target: Target) -> Option<Rect>
    decreases regions.len(),
{
    if regions.len() == 0 {
        None
    } else if regions[0].1 == target {
        Some(regions[0].0)
    } else {
        drawn_at(regions.skip(1), target)
    }
}

pub struct ShellView {
    pub focus: Focus,
    pub help_open: bool,
    pub menu: Option<(Menu, usize)>,
    /// What the status bar says, since when, and how urgently.
    pub notification: Option<(Seq<char>, u64, Level)>,
    pub regions: Seq<(Rect, Target)>,
    pub clock: u64,
}

impl ShellView {
    pub open spec fn fresh() -> Self {
        ShellView {
            focus: Focus::Table,
            help_open: false,
            menu: None,
            notification: None,
            regions: Seq::empty(),
            clock: 0,
        }
    }

    /// With something said in the status bar.
    pub open spec fn saying(self, text: Seq<char>) -> Self {
        ShellView { notification: Some((text, self.clock, Level::Info)), ..self }
    }

    /// With something wrong said in the status bar.
    pub open spec fn warning(self, text: Seq<char>) -> Self {
        ShellView { notification: Some((text, self.clock, Level::Error)), ..self }
    }

    pub open spec fn focused(self, focus: Focus) -> Self {
        ShellView { focus, ..self }
    }

    /// Once what has been said for long enough has gone.
    pub open spec fn settled(self) -> Self {
        match self.notification {
            Some((_, at, _)) if self.clock >= at + NOTIFICATION => ShellView {
                notification: None,
                ..self
            },
            _ => self,
        }
    }
}

pub struct Shell {
    pub focus: Focus,
    pub help_open: bool,
    /// The open menu and which line of it the keys are on. One per app
    /// rather than per screen: only one table shows.
    pub menu: Option<(Menu, usize)>,
    /// The milliseconds the run has lasted, as last told.
    pub clock: u64,
    /// What the status bar says instead of the footer hint, until it expires.
    pub notification: Option<(String, u64, Level)>,
    /// Rebuilt every frame; a click resolves against the last region that
    /// contains the point.
    pub regions: Vec<(Rect, Target)>,
}

/// What a notification says.
pub open spec fn notice(held: Option<(String, u64, Level)>) -> Option<(Seq<char>, u64, Level)> {
    match held {
        Some((text, at, level)) => Some((text@, at, level)),
        None => None,
    }
}

impl View for Shell {
    type V = ShellView;

    open spec fn view(&self) -> ShellView {
        ShellView {
            focus: self.focus,
            help_open: self.help_open,
            menu: self.menu,
            notification: notice(self.notification),
            regions: self.regions@,
            clock: self.clock,
        }
    }
}

impl Default for Shell {
    fn default() -> (r: Self)
        ensures
            r@ == ShellView::fresh(),
    {
        let r = Shell {
            focus: Focus::Table,
            help_open: false,
            menu: None,
            clock: 0,
            notification: None,
            regions: Vec::new(),
        };
        proof {
            assert(r@.regions =~= Seq::<(Rect, Target)>::empty());
        }
        r
    }
}

impl Shell {
    pub fn set_focus(&mut self, focus: Focus)
        ensures
            final(self)@ == old(self)@.focused(focus),
    {
        self.focus = focus;
    }

    pub fn set_help(&mut self, open: bool)
        ensures
            final(self)@ == (ShellView { help_open: open, ..old(self)@ }),
    {
        self.help_open = open;
    }

    pub fn set_menu(&mut self, menu: Option<(Menu, usize)>)
        ensures
            final(self)@ == (ShellView { menu, ..old(self)@ }),
    {
        self.menu = menu;
    }

    /// Tells the shell how long the run has lasted.
    pub fn set_clock(&mut self, clock: u64)
        ensures
            final(self)@ == (ShellView { clock, ..old(self)@ }),
    {
        self.clock = clock;
    }

    #[must_use]
    pub fn has_focus(&self, focus: Focus) -> (r: bool)
        ensures
            r == (self@.focus == focus),
    {
        self.focus == focus
    }

    /// Says something in the status bar for a few seconds.
    pub fn set_status(&mut self, said: &str)
        ensures
            final(self)@ == old(self)@.saying(said@),
    {
        self.notification = Some((said.to_owned(), self.clock, Level::Info));
    }

    pub fn set_error(&mut self, said: &str)
        ensures
            final(self)@ == old(self)@.warning(said@),
    {
        self.notification = Some((said.to_owned(), self.clock, Level::Error));
    }

    /// What the status bar should say now, if anything. Expired
    /// notifications are dropped as they are read rather than on a timer.
    pub fn notification(&mut self) -> (r: Option<(&str, Level)>)
        ensures
            final(self)@ == old(self)@.settled(),
            match old(self)@.settled().notification {
                Some((text, _, level)) => r matches Some(held) && held.0@ == text && held.1
                    == level,
                None => r is None,
            },
    {
        let gone = match &self.notification {
            Some((_, at, _)) => self.clock >= *at && self.clock - *at >= NOTIFICATION,
            None => false,
        };
        if gone {
            self.notification = None;
        }
        match &self.notification {
            Some((text, _, level)) => Some((text.as_str(), *level)),
            None => None,
        }
    }

    /// Starts a frame: whatever was clickable last frame is gone.
    pub fn begin_frame(&mut self)
        ensures
            final(self)@ == (ShellView { regions: Seq::empty(), ..old(self)@ }),
    {
        self.regions.clear();
        proof {
            assert(self.regions@ =~= Seq::<(Rect, Target)>::empty());
        }
    }

    /// Registers something a click can land on. Called in drawing order, so
    /// later calls sit on top.
    pub fn region(&mut self, area: Rect, target: Target)
        ensures
            final(self)@ == (ShellView {
                regions: old(self)@.regions.push((area, target)),
                ..old(self)@
            }),
    {
        self.regions.push((area, target));
    }

    /// What is under this point, or nothing. The last match wins: what was
    /// drawn last is what the pointer is over.
    #[must_use]
    pub fn hit(&self, column: u16, row: u16) -> (r: Option<Target>)
        ensures
            r == topmost(self@.regions, column, row),
    {
        let mut i: usize = self.regions.len();
        proof {
            assert(self.regions@.take(i as int) =~= self.regions@);
        }
        while i > 0
            invariant
                i <= self.regions@.len(),
                topmost(self.regions@, column, row) == topmost(
                    self.regions@.take(i as int),
                    column,
                    row,
                ),
            decreases i,
        {
            proof {
                assert(self.regions@.take(i as int).drop_last() =~= self.regions@.take(i - 1));
            }
            let (area, target) = self.regions[i - 1];
            if area.contains(column, row) {
                return Some(target);
            }
            i = i - 1;
        }
        None
    }

    /// Where something was drawn this frame, for a menu that opens under it.
    #[must_use]
    pub fn find(&self, target: &Target) -> (r: Option<Rect>)
        ensures
            r == drawn_at(self@.regions, *target),
    {
        let mut i: usize = 0;
        proof {
            assert(self.regions@.skip(0) =~= self.regions@);
        }
        while i < self.regions.len()
            invariant
                i <= self.regions@.len(),
                drawn_at(self.regions@, *target) == drawn_at(
                    self.regions@.skip(i as int),
                    *target,
                ),
            decreases self.regions@.len() - i,
        {
            proof {
                assert(self.regions@.skip(i as int).skip(1) =~= self.regions@.skip(i + 1));
            }
            let (area, held) = self.regions[i];
            if held == *target {
                return Some(area);
            }
            i = i + 1;
        }
        None
    }

    /// How the panes sit at this width.
    #[must_use]
    pub fn panes(width: u16) -> (r: Panes)
        ensures
            r == if width >= SIDE_BY_SIDE_AT {
                Panes::SideBySide
            } else if width >= DETAILS_HIDDEN_BELOW {
                Panes::Stacked
            } else {
                Panes::One
            },
    {
        if width >= SIDE_BY_SIDE_AT {
            Panes::SideBySide
        } else if width >= DETAILS_HIDDEN_BELOW {
            Panes::Stacked
        } else {
            Panes::One
        }
    }

    /// `Tab`: between the table and the details pane, and out of the search
    /// box either way.
    pub fn toggle_focus(&mut self)
        ensures
            final(self)@ == old(self)@.focused(
                if old(self)@.focus == Focus::Table {
                    Focus::Details
                } else {
                    Focus::Table
                },
            ),
    {
        self.focus = match self.focus {
            Focus::Table => Focus::Details,
            Focus::Details | Focus::Search | Focus::PaneSearch => Focus::Table,
        };
    }
}

/// A region drawn over a cell is the one a click there lands on, whatever was
/// drawn under it.
pub proof fn law_the_last_region_drawn_is_hit(
    regions: Seq<(Rect, Target)>,
    area: Rect,
    target: Target,
    column: u16,
    row: u16,
)
    ensures
        area.covers(column, row) ==> topmost(regions.push((area, target)), column, row) == Some(
            target,
        ),
        !area.covers(column, row) ==> topmost(regions.push((area, target)), column, row)
            == topmost(regions, column, row),
{
    assert(regions.push((area, target)).drop_last() =~= regions);
}

} // verus!
