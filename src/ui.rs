//! Selection and scrolling state of the dashboard's lists and panes.
use vstd::prelude::*;

verus! {

pub open spec fn incr_spec(what: usize, cap: usize) -> usize
    recommends
        cap >= 1,
{
    if what > cap - 1 {
        0
    } else {
        (what + 1) as usize
    }
}

pub open spec fn decr_spec(what: usize, cap: usize) -> usize
    recommends
        cap >= 1,
{
    if what == 0 {
        (cap - 1) as usize
    } else {
        (what - 1) as usize
    }
}

/// Moves a selection one down, in a list of `cap` items; past the end it
/// wraps to the top.
pub fn incr(what: usize, cap: usize) -> (r: usize)
    requires
        cap >= 1,
    ensures
        r == incr_spec(what, cap),
{
    if what > cap - 1 {
        0
    } else {
        what + 1
    }
}

/// Moves a selection one up, in a list of `cap` items; from the top it wraps
/// to the last item.
pub fn decr(what: usize, cap: usize) -> (r: usize)
    requires
        cap >= 1,
    ensures
        r == decr_spec(what, cap),
{
    if what == 0 {
        cap - 1
    } else {
        what - 1
    }
}

/// A selectable list: the selected index, if any, and the number of items.
pub struct SList {
    pub selected: Option<usize>,
    pub itemc: usize,
}

impl Default for SList {
    fn default() -> (r: SList)
        ensures
            r.selected is None,
            r.itemc == 0,
    {
        SList { selected: None, itemc: 0 }
    }
}

impl SList {
    /// Selects the next item, or the first when nothing is selected.
    pub fn next(&mut self)
        requires
            old(self).selected is None || old(self).itemc >= 1,
        ensures
            final(self).itemc == old(self).itemc,
            final(self).selected == Some(
                match old(self).selected {
                    None => 0usize,
                    Some(x) => incr_spec(x, old(self).itemc),
                },
            ),
    {
        let i = match self.selected {
            None => 0,
            Some(x) => incr(x, self.itemc),
        };
        self.selected = Some(i);
    }

    /// Selects the previous item, or the first when nothing is selected.
    pub fn prev(&mut self)
        requires
            old(self).selected is None || old(self).itemc >= 1,
        ensures
            final(self).itemc == old(self).itemc,
            final(self).selected == Some(
                match old(self).selected {
                    None => 0usize,
                    Some(x) => decr_spec(x, old(self).itemc),
                },
            ),
    {
        let i = match self.selected {
            None => 0,
            Some(x) => decr(x, self.itemc),
        };
        self.selected = Some(i);
    }

    /// Records how many items the list holds.
    pub fn has(&mut self, n: usize)
        ensures
            final(self).itemc == n,
            final(self).selected == old(self).selected,
    {
        self.itemc = n;
    }
}

/// Scrolling through a test's captured output of `lines` lines.
pub struct Stdout {
    pub scroll: u16,
    pub lines: u16,
}

impl Default for Stdout {
    fn default() -> (r: Stdout)
        ensures
            r.scroll == 0,
            r.lines == 0,
    {
        Stdout { scroll: 0, lines: 0 }
    }
}

impl Stdout {
    /// Scrolls one line down, no further than the number of lines.
    pub fn incr(&mut self)
        ensures
            final(self).lines == old(self).lines,
            final(self).scroll as int == if old(self).scroll + 1 < old(self).lines {
                old(self).scroll + 1
            } else {
                old(self).lines as int
            },
    {
        if self.scroll < self.lines && self.scroll + 1 < self.lines {
            self.scroll = self.scroll + 1;
        } else {
            self.scroll = self.lines;
        }
    }

    /// Scrolls one line up, stopping at the top.
    pub fn decr(&mut self)
        ensures
            final(self).lines == old(self).lines,
            final(self).scroll == if old(self).scroll == 0 {
                0
            } else {
                (old(self).scroll - 1) as u16
            },
    {
        self.scroll = self.scroll.saturating_sub(1);
    }
}

/// Which pane of the test dashboard has the keyboard.
#[derive(Clone, Copy, Debug, PartialEq, Eq, Structural)]
pub enum Screen {
    Main,
    Stdout,
}

impl Default for Screen {
    fn default() -> (r: Screen)
        ensures
            r == Screen::Main,
    {
        Screen::Main
    }
}

} // verus!
