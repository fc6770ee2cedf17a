//! The context view: a disassembly listing with a selected line, tabs, and
//! a flag asking the view to close.

use vstd::prelude::*;
use crate::interactive::tabs::TabsState;

verus! {

/// Address shown on the sample listing lines.
pub const SAMPLE_ADDR: usize = 0x40000;

/// Number of lines of the context view's sample listing.
pub const CONTEXT_LINES: usize = 15;

/// One line of a disassembly listing.
#[derive(Clone, Copy, Debug)]
pub struct Ins<'a> {
    pub addr: usize,
    pub instruction: &'a str,
}

/// A listing of instructions with one selected.
pub struct InsState<'a> {
    pub items: Vec<Ins<'a>>,
    pub selected: usize,
}

/// The selection after moving up: one line up, stopping at the first.
pub open spec fn selected_up(selected: usize) -> usize {
    if selected > 0 {
        (selected - 1) as usize
    } else {
        selected
    }
}

/// The selection after moving down: one line down, stopping at the last.
pub open spec fn selected_down(selected: usize, len: nat) -> usize {
    if selected + 1 < len {
        (selected + 1) as usize
    } else {
        selected
    }
}

impl<'a> InsState<'a> {
    pub fn new(items: Vec<Ins<'a>>) -> (r: InsState<'a>)
        ensures
            r.items@ == items@,
            r.selected == 0,
    {
        InsState { items, selected: 0 }
    }

    pub fn select_previous(&mut self)
        ensures
            final(self).items@ == old(self).items@,
            final(self).selected == selected_up(old(self).selected),
    {
        if self.selected > 0 {
            self.selected = self.selected - 1;
        }
    }

    pub fn select_next(&mut self)
        ensures
            final(self).items@ == old(self).items@,
            final(self).selected == selected_down(old(self).selected, old(self).items@.len()),
    {
        if self.selected < self.items.len() && self.items.len() - self.selected > 1 {
            self.selected = self.selected + 1;
        }
    }
}

/// A list of items with one selected.
pub struct ListState<I> {
    pub items: Vec<I>,
    pub selected: usize,
}

impl<I> ListState<I> {
    pub fn new(items: Vec<I>) -> (r: ListState<I>)
        ensures
            r.items@ == items@,
            r.selected == 0,
    {
        ListState { items, selected: 0 }
    }

    pub fn select_previous(&mut self)
        ensures
            final(self).items@ == old(self).items@,
            final(self).selected == selected_up(old(self).selected),
    {
        if self.selected > 0 {
            self.selected = self.selected - 1;
        }
    }

    pub fn select_next(&mut self)
        ensures
            final(self).items@ == old(self).items@,
            final(self).selected == selected_down(old(self).selected, old(self).items@.len()),
    {
        if self.selected < self.items.len() && self.items.len() - self.selected > 1 {
            self.selected = self.selected + 1;
        }
    }
}

/// `n` sample listing lines.
pub fn sample_listing(n: usize) -> (r: Vec<Ins<'static>>)
    ensures
        r@.len() == n,
        forall|i: int|
            0 <= i < n ==> (#[trigger] r@[i]).addr == SAMPLE_ADDR && r@[i].instruction
                == "mov eax, [ecx]",
{
    let mut v: Vec<Ins<'static>> = Vec::new();
    let mut i: usize = 0;
    while i < n
        invariant
            i <= n,
            v@.len() == i,
            forall|j: int|
                0 <= j < i ==> (#[trigger] v@[j]).addr == SAMPLE_ADDR && v@[j].instruction
                    == "mov eax, [ecx]",
        decreases n - i,
    {
        v.push(Ins { addr: SAMPLE_ADDR, instruction: "mov eax, [ecx]" });
        i = i + 1;
    }
    v
}

/// State of the context view.
pub struct Context<'a> {
    pub title: &'a str,
    pub should_quit: bool,
    pub tabs: TabsState<'a>,
    pub show_src: bool,
    pub disass: ListState<Ins<'a>>,
}

impl<'a> Context<'a> {
    pub open spec fn wf(&self) -> bool {
        self.tabs.wf()
    }

    /// The view with two process tabs, the first selected, and the
    /// sample listing with its first line selected.
    pub fn new(title: &'a str) -> (r: Context<'a>)
        ensures
            r.wf(),
            r.title == title,
            !r.should_quit,
            r.show_src,
            r.tabs.titles@ == seq!["Process 0", "Process 1"],
            r.tabs.index == 0,
            r.disass.items@.len() == CONTEXT_LINES,
            forall|i: int|
                0 <= i < CONTEXT_LINES ==> (#[trigger] r.disass.items@[i]).addr == SAMPLE_ADDR
                    && r.disass.items@[i].instruction == "mov eax, [ecx]",
            r.disass.selected == 0,
    {
        Context {
            title,
            should_quit: false,
            tabs: TabsState::new(vec!["Process 0", "Process 1"]),
            show_src: true,
            disass: ListState::new(sample_listing(CONTEXT_LINES)),
        }
    }

    /// Moves the listing selection up.
    pub fn on_up(&mut self)
        ensures
            final(self).disass.selected == selected_up(old(self).disass.selected),
            final(self).disass.items@ == old(self).disass.items@,
            *final(self) == (Context { disass: final(self).disass, ..*old(self) }),
    {
        self.disass.select_previous();
    }

    /// Moves the listing selection down.
    pub fn on_down(&mut self)
        ensures
            final(self).disass.selected == selected_down(
                old(self).disass.selected,
                old(self).disass.items@.len(),
            ),
            final(self).disass.items@ == old(self).disass.items@,
            *final(self) == (Context { disass: final(self).disass, ..*old(self) }),
    {
        self.disass.select_next();
    }

    /// Selects the next tab.
    pub fn on_right(&mut self)
        requires
            old(self).wf(),
        ensures
            final(self).wf(),
            final(self).tabs.titles@ == old(self).tabs.titles@,
            old(self).tabs.titles@.len() > 0 ==> final(self).tabs.index == (old(self).tabs.index
                + 1) % (old(self).tabs.titles@.len() as int),
            *final(self) == (Context { tabs: final(self).tabs, ..*old(self) }),
    {
        self.tabs.next();
    }

    /// Selects the previous tab.
    pub fn on_left(&mut self)
        requires
            old(self).wf(),
        ensures
            final(self).wf(),
            final(self).tabs.titles@ == old(self).tabs.titles@,
            old(self).tabs.index > 0 ==> final(self).tabs.index == old(self).tabs.index - 1,
            old(self).tabs.index == 0 && old(self).tabs.titles@.len() > 0
                ==> final(self).tabs.index == old(self).tabs.titles@.len() - 1,
            *final(self) == (Context { tabs: final(self).tabs, ..*old(self) }),
    {
        self.tabs.previous();
    }

    /// `q` asks the view to close; other keys do nothing.
    pub fn on_key(&mut self, c: char)
        ensures
            *final(self) == (Context { should_quit: old(self).should_quit || c == 'q', ..*old(self) }),
    {
        if c == 'q' {
            self.should_quit = true;
        }
    }

    /// A timer tick; the view has nothing to refresh.
    pub fn on_tick(&mut self)
        ensures
            *final(self) == *old(self),
    {
    }
}

} // verus!
