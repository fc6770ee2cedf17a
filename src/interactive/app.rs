//! The application view: a disassembly listing with a selected line, tabs,
//! and a flag asking the view to close.

use vstd::prelude::*;
use crate::interactive::context::{sample_listing, selected_down, selected_up, SAMPLE_ADDR};
use crate::interactive::tabs::TabsState;

pub use crate::interactive::context::{Ins, InsState, ListState};

verus! {

/// Number of lines of the application view's sample listing.
pub const APP_LINES: usize = 10;

/// State of the application view.
pub struct App<'a> {
    pub title: &'a str,
    pub should_quit: bool,
    pub tabs: TabsState<'a>,
    pub show_src: bool,
    pub disass: InsState<'a>,
}

impl<'a> App<'a> {
    pub open spec fn wf(&self) -> bool {
        self.tabs.wf()
    }

    /// The view with two process tabs, the first selected, and the
    /// sample listing with its first line selected.
    pub fn new(title: &'a str) -> (r: App<'a>)
        ensures
            r.wf(),
            r.title == title,
            !r.should_quit,
            r.show_src,
            r.tabs.titles@ == seq!["Process 0", "Process 1"],
            r.tabs.index == 0,
            r.disass.items@.len() == APP_LINES,
            forall|i: int|
                0 <= i < APP_LINES ==> (#[trigger] r.disass.items@[i]).addr == SAMPLE_ADDR
                    && r.disass.items@[i].instruction == "mov eax, [ecx]",
            r.disass.selected == 0,
    {
        App {
            title,
            should_quit: false,
            tabs: TabsState::new(vec!["Process 0", "Process 1"]),
            show_src: true,
            disass: InsState::new(sample_listing(APP_LINES)),
        }
    }

    /// Moves the listing selection up.
    pub fn on_up(&mut self)
        ensures
            final(self).disass.selected == selected_up(old(self).disass.selected),
            final(self).disass.items@ == old(self).disass.items@,
            *final(self) == (App { disass: final(self).disass, ..*old(self) }),
    {
        self.disass.select_previous();
    }

    /// Moves the listing selection down.
    pub fn on_down(&mut self)
        ensures
            final(self).disass.selected == selected_down(
                old(self).disass.selected,
                old(self).disass.items@.len(),
            ),
            final(self).disass.items@ == old(self).disass.items@,
            *final(self) == (App { disass: final(self).disass, ..*old(self) }),
    {
        self.disass.select_next();
    }

    /// Selects the next tab.
    pub fn on_right(&mut self)
        requires
            old(self).wf(),
        ensures
            final(self).wf(),
            final(self).tabs.titles@ == old(self).tabs.titles@,
            old(self).tabs.titles@.len() > 0 ==> final(self).tabs.index == (old(self).tabs.index
                + 1) % (old(self).tabs.titles@.len() as int),
            *final(self) == (App { tabs: final(self).tabs, ..*old(self) }),
    {
        self.tabs.next();
    }

    /// Selects the previous tab.
    pub fn on_left(&mut self)
        requires
            old(self).wf(),
        ensures
            final(self).wf(),
            final(self).tabs.titles@ == old(self).tabs.titles@,
            old(self).tabs.index > 0 ==> final(self).tabs.index == old(self).tabs.index - 1,
            old(self).tabs.index == 0 && old(self).tabs.titles@.len() > 0
                ==> final(self).tabs.index == old(self).tabs.titles@.len() - 1,
            *final(self) == (App { tabs: final(self).tabs, ..*old(self) }),
    {
        self.tabs.previous();
    }

    /// `q` asks the view to close; other keys do nothing.
    pub fn on_key(&mut self, c: char)
        ensures
            *final(self) == (App { should_quit: old(self).should_quit || c == 'q', ..*old(self) }),
    {
        if c == 'q' {
            self.should_quit = true;
        }
    }

    /// A timer tick; the view has nothing to refresh.
    pub fn on_tick(&mut self)
        ensures
            *final(self) == *old(self),
    {
    }
}

} // verus!
