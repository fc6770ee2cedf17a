//! A row of tabs with one selected.

use vstd::prelude::*;

verus! {

pub struct TabsState<'a> {
    pub titles: Vec<&'a str>,
    pub index: usize,
}

impl<'a> TabsState<'a> {
    /// The selected index names a tab, or is 0 when there is none.
    pub open spec fn wf(&self) -> bool {
        self.index < self.titles@.len() || (self.titles@.len() == 0 && self.index == 0)
    }

    /// Tabs with the first selected.
    pub fn new(titles: Vec<&'a str>) -> (r: TabsState<'a>)
        ensures
            r.wf(),
            r.titles@ == titles@,
            r.index == 0,
    {
        TabsState { titles, index: 0 }
    }

    /// Selects the next tab, wrapping round after the last.
    pub fn next(&mut self)
        requires
            old(self).wf(),
        ensures
            final(self).wf(),
            final(self).titles@ == old(self).titles@,
            old(self).titles@.len() > 0 ==> final(self).index == (old(self).index + 1) % (old(
                self,
            ).titles@.len() as int),
            old(self).titles@.len() == 0 ==> final(self).index == old(self).index,
    {
        if self.titles.len() > 0 {
            self.index = (self.index + 1) % self.titles.len();
        }
    }

    /// Selects the previous tab, wrapping round before the first.
    pub fn previous(&mut self)
        requires
            old(self).wf(),
        ensures
            final(self).wf(),
            final(self).titles@ == old(self).titles@,
            old(self).index > 0 ==> final(self).index == old(self).index - 1,
            old(self).index == 0 && old(self).titles@.len() > 0 ==> final(self).index == old(
                self,
            ).titles@.len() - 1,
            old(self).titles@.len() == 0 ==> final(self).index == old(self).index,
    {
        if self.index > 0 {
            self.index = self.index - 1;
        } else if self.titles.len() > 0 {
            self.index = self.titles.len() - 1;
        }
    }
}

} // verus!
