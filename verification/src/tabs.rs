//! The open notes, one tab each, and which of them is active.
use vstd::prelude::*;

verus! {

/// The tab after `active` among `n`, the first after the last.
pub open spec fn next_index(active: int, n: int) -> int {
    (active + 1) % n
}

/// The tab before `active` among `n`, the last before the first.
pub open spec fn prev_index(active: int, n: int) -> int {
    if active == 0 {
        n - 1
    } else {
        active - 1
    }
}

/// The tabs in order, and the active one. When there are tabs the active
/// index is one of them; with none it is 0.
pub struct TabList<T> {
    pub items: Vec<T>,
    pub active: usize,
}

impl<T> TabList<T> {
    /// The active index points at a tab, or is 0 when there is none.
    pub open spec fn wf(&self) -> bool {
        if self.items@.len() == 0 {
            self.active == 0
        } else {
            self.active < self.items@.len()
        }
    }

    /// No tabs.
    pub fn new() -> (r: Self)
        ensures
            r.wf(),
            r.items@.len() == 0,
    {
        TabList { items: Vec::new(), active: 0 }
    }

    /// How many tabs there are.
    pub fn len(&self) -> (r: usize)
        ensures
            r == self.items@.len(),
    {
        self.items.len()
    }

    /// The active tab, if there is one.
    pub fn active_tab(&self) -> (r: Option<&T>)
        requires
            self.wf(),
        ensures
            self.items@.len() == 0 ==> r is None,
            self.items@.len() > 0 ==> r == Some(&self.items@[self.active as int]),
    {
        if self.active < self.items.len() {
            Some(&self.items[self.active])
        } else {
            None
        }
    }

    /// Adds `t` as the last tab and makes it active.
    pub fn open(&mut self, t: T)
        ensures
            final(self).wf(),
            final(self).items@ == old(self).items@.push(t),
            final(self).active == old(self).items@.len(),
    {
        self.items.push(t);
        self.active = self.items.len() - 1;
    }

    /// Makes tab `idx` active, when there is such a tab.
    pub fn activate(&mut self, idx: usize)
        requires
            old(self).wf(),
        ensures
            final(self).wf(),
            final(self).items@ == old(self).items@,
            final(self).active == (if idx < old(self).items@.len() {
                idx
            } else {
                old(self).active
            }),
    {
        if idx < self.items.len() {
            self.active = idx;
        }
    }

    /// The next tab, wrapping from the last to the first.
    pub fn next(&mut self)
        requires
            old(self).wf(),
        ensures
            final(self).wf(),
            final(self).items@ == old(self).items@,
            old(self).items@.len() > 0 ==> final(self).active == next_index(old(self).active as int, old(self).items@.len() as int),
            old(self).items@.len() == 0 ==> final(self).active == old(self).active,
    {
        if self.items.len() > 0 {
            self.active = (self.active + 1) % self.items.len();
        }
    }

    /// The previous tab, wrapping from the first to the last.
    pub fn prev(&mut self)
        requires
            old(self).wf(),
        ensures
            final(self).wf(),
            final(self).items@ == old(self).items@,
            old(self).items@.len() > 0 ==> final(self).active == prev_index(old(self).active as int, old(self).items@.len() as int),
            old(self).items@.len() == 0 ==> final(self).active == old(self).active,
    {
        if self.items.len() > 0 {
            self.active = if self.active == 0 {
                self.items.len() - 1
            } else {
                self.active - 1
            };
        }
    }

    /// Closes the active tab and hands it back; the tab after it becomes
    /// active, or the new last one when it was the last.
    pub fn close_active(&mut self) -> (r: Option<T>)
        requires
            old(self).wf(),
        ensures
            final(self).wf(),
            old(self).items@.len() == 0 ==> r is None && final(self).items@ == old(self).items@
                && final(self).active == old(self).active,
            old(self).items@.len() > 0 ==> {
                &&& r == Some(old(self).items@[old(self).active as int])
                &&& final(self).items@ == old(self).items@.remove(old(self).active as int)
                &&& final(self).active == (if old(self).active < final(self).items@.len() {
                    old(self).active as int
                } else if final(self).items@.len() > 0 {
                    final(self).items@.len() - 1
                } else {
                    0
                })
            },
    {
        if self.items.len() == 0 {
            return None;
        }
        let t = self.items.remove(self.active);
        if self.active >= self.items.len() {
            self.active = if self.items.len() > 0 {
                self.items.len() - 1
            } else {
                0
            };
        }
        Some(t)
    }
}

/// Going to the next tab and then back to the previous one returns to the
/// tab one started from, and so does going back and then forward.
pub proof fn lemma_next_prev_inverse(active: int, n: int)
    requires
        0 <= active < n,
    ensures
        prev_index(next_index(active, n), n) == active,
        next_index(prev_index(active, n), n) == active,
{
    if active + 1 < n {
        assert((active + 1) % n == active + 1) by (nonlinear_arith)
            requires
                0 <= active + 1 < n,
        ;
    } else {
        assert((active + 1) % n == 0) by (nonlinear_arith)
            requires
                active + 1 == n,
                n > 0,
        ;
    }
    if active == 0 {
        assert((n - 1 + 1) % n == 0) by (nonlinear_arith)
            requires
                n > 0,
        ;
    } else {
        assert((active - 1 + 1) % n == active) by (nonlinear_arith)
            requires
                0 < active < n,
        ;
    }
}

} // verus!
