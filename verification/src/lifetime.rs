//! Per-page countdown timers.

use crate::PageNavigation;
use vstd::prelude::*;

verus! {

/// `PageLifetime` enables a page to automatically switch to another page
/// after a certain time.
///
/// The page lifetime is only applied while a page is presented.
/// Each page type is responsible to care if page lifetime is to be
/// considered. Page lifetime is measured in update events, i.e. an update
/// event shall cause a call to `increase_age`.
#[derive(Clone, Copy)]
pub struct PageLifetime {
    target: PageNavigation,
    lifetime_in_updates: u16,
    update_counter: u16,
}

impl PageLifetime {
    /// Where the page navigates to once the lifetime is over.
    pub closed spec fn spec_target(&self) -> PageNavigation {
        self.target
    }

    /// The number of update ticks the page lives for.
    pub closed spec fn spec_limit(&self) -> u16 {
        self.lifetime_in_updates
    }

    /// The number of update ticks seen since creation or the last reset.
    pub closed spec fn spec_counter(&self) -> u16 {
        self.update_counter
    }

    /// The lifetime is over once the counter has reached the limit.
    /// A limit of zero is over immediately, before any aging.
    pub open spec fn spec_is_over(&self) -> bool {
        self.spec_counter() >= self.spec_limit()
    }

    pub fn new(target: PageNavigation, lifetime_in_updates: u16) -> (r: Self)
        ensures
            r.spec_target() == target,
            r.spec_limit() == lifetime_in_updates,
            r.spec_counter() == 0,
    {
        PageLifetime { target, lifetime_in_updates, update_counter: 0 }
    }

    /// Check if the lifetime is over
    pub fn is_over(&self) -> (r: bool)
        ensures
            r == self.spec_is_over(),
    {
        self.update_counter >= self.lifetime_in_updates
    }

    /// Where to navigate to if the lifetime is over
    pub fn get_target(&self) -> (r: PageNavigation)
        ensures
            r == self.spec_target(),
    {
        self.target
    }

    /// Increase page age - to be called by the page when it receives a page
    /// update event.
    ///
    /// The counter stops at the top of the integer width rather than wrap
    /// around; limits are expected to be small, so a saturated counter is
    /// over for every reachable limit.
    pub fn increase_age(&mut self)
        ensures
            final(self).spec_counter() == if old(self).spec_counter() < u16::MAX {
                old(self).spec_counter() + 1
            } else {
                u16::MAX as int
            },
            final(self).spec_target() == old(self).spec_target(),
            final(self).spec_limit() == old(self).spec_limit(),
    {
        if self.update_counter < u16::MAX {
            self.update_counter = self.update_counter + 1;
        }
    }

    /// Rebirth of a page - to be called when the page has just turned active.
    pub fn reset_age(&mut self)
        ensures
            final(self).spec_counter() == 0,
            final(self).spec_target() == old(self).spec_target(),
            final(self).spec_limit() == old(self).spec_limit(),
    {
        self.update_counter = 0;
    }
}

} // verus!
