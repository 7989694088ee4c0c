//! The service list at the left of the screen.
use vstd::prelude::*;
use crate::keys::{all_services, Service};

verus! {

/// The sidebar: the services and the cursor on them.
#[derive(Debug)]
pub struct Sidebar {
    pub selected: usize,
    pub services: Vec<Service>,
}

impl Default for Sidebar {
    fn default() -> (s: Self)
        ensures
            s.selected == 0,
            s.services@ == all_services(),
    {
        Sidebar { selected: 0, services: Service::all() }
    }
}

impl Sidebar {
    /// Moves the cursor one service up, unless it is on the first.
    pub fn move_up(&mut self)
        ensures
            final(self).services == old(self).services,
            final(self).selected == (if old(self).selected > 0 {
                old(self).selected - 1
            } else {
                old(self).selected as int
            }),
    {
        if self.selected > 0 {
            self.selected -= 1;
        }
    }

    /// Moves the cursor one service down, unless it is on the last.
    pub fn move_down(&mut self)
        ensures
            final(self).services == old(self).services,
            final(self).selected == (if old(self).selected + 1 < old(self).services@.len() {
                old(self).selected + 1
            } else {
                old(self).selected as int
            }),
    {
        if self.selected < self.services.len() && self.services.len() - self.selected > 1 {
            self.selected += 1;
        }
    }

    /// The service under the cursor, if the cursor is on one.
    pub fn selected_service(&self) -> (r: Option<Service>)
        ensures
            r == (if self.selected < self.services@.len() {
                Some(self.services@[self.selected as int])
            } else {
                None
            }),
    {
        if self.selected < self.services.len() {
            Some(self.services[self.selected])
        } else {
            None
        }
    }
}

} // verus!
