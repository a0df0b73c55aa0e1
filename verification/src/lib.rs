//! # Embedded Multi-Page HMI
//!
//! A navigation engine for single-display, few-button human-machine
//! interfaces: exactly one page of content is visible at a time, and a small
//! fixed set of input events moves focus through a tree of pages.
//!
//! The core is the [`PageManager`], a tree cursor ("zipper") that moves
//! between sibling pages, descends into subtrees, ascends back, and jumps
//! home, together with the dispatch protocol that turns input events into
//! navigation directives and the [`lifetime::PageLifetime`] aging mechanism
//! that lets a page expire itself after a number of update ticks.
//!
//! Every navigation step comes with a mechanically checked contract: each
//! cursor move is specified as a mathematical function on the manager's
//! abstract view ([`page_manager::ManagerView`]), and the round-trip laws
//! (a move followed by its inverse restores the manager) are proved in
//! [`laws`].

use vstd::prelude::*;

pub mod laws;
pub mod lifetime;
pub mod page;
pub mod page_manager;
pub mod setting;
mod text;

pub use page_manager::PageManager;

verus! {

/// Possible interactions derived from the input
#[derive(Debug, Clone, Copy)]
pub enum Interaction {
    /// Primary HMI event to trigger some action e.g. go to next page
    Action,
    /// Primary HMI event to e.g. go to next page
    Next,
    /// Primary HMI event to e.g. go to previous page
    Previous,
    /// Primary HMI event to e.g. go to one page up
    Back,
    /// Event to go to home page.
    /// Could be a primary HMI event or a generated event.
    Home,
}

/// Page navigation events dispatched by the page manager
#[derive(Debug, Clone, Copy, PartialEq, Eq, Structural)]
pub enum PageNavigation {
    /// Start the HMI.
    SystemStart,
    /// Stop the HMI.
    SystemStop,
    /// Stay at the active page and initiate an update.
    Update,
    /// Navigate to the left page.
    Left,
    /// Navigate to the right page.
    Right,
    /// Navigate one page up.
    Up,
    /// Navigate down to the n-th subpage. Start counting with one.
    NthSubpage(usize),
    /// Event to go to home page.
    Home,
}

/// The default mapping from a raw interaction to a navigation directive,
/// as a mathematical function.
pub open spec fn spec_map_interaction(interaction: Interaction) -> PageNavigation {
    match interaction {
        Interaction::Action => PageNavigation::Update,
        Interaction::Back => PageNavigation::Up,
        Interaction::Home => PageNavigation::Home,
        Interaction::Next => PageNavigation::Left,
        Interaction::Previous => PageNavigation::Right,
    }
}

/// Map default 5-button interaction to navigation
pub fn map_interaction_to_navigation(interaction: Interaction) -> (r: PageNavigation)
    ensures
        r == spec_map_interaction(interaction),
{
    match interaction {
        Interaction::Action => PageNavigation::Update,
        Interaction::Back => PageNavigation::Up,
        Interaction::Home => PageNavigation::Home,
        Interaction::Next => PageNavigation::Left,
        Interaction::Previous => PageNavigation::Right,
    }
}

/// Any error a page update may run into
#[derive(Debug, Clone)]
pub struct PageError;

/// Data structures that implement this trait are pages that can be handled
/// by the [`PageManager`] type.
///
/// The methods carry no contract on purpose: a page implementation is free
/// to react to an update tick in any way it likes, and the manager is
/// verified to keep its own invariants whatever a page answers.
pub trait PageBaseInterface {
    /// Trigger a page-internal update, possibly modifying page-internal state.
    ///
    /// Called by the `PageManager` once per tick for the active page.
    /// Page lifetime management is handled here by the page itself.
    ///
    /// `title_of_subpages` is a finite, restartable sequence of the titles
    /// of the active page's subpages, if the caller has any to offer.
    ///
    /// Returns `Ok(<PageNavigation>)` to indicate which page to navigate to
    /// next, or an error to force a controlled shutdown of the interface.
    fn update(&mut self, title_of_subpages: Option<&Vec<String>>) -> (r: Result<
        PageNavigation,
        PageError,
    >) {
        Ok(PageNavigation::Update)
    }

    /// Every page has a title - default is the empty string
    fn title(&self) -> (r: &str) {
        ""
    }
}

/// Pages that take part in interaction dispatching.
pub trait PageInteractionInterface: PageBaseInterface {
    /// Handle page interaction
    fn dispatch(&mut self, interaction: Interaction) -> (r: PageNavigation) {
        map_interaction_to_navigation(interaction)
    }
}

/// Data structures that implement this trait are pages that can be handled
/// by the [`PageManager`] type and rendered to a display of type `D`.
pub trait PageInterface<D>: PageInteractionInterface {
    /// Force updating the page content on the display
    fn display(&self, display_driver: &mut D);
}

impl<T: PageBaseInterface> PageBaseInterface for Box<T> {
    fn update(&mut self, title_of_subpages: Option<&Vec<String>>) -> (r: Result<
        PageNavigation,
        PageError,
    >) {
        (**self).update(title_of_subpages)
    }

    fn title(&self) -> (r: &str) {
        (**self).title()
    }
}

impl<T: PageInteractionInterface> PageInteractionInterface for Box<T> {
    fn dispatch(&mut self, interaction: Interaction) -> (r: PageNavigation) {
        (**self).dispatch(interaction)
    }
}

impl<D, T: PageInterface<D>> PageInterface<D> for Box<T> {
    fn display(&self, display_driver: &mut D) {
        (**self).display(display_driver)
    }
}

} // verus!
