//! Text-style pages: plain text, startup and shutdown.

use crate::lifetime::PageLifetime;
use crate::{Interaction, PageBaseInterface, PageError, PageInteractionInterface, PageNavigation};
use vstd::prelude::*;

verus! {

/// A basic page has at least a title and an optional lifetime
pub struct BasicPage {
    pub title: &'static str,
    pub lifetime: Option<PageLifetime>,
}

impl BasicPage {
    pub fn new(title: &'static str, lifetime: Option<PageLifetime>) -> (r: Self)
        ensures
            r.title == title,
            r.lifetime == lifetime,
    {
        BasicPage { title, lifetime }
    }
}

/// One aging step of a lifetime, as seen on an update tick: the counter
/// grows by one (stopping at the integer width); once it has reached the
/// limit it rewinds to zero and the step answers the lifetime's target
/// instead of the page's idle directive.
pub open spec fn spec_lifetime_step(
    counter: u16,
    limit: u16,
    target: PageNavigation,
    idle: PageNavigation,
) -> (u16, PageNavigation) {
    let aged: u16 = if counter < u16::MAX {
        (counter + 1) as u16
    } else {
        u16::MAX
    };
    if aged >= limit {
        (0u16, target)
    } else {
        (aged, idle)
    }
}

/// A lifetime of two ticks alternates forever: one update answers the idle
/// directive, the next answers the target and rewinds the counter to where
/// it began.
pub proof fn lemma_two_tick_lifetime_alternates(
    counter: u16,
    limit: u16,
    target: PageNavigation,
    idle: PageNavigation,
)
    requires
        counter == 0,
        limit == 2,
    ensures
        ({
            let s1 = spec_lifetime_step(counter, limit, target, idle);
            let s2 = spec_lifetime_step(s1.0, limit, target, idle);
            s1.1 == idle && s2.1 == target && s2.0 == counter
        }),
{
}

/// A text page holds a text and contains the behavior of a basic page
pub struct TextPage {
    pub basic: BasicPage,
    pub text: &'static str,
}

impl TextPage {
    pub fn new(basic: BasicPage, text: &'static str) -> (r: Self)
        ensures
            r.basic == basic,
            r.text == text,
    {
        TextPage { basic, text }
    }
}

impl PageBaseInterface for TextPage {
    fn title(&self) -> (r: &str)
        ensures
            r@ == self.basic.title@,
    {
        self.basic.title
    }

    /// Static pages still need to take care of their own lifetime.
    fn update(&mut self, _title_of_subpages: Option<&Vec<String>>) -> (r: Result<
        PageNavigation,
        PageError,
    >)
        ensures
            old(self).basic.lifetime is None ==> r == Ok::<PageNavigation, PageError>(
                PageNavigation::Update,
            ) && *final(self) == *old(self),
            old(self).basic.lifetime matches Some(lt) ==> {
                let step = spec_lifetime_step(
                    lt.spec_counter(),
                    lt.spec_limit(),
                    lt.spec_target(),
                    PageNavigation::Update,
                );
                &&& r == Ok::<PageNavigation, PageError>(step.1)
                &&& final(self).basic.lifetime matches Some(lt2) && lt2.spec_counter() == step.0
                    && lt2.spec_limit() == lt.spec_limit() && lt2.spec_target() == lt.spec_target()
                &&& final(self).basic.title == old(self).basic.title
                &&& final(self).text == old(self).text
            },
    {
        match self.basic.lifetime {
            Some(lifetime) => {
                let mut lifetime = lifetime;
                let mut result = PageNavigation::Update;
                lifetime.increase_age();
                if lifetime.is_over() {
                    lifetime.reset_age();
                    result = lifetime.get_target();
                }
                self.basic.lifetime = Some(lifetime);
                Ok(result)
            },
            None => Ok(PageNavigation::Update),
        }
    }
}

impl PageInteractionInterface for TextPage {

}

/// A startup page
///
/// * Is a text page with title "Startup"
/// * Has a dedicated lifetime
/// * Any user interaction is suppressed
/// * If the lifetime is over it turns to the home page
pub struct StartupPage(pub TextPage);

impl StartupPage {
    pub fn new(startup_message: &'static str, lifetime_in_updates: u16) -> (r: Self)
        ensures
            r.0.basic.title@ == "Startup"@,
            r.0.text == startup_message,
            r.0.basic.lifetime matches Some(lt) && lt.spec_counter() == 0 && lt.spec_limit()
                == lifetime_in_updates && lt.spec_target() == PageNavigation::Home,
    {
        let basic = BasicPage::new(
            "Startup",
            Some(PageLifetime::new(PageNavigation::Home, lifetime_in_updates)),
        );
        StartupPage(TextPage { basic, text: startup_message })
    }
}

impl PageBaseInterface for StartupPage {
    fn title(&self) -> (r: &str)
        ensures
            r@ == self.0.basic.title@,
    {
        self.0.basic.title
    }

    /// While the lifetime runs the page keeps answering `SystemStart`; once
    /// it is over the target directive takes over and the aging rewinds.
    fn update(&mut self, _title_of_subpages: Option<&Vec<String>>) -> (r: Result<
        PageNavigation,
        PageError,
    >)
        ensures
            old(self).0.basic.lifetime is None ==> r == Ok::<PageNavigation, PageError>(
                PageNavigation::SystemStart,
            ) && *final(self) == *old(self),
            old(self).0.basic.lifetime matches Some(lt) ==> {
                let step = spec_lifetime_step(
                    lt.spec_counter(),
                    lt.spec_limit(),
                    lt.spec_target(),
                    PageNavigation::SystemStart,
                );
                &&& r == Ok::<PageNavigation, PageError>(step.1)
                &&& final(self).0.basic.lifetime matches Some(lt2) && lt2.spec_counter() == step.0
                    && lt2.spec_limit() == lt.spec_limit() && lt2.spec_target() == lt.spec_target()
                &&& final(self).0.basic.title == old(self).0.basic.title
                &&& final(self).0.text == old(self).0.text
            },
    {
        match self.0.basic.lifetime {
            Some(lifetime) => {
                let mut lifetime = lifetime;
                let mut result = PageNavigation::SystemStart;
                lifetime.increase_age();
                if lifetime.is_over() {
                    lifetime.reset_age();
                    result = lifetime.get_target();
                }
                self.0.basic.lifetime = Some(lifetime);
                Ok(result)
            },
            None => Ok(PageNavigation::SystemStart),
        }
    }
}

impl PageInteractionInterface for StartupPage {
    /// Do not react on any interaction
    fn dispatch(&mut self, _interaction: Interaction) -> (r: PageNavigation)
        ensures
            r == PageNavigation::Update,
            *final(self) == *old(self),
    {
        PageNavigation::Update
    }
}

/// A shutdown page
///
/// * Is a text page with title "Shutdown"
/// * Has a dedicated lifetime
/// * Any user interaction is suppressed
/// * If the lifetime is over it returns a `PageError`
pub struct ShutdownPage(pub TextPage);

impl ShutdownPage {
    pub fn new(shutdown_message: &'static str, lifetime_in_updates: u16) -> (r: Self)
        ensures
            r.0.basic.title@ == "Shutdown"@,
            r.0.text == shutdown_message,
            r.0.basic.lifetime matches Some(lt) && lt.spec_counter() == 0 && lt.spec_limit()
                == lifetime_in_updates && lt.spec_target() == PageNavigation::SystemStop,
    {
        let basic = BasicPage::new(
            "Shutdown",
            Some(PageLifetime::new(PageNavigation::SystemStop, lifetime_in_updates)),
        );
        ShutdownPage(TextPage { basic, text: shutdown_message })
    }
}

impl PageBaseInterface for ShutdownPage {
    fn title(&self) -> (r: &str)
        ensures
            r@ == self.0.basic.title@,
    {
        self.0.basic.title
    }

    /// While the lifetime runs the page keeps answering `SystemStop`; once
    /// it is over the update fails: the error is the intended signal that
    /// the run loop may end.
    fn update(&mut self, _title_of_subpages: Option<&Vec<String>>) -> (r: Result<
        PageNavigation,
        PageError,
    >)
        ensures
            old(self).0.basic.lifetime is None ==> r == Ok::<PageNavigation, PageError>(
                PageNavigation::SystemStop,
            ) && *final(self) == *old(self),
            old(self).0.basic.lifetime matches Some(lt) ==> {
                let aged: u16 = if lt.spec_counter() < u16::MAX {
                    (lt.spec_counter() + 1) as u16
                } else {
                    u16::MAX
                };
                &&& (aged >= lt.spec_limit() ==> r is Err && (
                final(self).0.basic.lifetime matches Some(lt2) && lt2.spec_counter() == 0
                    && lt2.spec_limit() == lt.spec_limit() && lt2.spec_target()
                    == lt.spec_target()))
                &&& (aged < lt.spec_limit() ==> r == Ok::<PageNavigation, PageError>(
                    PageNavigation::SystemStop,
                ) && (final(self).0.basic.lifetime matches Some(lt2) && lt2.spec_counter() == aged
                    && lt2.spec_limit() == lt.spec_limit() && lt2.spec_target()
                    == lt.spec_target()))
                &&& final(self).0.basic.title == old(self).0.basic.title
                &&& final(self).0.text == old(self).0.text
            },
    {
        match self.0.basic.lifetime {
            Some(lifetime) => {
                let mut lifetime = lifetime;
                lifetime.increase_age();
                self.0.basic.lifetime = Some(lifetime);
                if lifetime.is_over() {
                    lifetime.reset_age();
                    self.0.basic.lifetime = Some(lifetime);
                    Err(PageError)
                } else {
                    Ok(PageNavigation::SystemStop)
                }
            },
            None => Ok(PageNavigation::SystemStop),
        }
    }
}

impl PageInteractionInterface for ShutdownPage {
    /// Do not react on any interaction
    fn dispatch(&mut self, _interaction: Interaction) -> (r: PageNavigation)
        ensures
            r == PageNavigation::Update,
            *final(self) == *old(self),
    {
        PageNavigation::Update
    }
}

} // verus!
