//! A page that collects an ascii string from a fixed set of characters.

use crate::page::basic::BasicPage;
use crate::setting::{CellSetting, Setting, SettingValue};
use crate::text::{string_pop_char, string_push_char};
use crate::{Interaction, PageBaseInterface, PageError, PageInteractionInterface, PageNavigation};
use vstd::prelude::*;
use vstd::string::StrSliceExecFns;

verus! {

/// Page that allows entering an ascii string composed of a fixed set of
/// characters.
///
/// Interaction is as follows:
/// * entering the page -> previously collected characters are shown
/// * entering the page the first time -> the setting's current value is shown
///
/// * next - selects the next character from the set of allowed characters
/// * previous - selects the previous character from the set of allowed characters
/// * action - appends the selected character to the collected characters
/// * back - removes the rightmost character from the collected characters
/// * home - leaves the page with up-navigation
///
/// If a previous button does not exist, next starts at the beginning after
/// reaching the end.
///
/// Back can be emulated with next and action if not available.
/// Home can be emulated with next and action if not available.
#[verifier::reject_recursive_types(T)]
pub struct EnterStringPage<'a, T> {
    pub basic: BasicPage,
    pub allowed_characters: &'static str,
    pub current_char: usize,
    pub max_chars: usize,
    pub buffer: String,
    /// the back menu entry in language
    pub back: Option<&'static str>,
    /// the ok/up/leave menu entry in language
    pub up: Option<&'static str>,
    /// the setting to store the collected string in
    pub value: &'a CellSetting<T>,
}

pub open spec fn spec_opt_count(o: Option<&'static str>) -> int {
    if o is Some {
        1
    } else {
        0
    }
}

impl<'a, T> EnterStringPage<'a, T> {
    /// The page's structural soundness: the selection index stays inside
    /// the row of selectable items, which is the allowed characters plus
    /// the simulated back and finish entries.
    pub open spec fn wf(&self) -> bool {
        &&& vstd::string::is_ascii(self.allowed_characters)
        &&& self.allowed_characters@.len() >= 1
        &&& self.max_chars == self.allowed_characters@.len() + spec_opt_count(self.back)
            + spec_opt_count(self.up)
        &&& self.current_char < self.max_chars
    }

    /// The finish entry is presented and selected.
    pub open spec fn spec_is_finish(&self) -> bool {
        match self.up {
            None => false,
            Some(_) => if self.current_char >= self.allowed_characters@.len() {
                match self.back {
                    None => true,
                    Some(_) => self.current_char > self.allowed_characters@.len(),
                }
            } else {
                false
            },
        }
    }

    /// The back entry is presented and selected.
    pub open spec fn spec_is_back(&self) -> bool {
        match self.back {
            None => false,
            Some(_) => self.current_char == self.allowed_characters@.len(),
        }
    }

    /// Determine if the finish action is presented and selected
    pub fn is_finish(&self) -> (r: bool)
        ensures
            r == self.spec_is_finish(),
    {
        match self.up {
            None => false,
            Some(_) => {
                let n = self.allowed_characters.unicode_len();
                if self.current_char >= n {
                    match self.back {
                        None => true,
                        Some(_) => self.current_char > n,
                    }
                } else {
                    false
                }
            },
        }
    }

    /// Determine if the back action is presented and selected
    pub fn is_back(&self) -> (r: bool)
        ensures
            r == self.spec_is_back(),
    {
        match self.back {
            None => false,
            Some(_) => self.current_char == self.allowed_characters.unicode_len(),
        }
    }
}

impl<'a, T: Copy + SettingValue + core::fmt::Display> EnterStringPage<'a, T> {
    pub fn new(
        basic: BasicPage,
        allowed_characters: &'static str,
        back: Option<&'static str>,
        up: Option<&'static str>,
        value: &'a CellSetting<T>,
    ) -> (r: Self)
        requires
            vstd::string::is_ascii(allowed_characters),
            allowed_characters@.len() >= 1,
            allowed_characters@.len() + 2 <= usize::MAX,
        ensures
            r.wf(),
            r.basic == basic,
            r.allowed_characters == allowed_characters,
            r.current_char == 0,
            r.max_chars == allowed_characters@.len() + spec_opt_count(back) + spec_opt_count(up),
            r.back == back,
            r.up == up,
            r.value == value,
    {
        let mut max_chars = allowed_characters.unicode_len();
        if back.is_some() {
            max_chars = max_chars + 1;
        }
        if up.is_some() {
            max_chars = max_chars + 1;
        }
        let buffer = value.get().to_string();
        EnterStringPage { basic, allowed_characters, current_char: 0, buffer, back, up, max_chars, value }
    }

    /// The label of the action currently selected: the back entry, the
    /// finish entry, or the selected character itself.
    ///
    /// Selecting the finish entry has a side effect on purpose: the
    /// collected string is stored in the setting the page cares for.
    pub fn action_string(&self) -> (r: &'static str)
        requires
            self.wf(),
        ensures
            self.spec_is_back() ==> (self.back matches Some(b) && r == b),
            !self.spec_is_back() && self.spec_is_finish() ==> (self.up matches Some(u) && r == u),
            !self.spec_is_back() && !self.spec_is_finish() ==> r@
                == self.allowed_characters@.subrange(
                self.current_char as int,
                self.current_char + 1,
            ),
    {
        if self.is_back() {
            if let Some(back) = self.back {
                return back;
            }
        }
        if self.is_finish() {
            if let Some(up) = self.up {
                self.value.set_string(self.buffer.as_str());
                return up;
            }
        }
        self.allowed_characters.substring_ascii(self.current_char, self.current_char + 1)
    }
}

impl<'a, T> PageInteractionInterface for EnterStringPage<'a, T> {
    /// Process an interaction: move the selection, append or remove a
    /// collected character, or leave the page upward.
    fn dispatch(&mut self, interaction: Interaction) -> (r: PageNavigation)
        ensures
            final(self).basic == old(self).basic,
            final(self).allowed_characters == old(self).allowed_characters,
            final(self).max_chars == old(self).max_chars,
            final(self).back == old(self).back,
            final(self).up == old(self).up,
            final(self).value == old(self).value,
            old(self).wf() ==> final(self).wf(),
            old(self).wf() ==> match interaction {
                Interaction::Action => {
                    &&& (old(self).spec_is_back() ==> r == PageNavigation::Update && final(self).current_char == old(self).current_char && final(self).buffer@ == (if old(
                        self,
                    ).buffer@.len() > 0 {
                        old(self).buffer@.drop_last()
                    } else {
                        old(self).buffer@
                    }))
                    &&& (!old(self).spec_is_back() && old(self).spec_is_finish() ==> r
                        == PageNavigation::Up && *final(self) == *old(self))
                    &&& (!old(self).spec_is_back() && !old(self).spec_is_finish() ==> r
                        == PageNavigation::Update && final(self).current_char == old(
                        self,
                    ).current_char && final(self).buffer@ == old(self).buffer@.push(
                        old(self).allowed_characters@[old(self).current_char as int],
                    ))
                },
                Interaction::Back => r == PageNavigation::Update && final(self).current_char
                    == old(self).current_char && final(self).buffer@ == (if old(self).buffer@.len() > 0 {
                    old(self).buffer@.drop_last()
                } else {
                    old(self).buffer@
                }),
                Interaction::Home => r == PageNavigation::Up && *final(self) == *old(self),
                Interaction::Next => r == PageNavigation::Update && final(self).buffer == old(
                    self,
                ).buffer && final(self).current_char == (if old(self).current_char + 1 >= old(
                    self,
                ).max_chars {
                    0int
                } else {
                    old(self).current_char + 1
                }),
                Interaction::Previous => r == PageNavigation::Update && final(self).buffer == old(
                    self,
                ).buffer && final(self).current_char == (if old(self).current_char == 0 {
                    old(self).max_chars - 1
                } else {
                    old(self).current_char - 1
                }),
            },
    {
        match interaction {
            Interaction::Action => {
                if self.is_back() {
                    string_pop_char(&mut self.buffer);
                    return PageNavigation::Update;
                }
                if self.is_finish() {
                    return PageNavigation::Up;
                }
                if self.current_char < self.allowed_characters.unicode_len() {
                    let c = self.allowed_characters.get_char(self.current_char);
                    string_push_char(&mut self.buffer, c);
                }
                PageNavigation::Update
            },
            Interaction::Back => {
                string_pop_char(&mut self.buffer);
                PageNavigation::Update
            },
            Interaction::Home => PageNavigation::Up,
            Interaction::Next => {
                if self.current_char >= usize::MAX - 1 {
                    self.current_char = 0;
                } else if self.current_char + 1 >= self.max_chars {
                    self.current_char = 0;
                } else {
                    self.current_char = self.current_char + 1;
                }
                PageNavigation::Update
            },
            // if the previous interaction is not available, this
            // implementation is never called - but it does not hurt
            Interaction::Previous => {
                if self.current_char == 0 {
                    self.current_char = if self.max_chars > 0 {
                        self.max_chars - 1
                    } else {
                        0
                    };
                } else {
                    self.current_char = self.current_char - 1;
                }
                PageNavigation::Update
            },
        }
    }
}

impl<'a, T> PageBaseInterface for EnterStringPage<'a, T> {
    fn update(&mut self, _title_of_subpages: Option<&Vec<String>>) -> (r: Result<
        PageNavigation,
        PageError,
    >)
        ensures
            r == Ok::<PageNavigation, PageError>(PageNavigation::Update),
            *final(self) == *old(self),
    {
        // the collected text is presented as is
        Ok(PageNavigation::Update)
    }

    fn title(&self) -> (r: &str)
        ensures
            r@ == self.basic.title@,
    {
        self.basic.title
    }
}

} // verus!
