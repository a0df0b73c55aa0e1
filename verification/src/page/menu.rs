//! A menu page that lists the titles of its subpages and lets the operator
//! pick one.

use crate::page::basic::BasicPage;
use crate::text::string_push_str;
use crate::{Interaction, PageBaseInterface, PageError, PageInteractionInterface, PageNavigation};
use vstd::prelude::*;

verus! {

/// How one menu entry is rendered: the title, bracketed when it is the
/// selected one, and a separating blank.
pub open spec fn spec_menu_entry(title: Seq<char>, bracketed: bool) -> Seq<char> {
    if bracketed {
        "[ "@ + title + " ]"@ + " "@
    } else {
        title + " "@
    }
}

/// The rendered label list for the given entry titles, with the entry at
/// the one-based position `selected` bracketed.
pub open spec fn spec_menu_line(titles: Seq<Seq<char>>, selected: int) -> Seq<char>
    decreases titles,
{
    if titles.len() == 0 {
        Seq::empty()
    } else {
        spec_menu_line(titles.drop_last(), selected) + spec_menu_entry(
            titles.last(),
            titles.len() == selected,
        )
    }
}

/// The full entry list a menu update works from: the subpage titles, then
/// the optional back entry at the end.
pub open spec fn spec_menu_entries(titles: Seq<Seq<char>>, back: Option<&str>) -> Seq<Seq<char>> {
    match back {
        None => titles,
        Some(b) => titles.push(b@),
    }
}

pub struct MenuPage<'a> {
    pub basic: BasicPage,
    pub selected: usize,
    pub max_items: usize,
    /// The rendered label list, rebuilt on every update tick. Public so
    /// that a `PageInterface` implementation outside this crate can render
    /// it.
    pub sub_titles: String,
    pub back: Option<&'a str>,
}

impl<'a> MenuPage<'a> {
    pub fn new(basic: BasicPage, back: Option<&'a str>) -> (r: Self)
        ensures
            r.basic == basic,
            r.selected == 1,
            r.max_items == 1,
            r.sub_titles@ == Seq::<char>::empty(),
            r.back == back,
    {
        let r = MenuPage { basic, selected: 1, max_items: 1, sub_titles: "".to_owned(), back };
        proof {
            reveal_strlit("");
            assert(r.sub_titles@ =~= Seq::<char>::empty());
        }
        r
    }
}

impl<'a> PageInteractionInterface for MenuPage<'a> {
    /// `Next` moves the selection forward and wraps past the last entry to
    /// the first; `Previous` moves it back and stops at the first entry.
    /// `Action` descends into the selected subpage, or ascends when the
    /// simulated back entry is selected; `Back` and `Home` leave the page.
    fn dispatch(&mut self, interaction: Interaction) -> (r: PageNavigation)
        ensures
            final(self).basic == old(self).basic,
            final(self).max_items == old(self).max_items,
            final(self).sub_titles == old(self).sub_titles,
            final(self).back == old(self).back,
            match interaction {
                Interaction::Action => final(self).selected == old(self).selected && r == (
                match old(self).back {
                    None => PageNavigation::NthSubpage(old(self).selected as usize),
                    Some(_) => if old(self).selected == old(self).max_items {
                        PageNavigation::Up
                    } else {
                        PageNavigation::NthSubpage(old(self).selected as usize)
                    },
                }),
                Interaction::Back => final(self).selected == old(self).selected && r
                    == PageNavigation::Up,
                Interaction::Home => final(self).selected == old(self).selected && r
                    == PageNavigation::Home,
                Interaction::Next => r == PageNavigation::Update && final(self).selected == if old(
                    self,
                ).selected >= old(self).max_items {
                    1int
                } else {
                    old(self).selected + 1
                },
                Interaction::Previous => r == PageNavigation::Update && final(self).selected
                    == if old(self).selected <= 1 {
                    1int
                } else {
                    old(self).selected - 1
                },
            },
    {
        match interaction {
            Interaction::Action => match self.back {
                None => PageNavigation::NthSubpage(self.selected),
                Some(_) => {
                    // back navigation is simulated and last in the list
                    if self.selected == self.max_items {
                        PageNavigation::Up
                    } else {
                        PageNavigation::NthSubpage(self.selected)
                    }
                },
            },
            Interaction::Back => PageNavigation::Up,
            Interaction::Home => PageNavigation::Home,
            Interaction::Next => {
                if self.selected >= self.max_items {
                    self.selected = 1;
                } else {
                    self.selected = self.selected + 1;
                }
                PageNavigation::Update
            },
            // if the previous interaction is not available, this
            // implementation is never called - but it does not hurt
            Interaction::Previous => {
                if self.selected <= 1 {
                    self.selected = 1;
                } else {
                    self.selected = self.selected - 1;
                }
                PageNavigation::Update
            },
        }
    }
}

impl<'a> PageBaseInterface for MenuPage<'a> {
    /// Rebuild the rendered label list from the subpage titles on offer,
    /// with the selected entry bracketed and the optional back entry placed
    /// at the end. Without titles on offer the page is left as it is.
    fn update(&mut self, title_of_subpages: Option<&Vec<String>>) -> (r: Result<
        PageNavigation,
        PageError,
    >)
        ensures
            r == Ok::<PageNavigation, PageError>(PageNavigation::Update),
            final(self).basic == old(self).basic,
            final(self).selected == old(self).selected,
            final(self).back == old(self).back,
            title_of_subpages is None ==> *final(self) == *old(self),
            (match title_of_subpages {
                Some(titles) => (titles@.len() < usize::MAX || old(self).back is None) ==> {
                    let entries = spec_menu_entries(titles.deep_view(), old(self).back);
                    &&& final(self).max_items == entries.len()
                    &&& final(self).sub_titles@ == spec_menu_line(
                        entries,
                        old(self).selected as int,
                    )
                },
                None => true,
            }),
    {
        if let Some(title_iterator) = title_of_subpages {
            self.max_items = 0;
            self.sub_titles = "".to_owned();

            let ghost entries = spec_menu_entries(title_iterator.deep_view(), self.back);
            proof {
                reveal_strlit("");
                assert(entries.take(0).len() == 0);
                assert(self.sub_titles@ =~= spec_menu_line(entries.take(0), self.selected as int));
            }
            let mut index: usize = 0;
            while index < title_iterator.len()
                invariant
                    index <= title_iterator@.len(),
                    self.max_items == index,
                    title_iterator@.len() <= entries.len(),
                    forall|j: int|
                        0 <= j < title_iterator@.len() ==> entries[j] == title_iterator@[j]@,
                    self.sub_titles@ == spec_menu_line(
                        entries.take(index as int),
                        self.selected as int,
                    ),
                    self.selected == old(self).selected,
                    self.back == old(self).back,
                    self.basic == old(self).basic,
                decreases title_iterator@.len() - index,
            {
                proof {
                    assert(entries.take(index as int + 1).drop_last() =~= entries.take(
                        index as int,
                    ));
                }
                self.max_items = self.max_items + 1;
                if self.max_items == self.selected {
                    string_push_str(&mut self.sub_titles, "[ ");
                }
                string_push_str(&mut self.sub_titles, title_iterator[index].as_str());
                if self.max_items == self.selected {
                    string_push_str(&mut self.sub_titles, " ]");
                }
                string_push_str(&mut self.sub_titles, " ");
                index = index + 1;
            }
            // the optional back navigation menu entry is always placed at
            // the end
            if let Some(back_text) = self.back {
                proof {
                    assert(entries.take(entries.len() as int) =~= entries);
                    assert(entries.take(entries.len() - 1) =~= entries.drop_last());
                }
                if self.max_items < usize::MAX {
                    self.max_items = self.max_items + 1;
                }
                if self.max_items == self.selected {
                    string_push_str(&mut self.sub_titles, "[ ");
                }
                string_push_str(&mut self.sub_titles, back_text);
                if self.max_items == self.selected {
                    string_push_str(&mut self.sub_titles, " ]");
                }
                string_push_str(&mut self.sub_titles, " ");
            } else {
                proof {
                    assert(entries.take(entries.len() as int) =~= entries);
                }
            }
        }
        Ok(PageNavigation::Update)
    }

    fn title(&self) -> (r: &str)
        ensures
            r@ == self.basic.title@,
    {
        self.basic.title
    }
}

} // verus!
