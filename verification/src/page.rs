//! Home of several general purpose page implementations

pub(crate) mod basic;
mod enter_string;
mod menu;

pub use basic::{BasicPage, ShutdownPage, StartupPage, TextPage};
pub use basic::{lemma_two_tick_lifetime_alternates, spec_lifetime_step};
pub use enter_string::EnterStringPage;
pub use enter_string::spec_opt_count;
pub use menu::MenuPage;
pub use menu::{spec_menu_entries, spec_menu_entry, spec_menu_line};
