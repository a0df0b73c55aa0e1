//! Settings that pages can read and write.

use vstd::prelude::*;

verus! {

/// Relies on core::cell::Cell, a std cell with interior mutability. The
/// verifier is told nothing about the stored value: a cell can be written
/// through a shared reference, so nothing about its content can be promised
/// to callers, and the contracts of everything built on it say as much.
#[verifier::external_type_specification]
#[verifier::external_body]
#[verifier::reject_recursive_types(T)]
pub struct ExCell<T: ?Sized>(core::cell::Cell<T>);

/// Relies on Cell::new: creates a cell holding the given value.
pub assume_specification<T>[ core::cell::Cell::<T>::new ](value: T) -> core::cell::Cell<T>;

/// Relies on Cell::set: stores the given value in the cell.
#[verifier::external_body]
fn cell_store<T>(cell: &core::cell::Cell<T>, val: T) {
    cell.set(val)
}

/// Relies on Cell::get: returns a copy of the stored value.
#[verifier::external_body]
fn cell_load<T: Copy>(cell: &core::cell::Cell<T>) -> T {
    cell.get()
}

/// Relies on str::parse::<i32>: reads a decimal integer with an optional
/// sign; `None` when the text is not such a number.
#[verifier::external_body]
fn parse_decimal_i32(s: &str) -> (r: Option<i32>) {
    s.parse::<i32>().ok()
}

/// A setting value can be recovered from the text form that a string-entry
/// page collects.
pub trait SettingValue: Sized {
    /// Parse a setting value from its text form; `None` when the text does
    /// not denote a value.
    fn parse_text(s: &str) -> (r: Option<Self>);
}

impl SettingValue for i32 {
    fn parse_text(s: &str) -> (r: Option<Self>) {
        parse_decimal_i32(s)
    }
}

/// A setting can be set and get.
///
/// A setting can be borrowed multiple times, since neither writing nor
/// reading requires a `&mut self` reference.
pub trait Setting {
    type Item: Copy;

    /// Set the value of the setting
    ///
    /// The set function does not require a `&mut self` parameter on purpose
    fn set(&self, value: Self::Item);

    /// Set the value of the setting obtained from a string slice; text that
    /// does not denote a value leaves the setting as it is
    ///
    /// The set function does not require a `&mut self` parameter on purpose
    fn set_string(&self, value: &str);

    /// Get the value of the setting
    fn get(&self) -> Self::Item;

    /// Check if a certain string-represented setting value meets the type
    /// spec of the setting.
    ///
    /// An example is a range check of the number, or a check for a certain
    /// pattern.
    fn is_valid(&self, _value: &str) -> (r: bool) {
        true
    }
}

/// A setting implemented using a std cell.
///
/// The capability of a cell is to allow interior mutability. This is
/// exactly the behavior needed to implement a setting for plain values.
#[verifier::reject_recursive_types(T)]
pub struct CellSetting<T>(core::cell::Cell<T>);

impl<T: Copy + Default> Default for CellSetting<T> {
    fn default() -> Self {
        CellSetting(core::cell::Cell::new(T::default()))
    }
}

impl<T: Copy + SettingValue> Setting for CellSetting<T> {
    type Item = T;

    fn set(&self, value: T) {
        cell_store(&self.0, value);
    }

    fn get(&self) -> T {
        cell_load(&self.0)
    }

    fn set_string(&self, value: &str) {
        if let Some(v) = T::parse_text(value) {
            cell_store(&self.0, v);
        }
    }
}

} // verus!
