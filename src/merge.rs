//! Merge strategies: what happens when a field receives another value.

use vstd::prelude::*;

verus! {

/// A record type that decodes in best-effort mode.
pub trait DeserializeBestEffort {
}

/// How a value of `Self` absorbs one more decoded value of type `T` that
/// arrived under `key`.
pub trait DeserializeBestEffortTypes<T>: Sized {
    /// Relation between the value before (`prev`) and after (`next`) one merge.
    spec fn add_data_ensures(prev: Self, key: Seq<char>, next_value: T, next: Self) -> bool;

    fn add_data(&mut self, key: &str, next_value: T)
        ensures
            Self::add_data_ensures(*old(self), key@, next_value, *final(self)),
    ;
}

/// Overwrite: a later value replaces an earlier one.
impl DeserializeBestEffortTypes<i32> for i32 {
    open spec fn add_data_ensures(prev: i32, key: Seq<char>, next_value: i32, next: i32) -> bool {
        next == next_value
    }

    fn add_data(&mut self, _key: &str, next_value: i32) {
        *self = next_value;
    }
}

/// Overwrite: a later value replaces an earlier one.
impl DeserializeBestEffortTypes<u32> for u32 {
    open spec fn add_data_ensures(prev: u32, key: Seq<char>, next_value: u32, next: u32) -> bool {
        next == next_value
    }

    fn add_data(&mut self, _key: &str, next_value: u32) {
        *self = next_value;
    }
}

/// Overwrite: a later value replaces an earlier one.
impl DeserializeBestEffortTypes<String> for String {
    open spec fn add_data_ensures(prev: String, key: Seq<char>, next_value: String, next: String) -> bool {
        next@ == next_value@
    }

    fn add_data(&mut self, _key: &str, next_value: String) {
        *self = next_value;
    }
}

/// Recurse: a nested best-effort record is decoded whole and replaces the
/// one held before.
impl<T: DeserializeBestEffort> DeserializeBestEffortTypes<T> for T {
    open spec fn add_data_ensures(prev: T, key: Seq<char>, next_value: T, next: T) -> bool {
        next == next_value
    }

    fn add_data(&mut self, _key: &str, next_value: T) {
        *self = next_value;
    }
}

/// Append: every value is kept, in arrival order.
impl<T> DeserializeBestEffortTypes<T> for Vec<T> {
    open spec fn add_data_ensures(prev: Vec<T>, key: Seq<char>, next_value: T, next: Vec<T>) -> bool {
        next@ == prev@.push(next_value)
    }

    fn add_data(&mut self, _key: &str, next_value: T) {
        self.push(next_value);
    }
}

/// Set once: the first value makes the field present; a later one replaces it.
impl<T> DeserializeBestEffortTypes<T> for Option<T> {
    open spec fn add_data_ensures(prev: Option<T>, key: Seq<char>, next_value: T, next: Option<T>) -> bool {
        next == Some(next_value)
    }

    fn add_data(&mut self, _key: &str, next_value: T) {
        *self = Some(next_value);
    }
}

/// A presence flag: any value marks the field as seen.
impl DeserializeBestEffortTypes<String> for Option<()> {
    open spec fn add_data_ensures(prev: Option<()>, key: Seq<char>, next_value: String, next: Option<()>) -> bool {
        next == Some(())
    }

    fn add_data(&mut self, _key: &str, _next_value: String) {
        *self = Some(());
    }
}

/// The sequence held by an optional sequence, empty where it is absent.
pub open spec fn items_or_empty<T>(o: Option<Vec<T>>) -> Seq<T> {
    match o {
        Some(v) => v@,
        None => Seq::empty(),
    }
}

/// Set once, then append: the first value creates the sequence, every value
/// is pushed onto it.
impl<T> DeserializeBestEffortTypes<T> for Option<Vec<T>> {
    open spec fn add_data_ensures(prev: Option<Vec<T>>, key: Seq<char>, next_value: T, next: Option<Vec<T>>) -> bool {
        next is Some && items_or_empty(next) == items_or_empty(prev).push(next_value)
    }

    fn add_data(&mut self, _key: &str, next_value: T) {
        let mut list: Vec<T> = match self.take() {
            Some(l) => l,
            None => Vec::new(),
        };
        list.push(next_value);
        *self = Some(list);
    }
}

} // verus!
