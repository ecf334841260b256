//! A small memo book: a list of entries keyed by a user-chosen identifier,
//! the form that adds to it, and its stored form.

pub mod book;
pub mod entry;
pub mod form;
pub mod memo;
pub mod store;
pub mod theorems;
