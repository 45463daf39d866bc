//! What the operations are for, said of every call of them.
//!
//! Each law speaks of what goes into a call and what comes out of it, in numbers, characters
//! and fields, and not in the terms in which the operation itself is defined.
pub mod files;
pub mod pages;
pub mod sessions;
pub mod words;
