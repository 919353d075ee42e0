//! Schema migration scripts between two PostgreSQL databases.
//!
//! A database is given as a tree of named objects ([`inspect`]), assembled
//! from the records of its catalog ([`catalog`]). [`diff::Diff::from`] walks
//! two such trees in step, pairs the children of each node by key and sorts
//! them into what was added, removed and updated; [`diff::Diff::sql`] writes
//! what it found as one transaction, section by section, with the statements
//! of each kind of object as [`emit`] gives them.
//!
//! Every function states what it returns over a model of its arguments: a
//! string is the sequence of its characters, a map the sequence of its
//! entries in key order ([`ordered`]), an object the record of its fields.
//! [`laws`], [`one_entry`] and [`one_object`] hold what follows for every
//! pair of databases.

pub mod catalog;
pub mod compare;
pub mod diff;
pub mod emit;
pub mod inspect;
pub mod laws;
pub mod one_entry;
pub mod one_object;
pub mod ordered;
pub mod text;
