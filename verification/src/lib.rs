//! Tools for tables of string fields.
//!
//! The heart of the crate is a relational join engine: two tables are
//! matched row by row on one or more key columns under one of nine join
//! modes ([`join`]). Every executable function carries a contract over a
//! mathematical model of tables, keys and output rows ([`model`]), and the
//! laws that relate the modes to each other are proved in [`laws`] and
//! [`folding`].
//!
//! Beside it stand the decisions of two commands whose heavy lifting is
//! done elsewhere: geocoding a column against an index of cities
//! ([`geocode`], [`place`]) and pivoting a table ([`pivot`]).

pub mod columns;
pub mod driver;
pub mod error;
pub mod folding;
pub mod geocode;
pub mod index;
pub mod join;
pub mod key;
pub mod laws;
pub mod marks;
pub mod mode;
pub mod model;
pub mod pattern;
pub mod pivot;
pub mod place;
pub mod recorder;
pub mod rows;
pub mod table;
pub mod text;
