//! A parser and serializer for plain-text task lines: an optional header
//! (completion marker, priority, up to two dates) followed by a free-form
//! description whose inline annotations — `+project`, `@context`,
//! `key:value` — are tokenized into an ordered component sequence. Parsing
//! a description is total, and writing the components back in order
//! reproduces the input exactly; both are proved, for every input, in
//! `description_component`.

pub mod chars;
pub mod date;
pub mod description_component;
pub mod parsers;
pub mod tags;
pub mod task;
pub mod tokens;

pub use task::Task;
