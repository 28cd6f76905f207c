//! Reflection-based forms: the verified core of formoxus.

pub mod error;
pub mod text;
pub mod suggest;
pub mod label_case;
pub mod buttons;
pub mod pattern;
pub mod fields;
pub mod field_kind;
pub mod vocab;
pub mod grammar;
pub mod checks;
pub mod button_meta;
pub mod field_meta;
pub mod defaults;
pub mod rows;
pub mod variant;
pub mod members;
pub mod spec_path;
pub mod path;
