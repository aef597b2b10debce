//! The core of a small language for looking into events and transforming them.
//!
//! An event is a tree of [`value::Value`]s. A path of [`segment::SegmentBuf`]s leads from
//! its root to a value inside it ([`lookup`]). An [`expression::Expression`] is built once,
//! by compiling the call of a [`function::Function`] or by hand, described before it runs
//! by a [`type_def::TypeDef`], and evaluated against one event after the other.

pub mod expression;
pub mod function;
pub mod is_regex;
pub mod kind;
pub mod lookup;
pub mod registry;
pub mod segment;
pub mod state;
pub mod text;
pub mod type_def;
pub mod value;
