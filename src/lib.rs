//! Arithmetic-expression engine: a numeric value type with checked division,
//! an expression tree, an infix parser and formatters, single-step reduction,
//! a node-id allocator and a graph-description writer.

pub mod number_value;
pub mod text;
pub mod expression;
pub mod manipulator;
pub mod id_dispatcher;
pub mod formatter;
pub mod infix_notation;
pub mod infix_parser;
pub mod dot_writer;
pub mod rpn;
pub mod console;
pub mod round_trip;
