//! Folding operations into compound C expressions.

pub mod address;
pub mod aliases;
pub mod analyze;
pub mod block;
pub mod call_args;
pub mod casts;
pub mod consts;
pub mod context;
pub mod definitions;
pub mod epilogue;
pub mod facts;
pub mod final_calls;
pub mod final_stmts;
pub mod imported;
pub mod kept;
pub mod laws;
pub mod levels;
pub mod meaning;
pub mod literal;
pub mod lookup;
pub mod lower;
pub mod names;
pub mod objects;
pub mod owner;
pub mod owner_calls;
pub mod ownership;
pub mod prune;
pub mod quality;
pub mod reads;
pub mod render;
pub mod returned;
pub mod returning;
pub mod shape;
pub mod stack_names;
pub mod statements;
pub mod structure;
pub mod switch;
pub mod tables;
pub mod visible;
