//! A line-oriented command interpreter core: tokenizer, variable expansion,
//! grammar, builtin dispatch and job bookkeeping, with machine-checked contracts.

pub mod string_map;
pub mod builtins;
pub mod context;
pub mod llm;
pub mod markdown;
pub mod parser;
pub mod shell;
pub mod text;
