pub mod text;
pub mod tokenizer;
pub mod shell;
pub mod jobs;
pub mod expand;
pub mod builtin;
pub mod runner;
pub mod execute;
pub mod pipeline;
pub mod laws;
