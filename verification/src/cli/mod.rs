//! The decisions of the command-line tools: argument parsing, plans of the
//! steps a command performs, and the text they print.
pub mod compare_args;
pub mod sweep_args;
pub mod iter_config;
pub mod sparse;
pub mod corpus;
pub mod eval_plan;
pub mod sources;
pub mod source_images;
pub mod results;
