pub mod assets;
pub mod builder;
pub mod parse;
pub mod types;
