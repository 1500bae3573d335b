pub mod cli;
pub mod github;
pub mod json;
pub mod text;
pub mod utils;
