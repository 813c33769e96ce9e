pub mod git;
pub mod project;
pub mod text;
