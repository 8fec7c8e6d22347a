pub mod backend;
pub mod frontend;
pub mod middle;
pub mod text;
