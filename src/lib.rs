pub mod args;
pub mod command;
pub mod confirm;
pub mod execute;
pub mod path;
pub mod plan;
