pub mod print;
pub mod highlight;
pub mod lines;
pub mod text;
pub mod config;
pub mod task_item;
pub mod note;
pub mod external_commands;
pub mod link;
pub mod skim;
