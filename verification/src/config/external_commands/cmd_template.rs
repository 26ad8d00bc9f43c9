pub use crate::config::cmd_template::CmdTemplate;
