use vstd::prelude::*;
use crate::config::cmd_template::CmdTemplate;

pub mod cmd_template;

verus! {

/// Commands that compute the previews of files and directories.
#[derive(Debug, Clone)]
pub struct Preview {
    pub dir_cmd: CmdTemplate,
    pub file_cmd: CmdTemplate,
    pub file_line_cmd: CmdTemplate,
}

/// Commands that open files, directories, urls and text snippets.
#[derive(Debug, Clone)]
pub struct Open {
    pub file_cmd: CmdTemplate,
    pub file_jump_cmd: CmdTemplate,
    pub url_cmd: CmdTemplate,
    pub dir_cmd: CmdTemplate,
    pub pipe_text_snippet_cmd: CmdTemplate,
}

/// All external commands of the configuration.
#[derive(Debug, Clone)]
pub struct ExternalCommands {
    pub preview: Preview,
    pub open: Open,
}

} // verus!
