use vstd::prelude::*;

pub mod cmd_template;
pub mod color;
pub mod keymap;
pub mod node;
pub mod read;
pub mod external_commands;
pub mod surf_parsing;

pub use self::cmd_template::CmdTemplate;
pub use self::external_commands::{ExternalCommands, Open, Preview};
pub use self::surf_parsing::SurfParsing;

verus! {

/// A path named in the configuration.
#[derive(Debug, Clone)]
pub struct ConfigPath(pub String);

/// The configuration of the program: the directory of the notes, the regular expressions by
/// which notes are read, the external commands, the colors and the keys.
#[derive(Debug, Clone)]
pub struct Config {
    pub work_dir: ConfigPath,
    pub surf_parsing: SurfParsing,
    pub external_commands: ExternalCommands,
    pub color: crate::config::color::Color,
    pub keymap: crate::config::keymap::Keymap,
}

} // verus!
