use vstd::prelude::*;

verus! {

/// A color given by its red, green and blue components.
#[derive(Debug, Clone, Copy, PartialEq, Eq)]
pub struct Rgb8 {
    pub r: u8,
    pub g: u8,
    pub b: u8,
}

/// A color read from the configuration.
#[derive(Debug, Clone, Copy, PartialEq, Eq)]
pub struct ConfigRGB(pub Rgb8);

/// Colors of the kinds of notes.
#[derive(Debug, Clone, Copy, PartialEq, Eq)]
pub struct Notes {
    pub tag: ConfigRGB,
    pub special_tag: ConfigRGB,
}

/// Colors of the kinds of links and of the hints in link trees.
#[derive(Debug, Clone, Copy, PartialEq, Eq)]
pub struct Links {
    pub parent_name: ConfigRGB,
    pub url: ConfigRGB,
    pub file: ConfigRGB,
    pub dir: ConfigRGB,
    pub broken: ConfigRGB,
    pub code_block: ConfigRGB,
    pub unlisted: ConfigRGB,
    pub cycle: ConfigRGB,
}

/// The colors of everything the program shows.
#[derive(Debug, Clone, Copy, PartialEq, Eq)]
pub struct ColorScheme {
    pub links: Links,
    pub notes: Notes,
}

/// The `color` section of the configuration: the path of a highlighting theme and the
/// colors of elements.
#[derive(Debug, Clone)]
pub struct Color {
    pub theme: crate::config::ConfigPath,
    pub elements: ColorScheme,
}

} // verus!
