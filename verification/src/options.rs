//! Optional configuration.
//!
//! This module provides the [`Options`] structure, which is essentially the same as [`Config`],
//! expect everything is wrapped in [`Option`], so `T` becomes `Option<T>`.
//!
//! The [`Options::into_config`] method is used to convert [`Options`] into [`Config`],
//! unwrapping values or using defaults provided by [`Config::default`].

use vstd::prelude::*;

use crate::config::{
    default_config_view, order_view, types_view, Config, ConfigView, FormatsView, Level, LevelsView,
    Order, PathsView, Start, Types, Wrap,
};

verus! {

/// Optional [`config::Paths`].
///
/// [`config::Paths`]: crate::config::Paths
#[derive(Debug, Clone, PartialEq, Eq, Default)]
pub struct Paths {
    /// Optional [`config::Paths::directory`].
    ///
    /// [`config::Paths::directory`]: crate::config::Paths::directory
    pub directory: Option<String>,
    /// Optional [`config::Paths::output`].
    ///
    /// [`config::Paths::output`]: crate::config::Paths::output
    pub output: Option<String>,
}

/// Optional [`config::Levels`].
///
/// [`config::Levels`]: crate::config::Levels
#[derive(Debug, Clone, PartialEq, Eq, Default)]
pub struct Levels {
    /// Optional [`config::Levels::entry`].
    ///
    /// [`config::Levels::entry`]: crate::config::Levels::entry
    pub entry: Option<Level>,
    /// Optional [`config::Levels::section`].
    ///
    /// [`config::Levels::section`]: crate::config::Levels::section
    pub section: Option<Level>,
}

/// Optional [`config::Indents`].
///
/// [`config::Indents`]: crate::config::Indents
#[derive(Debug, Clone, PartialEq, Eq, Default)]
pub struct Indents {
    /// Optional [`config::Indents::heading`].
    ///
    /// [`config::Indents::heading`]: crate::config::Indents::heading
    pub heading: Option<char>,
    /// Optional [`config::Indents::bullet`].
    ///
    /// [`config::Indents::bullet`]: crate::config::Indents::bullet
    pub bullet: Option<char>,
}

/// Optional [`config::Formats`].
///
/// [`config::Formats`]: crate::config::Formats
#[derive(Debug, Clone, PartialEq, Eq, Default)]
pub struct Formats {
    /// Optional [`config::Formats::title`].
    ///
    /// [`config::Formats::title`]: crate::config::Formats::title
    pub title: Option<String>,
    /// Optional [`config::Formats::fragment`].
    ///
    /// [`config::Formats::fragment`]: crate::config::Formats::fragment
    pub fragment: Option<String>,
}

/// Optional [`Config`].
#[derive(Debug)]
pub struct Options {
    /// Optional [`Config::paths`].
    pub paths: Option<Paths>,
    /// Optional [`Config::start`].
    pub start: Option<Start>,
    /// Optional [`Config::levels`].
    pub levels: Option<Levels>,
    /// Optional [`Config::indents`].
    pub indents: Option<Indents>,
    /// Optional [`Config::formats`].
    pub formats: Option<Formats>,
    /// Optional [`Config::wrap`].
    pub wrap: Option<Wrap>,
    /// Optional [`Config::order`].
    pub order: Option<Order>,
    /// Optional [`Config::types`].
    pub types: Option<Types>,
}

/// The text that is given, or else the default.
pub open spec fn text_or(text: Option<String>, default: Seq<char>) -> Seq<char> {
    match text {
        Some(text) => text@,
        None => default,
    }
}

/// The level that is given, or else the default.
pub open spec fn level_or(level: Option<Level>, default: usize) -> usize {
    match level {
        Some(level) => level@,
        None => default,
    }
}

/// The character that is given, or else the default.
pub open spec fn character_or(character: Option<char>, default: char) -> char {
    match character {
        Some(character) => character,
        None => default,
    }
}

impl Default for Options {
    fn default() -> (options: Self)
        ensures
            options.resolved() == default_config_view(),
    {
        Self {
            paths: None,
            start: None,
            levels: None,
            indents: None,
            formats: None,
            wrap: None,
            order: None,
            types: None,
        }
    }
}

impl Options {
    /// The configuration that the options make: what is given, and the
    /// default in the place of what is not.
    pub open spec fn resolved(&self) -> ConfigView {
        let default = default_config_view();
        ConfigView {
            paths: match self.paths {
                Some(paths) => PathsView {
                    directory: text_or(paths.directory, default.paths.directory),
                    output: text_or(paths.output, default.paths.output),
                },
                None => default.paths,
            },
            start: text_or(self.start, default.start),
            levels: match self.levels {
                Some(levels) => LevelsView {
                    entry: level_or(levels.entry, default.levels.entry),
                    section: level_or(levels.section, default.levels.section),
                },
                None => default.levels,
            },
            indents: match self.indents {
                Some(indents) => crate::config::Indents {
                    heading: character_or(indents.heading, default.indents.heading),
                    bullet: character_or(indents.bullet, default.indents.bullet),
                },
                None => default.indents,
            },
            formats: match self.formats {
                Some(formats) => FormatsView {
                    title: text_or(formats.title, default.formats.title),
                    fragment: text_or(formats.fragment, default.formats.fragment),
                },
                None => default.formats,
            },
            wrap: level_or(self.wrap, default.wrap),
            order: match self.order {
                Some(order) => order_view(order@),
                None => default.order,
            },
            types: match self.types {
                Some(types) => types_view(types@),
                None => default.types,
            },
        }
    }

    /// Converts [`Options`] into [`Config`].
    pub fn into_config(self) -> (config: Config)
        ensures
            config@ == self.resolved(),
    {
        let mut config = Config::default();
        if let Some(paths) = self.paths {
            if let Some(directory) = paths.directory {
                config.paths.directory = directory;
            }
            if let Some(output) = paths.output {
                config.paths.output = output;
            }
        }
        if let Some(start) = self.start {
            config.start = start;
        }
        if let Some(levels) = self.levels {
            if let Some(entry) = levels.entry {
                config.levels.entry = entry;
            }
            if let Some(section) = levels.section {
                config.levels.section = section;
            }
        }
        if let Some(indents) = self.indents {
            if let Some(heading) = indents.heading {
                config.indents.heading = heading;
            }
            if let Some(bullet) = indents.bullet {
                config.indents.bullet = bullet;
            }
        }
        if let Some(formats) = self.formats {
            if let Some(title) = formats.title {
                config.formats.title = title;
            }
            if let Some(fragment) = formats.fragment {
                config.formats.fragment = fragment;
            }
        }
        if let Some(wrap) = self.wrap {
            config.wrap = wrap;
        }
        if let Some(order) = self.order {
            config.order = order;
        }
        if let Some(types) = self.types {
            config.types = types;
        }
        config
    }
}

} // verus!
