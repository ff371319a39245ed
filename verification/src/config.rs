//! Configuration.
//!
//! - `paths` gives the directory that holds the fragments and the file that
//!   holds the changelog.
//! - `start` marks the place in the changelog after which entries are written.
//!   Where the changelog does not hold it, entries are written at its beginning.
//! - `levels` gives the heading levels of entry titles and of sections.
//! - `indents` gives the characters used for headings and for bullets.
//! - `formats` gives the templates used for rendering titles and fragments.
//! - `wrap` gives the line length to use when wrapping fragments.
//! - `order` says which types to include, and in what order.
//! - `types` maps types to their titles. A type without a title gets no
//!   section. Whoever resolves a configuration can extend the default
//!   mapping by what was given: see [`Config::types_with_defaults`].

use vstd::prelude::*;

use crate::table::{entries_map, keys_differ, lemma_entry, Table};

verus! {

/// Marks the location in the changelog to start writing entries after.
pub type Start = String;

/// The default `start` value.
pub const DEFAULT_START: &'static str = "<!-- changelogging: start -->";

/// Specifies fragment directories and changelog files.
#[derive(Debug, Clone, PartialEq, Eq)]
pub struct Paths {
    /// The directory to fetch fragments from.
    pub directory: String,
    /// The file to write entries to.
    pub output: String,
}

/// The default `paths.directory` value.
pub const DEFAULT_DIRECTORY: &'static str = "changes";

/// The default `paths.output` value.
pub const DEFAULT_OUTPUT: &'static str = "CHANGELOG.md";

impl Default for Paths {
    fn default() -> (paths: Self)
        ensures
            paths.directory@ == DEFAULT_DIRECTORY@,
            paths.output@ == DEFAULT_OUTPUT@,
    {
        let directory = DEFAULT_DIRECTORY.to_owned();
        let output = DEFAULT_OUTPUT.to_owned();

        Self { directory, output }
    }
}

/// A number that is not zero.
#[derive(Debug, Clone, Copy, PartialEq, Eq)]
pub struct Positive {
    value: usize,
}

impl View for Positive {
    type V = usize;

    closed spec fn view(&self) -> usize {
        self.value
    }
}

impl Positive {
    #[verifier::type_invariant]
    spec fn well_formed(&self) -> bool {
        self.value > 0
    }

    /// Constructs [`Self`], unless `value` is zero.
    pub fn new(value: usize) -> (result: Option<Self>)
        ensures
            match result {
                Some(positive) => value > 0 && positive@ == value,
                None => value == 0,
            },
    {
        if value > 0 {
            Some(Self { value })
        } else {
            None
        }
    }

    /// The number.
    pub fn get(&self) -> (value: usize)
        ensures
            value == self@,
            value > 0,
    {
        proof {
            use_type_invariant(self);
        }
        self.value
    }
}

/// Represents heading levels.
pub type Level = Positive;

/// Defines which heading levels to use.
#[derive(Debug, Clone, PartialEq, Eq)]
pub struct Levels {
    /// The heading level of the entry title.
    pub entry: Level,
    /// The heading level of individual sections.
    pub section: Level,
}

/// The default `levels.entry` value.
pub const DEFAULT_ENTRY: usize = 2;

/// The default `levels.section` value.
pub const DEFAULT_SECTION: usize = 3;

impl Default for Levels {
    fn default() -> (levels: Self)
        ensures
            levels.entry@ == DEFAULT_ENTRY,
            levels.section@ == DEFAULT_SECTION,
    {
        let entry = Level::new(DEFAULT_ENTRY).unwrap();
        let section = Level::new(DEFAULT_SECTION).unwrap();

        Self { entry, section }
    }
}

/// Specifies characters to use for headings and indentation.
#[derive(Debug, Clone, PartialEq, Eq)]
pub struct Indents {
    /// The character to use for headings.
    pub heading: char,
    /// The character to use for indentation.
    pub bullet: char,
}

/// The default `indents.heading` value.
pub const DEFAULT_HEADING: char = '#';

/// The default `indents.bullet` value.
pub const DEFAULT_BULLET: char = '-';

impl Default for Indents {
    fn default() -> (indents: Self)
        ensures
            indents.heading == DEFAULT_HEADING,
            indents.bullet == DEFAULT_BULLET,
    {
        let heading = DEFAULT_HEADING;
        let bullet = DEFAULT_BULLET;

        Self { heading, bullet }
    }
}

/// Defines formats to use for rendering titles and fragments.
#[derive(Debug, Clone, PartialEq, Eq)]
pub struct Formats {
    /// The format to use for rendering titles.
    pub title: String,
    /// The format to use for rendering fragments.
    pub fragment: String,
}

/// The default `formats.title` value.
pub const DEFAULT_TITLE: &'static str = "{{version}} ({{date}})";

/// The default `formats.fragment` value.
pub const DEFAULT_FRAGMENT: &'static str = "{{content}} (#{{id}})";

impl Default for Formats {
    fn default() -> (formats: Self)
        ensures
            formats.title@ == DEFAULT_TITLE@,
            formats.fragment@ == DEFAULT_FRAGMENT@,
    {
        let title = DEFAULT_TITLE.to_owned();
        let fragment = DEFAULT_FRAGMENT.to_owned();

        Self { title, fragment }
    }
}

/// Specifies the line length to use when wrapping entries.
pub type Wrap = Positive;

/// The default `wrap` value.
pub const DEFAULT_WRAP: usize = 100;

/// Defines which types to include, and in what order to do so.
pub type Order = Vec<String>;

/// The types of an order, as texts.
pub open spec fn order_view(order: Seq<String>) -> Seq<Seq<char>> {
    order.map_values(|name: String| name@)
}

/// The default `order` value, as texts.
pub open spec fn default_order_view() -> Seq<Seq<char>> {
    seq![
        "security"@,
        "feature"@,
        "change"@,
        "fix"@,
        "deprecation"@,
        "removal"@,
        "internal"@,
    ]
}

/// Returns the default `order` value.
pub fn default_order() -> (order: Vec<&'static str>)
    ensures
        order@.map_values(|name: &'static str| name@) == default_order_view(),
{
    let order = vec![
        "security",
        "feature",
        "change",
        "fix",
        "deprecation",
        "removal",
        "internal",
    ];
    assert(order@.map_values(|name: &'static str| name@) =~= default_order_view());
    order
}

/// Makes an order of the given names.
pub fn into_order(names: Vec<&str>) -> (order: Order)
    ensures
        order_view(order@) == names@.map_values(|name: &str| name@),
{
    let mut order: Order = Vec::new();
    let mut index: usize = 0;
    while index < names.len()
        invariant
            index <= names.len(),
            order@.len() == index,
            forall|earlier: int| 0 <= earlier < index ==> order@[earlier]@ == names@[earlier]@,
        decreases names.len() - index,
    {
        order.push(names[index].to_owned());
        index += 1;
    }
    assert(order_view(order@) =~= names@.map_values(|name: &str| name@));
    order
}

/// Specifies the mapping of types to their titles.
pub type Types = Table<String>;

/// The titles of the types, as texts.
pub open spec fn types_view(types: Map<Seq<char>, String>) -> Map<Seq<char>, Seq<char>> {
    types.map_values(|title: String| title@)
}

/// The default `types` value, as texts.
pub open spec fn default_types_view() -> Map<Seq<char>, Seq<char>> {
    Map::<Seq<char>, Seq<char>>::empty().insert("security"@, "Security"@).insert(
        "feature"@,
        "Features"@,
    ).insert("change"@, "Changes"@).insert("fix"@, "Fixes"@).insert(
        "deprecation"@,
        "Deprecations"@,
    ).insert("removal"@, "Removals"@).insert("internal"@, "Internal"@)
}

/// Returns the default `types` value.
pub fn default_types() -> (types: Types)
    ensures
        types_view(types@) == default_types_view(),
{
    let mut types = Types::new();
    types.insert("security".to_owned(), "Security".to_owned());
    types.insert("feature".to_owned(), "Features".to_owned());
    types.insert("change".to_owned(), "Changes".to_owned());
    types.insert("fix".to_owned(), "Fixes".to_owned());
    types.insert("deprecation".to_owned(), "Deprecations".to_owned());
    types.insert("removal".to_owned(), "Removals".to_owned());
    types.insert("internal".to_owned(), "Internal".to_owned());
    assert(types_view(types@) =~= default_types_view());
    types
}

/// Puts each type of `extension` into `types`, with its title, in place of
/// the title that the type had there, if any.
pub fn extend_types(types: &mut Types, extension: &Types)
    ensures
        types_view(final(types)@) == types_view(old(types)@).union_prefer_right(
            types_view(extension@),
        ),
{
    let entries = extension.entries();
    let mut index: usize = 0;
    assert(types_view(types@) =~= types_view(old(types)@).union_prefer_right(
        types_view(entries_map(entries@.take(0))),
    ));
    while index < entries.len()
        invariant
            index <= entries.len(),
            keys_differ(entries@),
            types_view(types@) == types_view(old(types)@).union_prefer_right(
                types_view(entries_map(entries@.take(index as int))),
            ),
        decreases entries.len() - index,
    {
        let key = entries[index].0.clone();
        let title = entries[index].1.clone();
        proof {
            let earlier = entries@.take(index as int);
            let longer = entries@.take(index + 1);
            assert(longer =~= earlier.push(entries@[index as int]));
            lemma_take_map(entries@, index as int);
            let added = types_view(entries_map(earlier));
            assert(types_view(entries_map(longer)) =~= added.insert(key@, title@));
            assert(types_view(types@.insert(key@, title)) =~= types_view(types@).insert(
                key@,
                title@,
            ));
            assert(types_view(old(types)@).union_prefer_right(added).insert(key@, title@)
                =~= types_view(old(types)@).union_prefer_right(added.insert(key@, title@)));
        }
        types.insert(key, title);
        index += 1;
    }
    assert(entries@.take(entries@.len() as int) =~= entries@);
}

/// The table of one more entry holds that entry besides the others.
proof fn lemma_take_map(entries: Seq<(String, String)>, index: int)
    requires
        keys_differ(entries),
        0 <= index < entries.len(),
    ensures
        entries_map(entries.take(index + 1)) == entries_map(entries.take(index)).insert(
            entries[index].0@,
            entries[index].1,
        ),
{
    let earlier = entries.take(index);
    let longer = entries.take(index + 1);
    assert(keys_differ(longer));
    assert(keys_differ(earlier));
    assert forall|key: Seq<char>|
        entries_map(longer).contains_key(key) == #[trigger] entries_map(earlier).insert(
            entries[index].0@,
            entries[index].1,
        ).contains_key(key) && (entries_map(longer).contains_key(key) ==> entries_map(longer)[key]
            == entries_map(earlier).insert(entries[index].0@, entries[index].1)[key]) by {
        if entries_map(longer).contains_key(key) {
            let at = choose|at: int| crate::table::is_at(longer, key, at);
            lemma_entry(longer, at);
            if at < index {
                assert(crate::table::is_at(earlier, key, at));
                lemma_entry(earlier, at);
            }
        }
        if entries_map(earlier).contains_key(key) {
            let at = choose|at: int| crate::table::is_at(earlier, key, at);
            assert(crate::table::is_at(longer, key, at));
        }
        if key == entries[index].0@ {
            assert(crate::table::is_at(longer, key, index));
        }
    }
    assert(entries_map(longer) =~= entries_map(earlier).insert(
        entries[index].0@,
        entries[index].1,
    ));
}

/// Represents configurations.
#[derive(Debug)]
pub struct Config {
    /// The `paths` section.
    pub paths: Paths,
    /// The `start` field.
    pub start: Start,
    /// The `levels` section.
    pub levels: Levels,
    /// The `indents` section.
    pub indents: Indents,
    /// The `formats` section.
    pub formats: Formats,
    /// The `wrap` field.
    pub wrap: Wrap,
    /// The `order` field.
    pub order: Order,
    /// The `types` section.
    pub types: Types,
}

/// What the sections of a configuration hold.
pub ghost struct PathsView {
    /// The directory to fetch fragments from.
    pub directory: Seq<char>,
    /// The file to write entries to.
    pub output: Seq<char>,
}

/// What the `levels` section holds.
pub ghost struct LevelsView {
    /// The heading level of the entry title.
    pub entry: usize,
    /// The heading level of individual sections.
    pub section: usize,
}

/// What the `formats` section holds.
pub ghost struct FormatsView {
    /// The format to use for rendering titles.
    pub title: Seq<char>,
    /// The format to use for rendering fragments.
    pub fragment: Seq<char>,
}

/// What a configuration holds.
pub ghost struct ConfigView {
    /// The `paths` section.
    pub paths: PathsView,
    /// The `start` field.
    pub start: Seq<char>,
    /// The `levels` section.
    pub levels: LevelsView,
    /// The `indents` section.
    pub indents: Indents,
    /// The `formats` section.
    pub formats: FormatsView,
    /// The `wrap` field.
    pub wrap: usize,
    /// The `order` field.
    pub order: Seq<Seq<char>>,
    /// The `types` section.
    pub types: Map<Seq<char>, Seq<char>>,
}

impl ConfigView {
    /// The titles of the types: those of the `types` section, and the
    /// default title of each type that the section does not hold.
    pub open spec fn titles(self) -> Map<Seq<char>, Seq<char>> {
        default_types_view().union_prefer_right(self.types)
    }
}

impl View for Config {
    type V = ConfigView;

    open spec fn view(&self) -> ConfigView {
        ConfigView {
            paths: PathsView { directory: self.paths.directory@, output: self.paths.output@ },
            start: self.start@,
            levels: LevelsView { entry: self.levels.entry@, section: self.levels.section@ },
            indents: self.indents,
            formats: FormatsView { title: self.formats.title@, fragment: self.formats.fragment@ },
            wrap: self.wrap@,
            order: order_view(self.order@),
            types: types_view(self.types@),
        }
    }
}

/// What the default configuration holds.
pub open spec fn default_config_view() -> ConfigView {
    ConfigView {
        paths: PathsView { directory: DEFAULT_DIRECTORY@, output: DEFAULT_OUTPUT@ },
        start: DEFAULT_START@,
        levels: LevelsView { entry: DEFAULT_ENTRY, section: DEFAULT_SECTION },
        indents: Indents { heading: DEFAULT_HEADING, bullet: DEFAULT_BULLET },
        formats: FormatsView { title: DEFAULT_TITLE@, fragment: DEFAULT_FRAGMENT@ },
        wrap: DEFAULT_WRAP,
        order: default_order_view(),
        types: default_types_view(),
    }
}

impl Default for Config {
    fn default() -> (config: Self)
        ensures
            config@ == default_config_view(),
    {
        let paths = Paths::default();

        let start = DEFAULT_START.to_owned();

        let levels = Levels::default();

        let indents = Indents::default();

        let formats = Formats::default();

        let wrap = Wrap::new(DEFAULT_WRAP).unwrap();

        let order = into_order(default_order());

        let types = default_types();

        Self { paths, start, levels, indents, formats, wrap, order, types }
    }
}

impl Config {
    /// Returns [`Paths`] reference.
    pub fn paths(&self) -> (paths: &Paths)
        ensures
            paths == self.paths,
    {
        &self.paths
    }

    /// Returns [`Levels`] reference.
    pub fn levels(&self) -> (levels: &Levels)
        ensures
            levels == self.levels,
    {
        &self.levels
    }

    /// Returns [`Indents`] reference.
    pub fn indents(&self) -> (indents: &Indents)
        ensures
            indents == self.indents,
    {
        &self.indents
    }

    /// Returns [`Formats`] reference.
    pub fn formats(&self) -> (formats: &Formats)
        ensures
            formats == self.formats,
    {
        &self.formats
    }

    /// Returns [`Order`] reference.
    pub fn order(&self) -> (order: &Order)
        ensures
            order == self.order,
    {
        &self.order
    }

    /// Returns [`Types`] reference.
    pub fn types(&self) -> (types: &Types)
        ensures
            types == self.types,
    {
        &self.types
    }

    /// Returns `types` with defaults included.
    pub fn types_with_defaults(&self) -> (types: Types)
        ensures
            types_view(types@) == self@.titles(),
    {
        let mut types_with_defaults = default_types();

        extend_types(&mut types_with_defaults, &self.types);

        types_with_defaults
    }
}

} // verus!
