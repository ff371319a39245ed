//! Building changelogs from fragments.

use std::path::PathBuf;

use handlebars::{Handlebars, RenderError, TemplateError};
use vstd::prelude::*;
use vstd::relations::sorted_by;
use vstd::string::StringExecFns;

use crate::changelog::{splice, spliced, DOUBLE_NEW_LINE};
use crate::config::{Config, ConfigView, Level};
use crate::context::{Context, ContextView};
use crate::date::{date_text, Date, DateView};
use crate::engine::{
    disable_escaping, is_template, new_registry, no_templates, numbers_view, register_template_string,
    registry_mode, registry_templates, render, rendered, set_strict_mode, texts_view, Mode,
};
use crate::inclusion::{can_include, cannot_recurse, is_bounded, may_include, read};
use crate::fragment::{
    collect_paths, fragment_paths, Entry, Found, Fragment, FragmentView, Id, IdView,
};
use crate::sections::{collected, lemma_collected_of_permutation, Sections};
use crate::sorting::{fragment_order, fragment_views};
use crate::text::to_chars;
use crate::workspace::Workspace;

verus! {

/// Represents errors that can occur during builder initialization.
#[derive(Debug)]
pub struct InitError(pub TemplateError);

/// Represents errors that can occur when the templates could include each
/// other without end: they are not rendered then.
#[derive(Debug)]
pub struct RecursionError;

/// Represents errors that can occur when rendering templates.
#[derive(Debug)]
pub enum RenderingError {
    /// The engine could not render the template.
    Engine(RenderError),
    /// The templates could include each other without end.
    Recursion(RecursionError),
}

/// Represents errors that can occur when building titles.
#[derive(Debug)]
pub struct BuildTitleError(pub RenderingError);

/// Represents errors that can occur when building fragments.
#[derive(Debug)]
pub struct BuildFragmentError(pub RenderingError);

/// Represents errors that can occur when reading from files.
#[derive(Debug)]
pub struct ReadFileError {
    /// The underlying I/O error.
    pub source: std::io::Error,
    /// The path provided.
    pub path: PathBuf,
}

impl ReadFileError {
    /// Constructs [`Self`].
    pub fn new(source: std::io::Error, path: PathBuf) -> (error: Self)
        ensures
            error.source == source,
            error.path == path,
    {
        Self { source, path }
    }
}

/// Represents errors that can occur when writing to files.
#[derive(Debug)]
pub struct WriteFileError {
    /// The underlying I/O error.
    pub source: std::io::Error,
    /// The path provided.
    pub path: PathBuf,
}

impl WriteFileError {
    /// Constructs [`Self`].
    pub fn new(source: std::io::Error, path: PathBuf) -> (error: Self)
        ensures
            error.source == source,
            error.path == path,
    {
        Self { source, path }
    }
}

/// Represents errors that can occur when opening files.
#[derive(Debug)]
pub struct OpenFileError {
    /// The underlying I/O error.
    pub source: std::io::Error,
    /// The path provided.
    pub path: PathBuf,
}

impl OpenFileError {
    /// Constructs [`Self`].
    pub fn new(source: std::io::Error, path: PathBuf) -> (error: Self)
        ensures
            error.source == source,
            error.path == path,
    {
        Self { source, path }
    }
}

/// Represents errors that can occur when reading directories.
#[derive(Debug)]
pub struct ReadDirectoryError(pub std::io::Error);

/// Represents errors that can occur during iterating over directories.
#[derive(Debug)]
pub struct IterDirectoryError(pub std::io::Error);

/// Represents sources of errors that can occur during fragment collection.
#[derive(Debug)]
pub enum CollectErrorSource {
    /// Read directory errors.
    ReadDirectory(ReadDirectoryError),
    /// Iterate directory errors.
    IterDirectory(IterDirectoryError),
}

/// Represents errors that can occur during fragment collection.
#[derive(Debug)]
pub struct CollectError {
    /// The source of this error.
    pub source: CollectErrorSource,
    /// The path provided.
    pub path: PathBuf,
}

impl CollectError {
    /// Constructs [`Self`].
    pub fn new(source: CollectErrorSource, path: PathBuf) -> (error: Self)
        ensures
            error.source == source,
            error.path == path,
    {
        Self { source, path }
    }

    /// Constructs [`Self`] from [`ReadDirectoryError`].
    pub fn read_directory(source: ReadDirectoryError, path: PathBuf) -> (error: Self)
        ensures
            error.source == CollectErrorSource::ReadDirectory(source),
            error.path == path,
    {
        Self::new(CollectErrorSource::ReadDirectory(source), path)
    }

    /// Constructs [`Self`] from [`IterDirectoryError`].
    pub fn iter_directory(source: IterDirectoryError, path: PathBuf) -> (error: Self)
        ensures
            error.source == CollectErrorSource::IterDirectory(source),
            error.path == path,
    {
        Self::new(CollectErrorSource::IterDirectory(source), path)
    }

    /// Constructs [`ReadDirectoryError`] and constructs [`Self`] from it.
    pub fn new_read_directory(source: std::io::Error, path: PathBuf) -> (error: Self)
        ensures
            error.source == CollectErrorSource::ReadDirectory(ReadDirectoryError(source)),
            error.path == path,
    {
        Self::read_directory(ReadDirectoryError(source), path)
    }

    /// Constructs [`IterDirectoryError`] and constructs [`Self`] from it.
    pub fn new_iter_directory(source: std::io::Error, path: PathBuf) -> (error: Self)
        ensures
            error.source == CollectErrorSource::IterDirectory(IterDirectoryError(source)),
            error.path == path,
    {
        Self::iter_directory(IterDirectoryError(source), path)
    }
}

/// Represents sources of errors that can occur when building.
#[derive(Debug)]
pub enum BuildErrorSource {
    /// Build title errors.
    BuildTitle(BuildTitleError),
    /// Build fragment errors.
    BuildFragment(BuildFragmentError),
    /// Collect errors.
    Collect(CollectError),
}

/// Represents errors that can occur when building.
#[derive(Debug)]
pub struct BuildError {
    /// The source of this error.
    pub source: BuildErrorSource,
}

/// Why no entry was built.
pub ghost enum BuildFailure {
    /// The title could not be rendered.
    Title,
    /// A fragment could not be rendered.
    Fragment,
    /// The fragments could not be collected.
    Collect,
}

impl BuildError {
    /// Why building failed.
    pub open spec fn failure(&self) -> BuildFailure {
        match self.source {
            BuildErrorSource::BuildTitle(_) => BuildFailure::Title,
            BuildErrorSource::BuildFragment(_) => BuildFailure::Fragment,
            BuildErrorSource::Collect(_) => BuildFailure::Collect,
        }
    }

    /// Constructs [`Self`].
    pub fn new(source: BuildErrorSource) -> (error: Self)
        ensures
            error.source == source,
    {
        Self { source }
    }

    /// Constructs [`Self`] from [`BuildTitleError`].
    pub fn build_title(source: BuildTitleError) -> (error: Self)
        ensures
            error.source == BuildErrorSource::BuildTitle(source),
    {
        Self::new(BuildErrorSource::BuildTitle(source))
    }

    /// Constructs [`Self`] from [`BuildFragmentError`].
    pub fn build_fragment(source: BuildFragmentError) -> (error: Self)
        ensures
            error.source == BuildErrorSource::BuildFragment(source),
    {
        Self::new(BuildErrorSource::BuildFragment(source))
    }

    /// Constructs [`Self`] from [`CollectError`].
    pub fn collect(source: CollectError) -> (error: Self)
        ensures
            error.source == BuildErrorSource::Collect(source),
    {
        Self::new(BuildErrorSource::Collect(source))
    }

    /// Constructs [`BuildTitleError`] and constructs [`Self`] from it.
    pub fn new_build_title(source: RenderingError) -> (error: Self)
        ensures
            error.source == BuildErrorSource::BuildTitle(BuildTitleError(source)),
    {
        Self::build_title(BuildTitleError(source))
    }

    /// Constructs [`BuildFragmentError`] and constructs [`Self`] from it.
    pub fn new_build_fragment(source: RenderingError) -> (error: Self)
        ensures
            error.source == BuildErrorSource::BuildFragment(BuildFragmentError(source)),
    {
        Self::build_fragment(BuildFragmentError(source))
    }
}

/// Represents sources of errors that can occur when writing entries.
#[derive(Debug)]
pub enum WriteErrorSource {
    /// Open file errors.
    OpenFile(OpenFileError),
    /// Read file errors.
    ReadFile(ReadFileError),
    /// Build errors.
    Build(BuildError),
    /// Write file errors.
    WriteFile(WriteFileError),
}

/// Represents errors that can occur when writing entries.
#[derive(Debug)]
pub struct WriteError {
    /// The source of this error.
    pub source: WriteErrorSource,
}

impl WriteError {
    /// Constructs [`Self`].
    pub fn new(source: WriteErrorSource) -> (error: Self)
        ensures
            error.source == source,
    {
        Self { source }
    }

    /// Constructs [`Self`] from [`OpenFileError`].
    pub fn open_file(source: OpenFileError) -> (error: Self)
        ensures
            error.source == WriteErrorSource::OpenFile(source),
    {
        Self::new(WriteErrorSource::OpenFile(source))
    }

    /// Constructs [`Self`] from [`ReadFileError`].
    pub fn read_file(source: ReadFileError) -> (error: Self)
        ensures
            error.source == WriteErrorSource::ReadFile(source),
    {
        Self::new(WriteErrorSource::ReadFile(source))
    }

    /// Constructs [`Self`] from [`BuildError`].
    pub fn build(source: BuildError) -> (error: Self)
        ensures
            error.source == WriteErrorSource::Build(source),
    {
        Self::new(WriteErrorSource::Build(source))
    }

    /// Constructs [`Self`] from [`WriteFileError`].
    pub fn write_file(source: WriteFileError) -> (error: Self)
        ensures
            error.source == WriteErrorSource::WriteFile(source),
    {
        Self::new(WriteErrorSource::WriteFile(source))
    }

    /// Constructs [`OpenFileError`] and constructs [`Self`] from it.
    pub fn new_open_file(source: std::io::Error, path: PathBuf) -> (error: Self)
        ensures
            error.source == WriteErrorSource::OpenFile(OpenFileError { source, path }),
    {
        Self::open_file(OpenFileError::new(source, path))
    }

    /// Constructs [`ReadFileError`] and constructs [`Self`] from it.
    pub fn new_read_file(source: std::io::Error, path: PathBuf) -> (error: Self)
        ensures
            error.source == WriteErrorSource::ReadFile(ReadFileError { source, path }),
    {
        Self::read_file(ReadFileError::new(source, path))
    }

    /// Constructs [`WriteFileError`] and constructs [`Self`] from it.
    pub fn new_write_file(source: std::io::Error, path: PathBuf) -> (error: Self)
        ensures
            error.source == WriteErrorSource::WriteFile(WriteFileError { source, path }),
    {
        Self::write_file(WriteFileError::new(source, path))
    }
}

/// The name of the template of titles.
pub const TITLE: &'static str = "title";

/// The name of the template of fragments.
pub const FRAGMENT: &'static str = "fragment";

/// The key under which templates see the name of the project.
pub const NAME: &'static str = "name";

/// The key under which templates see the version of the project.
pub const VERSION: &'static str = "version";

/// The key under which templates see the URL of the project.
pub const URL: &'static str = "url";

/// The key under which templates of titles see the date.
pub const DATE: &'static str = "date";

/// The key under which templates of fragments see the ID.
pub const ID: &'static str = "id";

/// The key under which templates of fragments see the type.
pub const KIND: &'static str = "type_name";

/// The key under which templates of fragments see the content.
pub const CONTENT: &'static str = "content";

/// The character that follows a heading or a bullet.
pub const SPACE: char = ' ';

/// What an entry without sections says instead.
pub const NO_SIGNIFICANT_CHANGES: &'static str = "No significant changes.";

/// The entry that a title and sections make: the title, an empty line and
/// the sections, or the words that say that there are none.
pub open spec fn composed_entry(title: Seq<char>, sections: Seq<char>) -> Seq<char> {
    title + DOUBLE_NEW_LINE@ + if sections.len() == 0 {
        NO_SIGNIFICANT_CHANGES@
    } else {
        sections
    }
}

/// The section that a title and fragments make: the title, an empty line
/// and the fragments.
pub open spec fn composed_section(title: Seq<char>, fragments: Seq<char>) -> Seq<char> {
    title + DOUBLE_NEW_LINE@ + fragments
}

/// Composes an entry of its title and its sections, both as they were built.
pub fn compose_entry(title: &str, sections: &str) -> (entry: String)
    ensures
        entry@ == composed_entry(title@, sections@),
{
    let mut string = title.to_owned();

    string.append(DOUBLE_NEW_LINE);

    let contents = if sections.is_empty() {
        NO_SIGNIFICANT_CHANGES
    } else {
        sections
    };

    string.append(contents);

    string
}

/// Composes a section of its title and its fragments, both as they were built.
pub fn compose_section(title: &str, fragments: &str) -> (section: String)
    ensures
        section@ == composed_section(title@, fragments@),
{
    let mut string = title.to_owned();

    string.append(DOUBLE_NEW_LINE);
    string.append(fragments);

    string
}

/// The mode in which builders render: strict and without escaping.
pub open spec fn strict_raw() -> Mode {
    Mode { strict: true, escaping: false }
}

/// The two templates by their names: that of titles and that of fragments.
pub open spec fn templates_with(title: Seq<char>, fragment: Seq<char>) -> Map<Seq<char>, Seq<char>> {
    no_templates().insert(TITLE@, title).insert(FRAGMENT@, fragment)
}

/// The templates of a builder: that of titles and that of fragments.
pub open spec fn templates_of(config: ConfigView) -> Map<Seq<char>, Seq<char>> {
    templates_with(config.formats.title, config.formats.fragment)
}

/// Whether the two templates can be rendered without the risk that they
/// include each other without end.
pub fn can_render(title: &str, fragment: &str) -> (result: bool)
    ensures
        result == cannot_recurse(templates_with(title@, fragment@)),
{
    let title_chars = to_chars(title);
    let fragment_chars = to_chars(fragment);
    let title_name = to_chars(TITLE);
    let fragment_name = to_chars(FRAGMENT);
    let title_reading = read(&title_chars);
    let fragment_reading = read(&fragment_chars);
    let title_to_title = can_include(&title_chars, &title_name);
    let title_to_fragment = can_include(&title_chars, &fragment_name);
    let fragment_to_title = can_include(&fragment_chars, &title_name);
    let fragment_to_fragment = can_include(&fragment_chars, &fragment_name);
    let title_bounded = !(title_reading.defines && title_reading.includes_in_block) && !(
    title_to_title && title_reading.closes);
    let fragment_bounded = !(fragment_reading.defines && fragment_reading.includes_in_block) && !(
    fragment_to_fragment && fragment_reading.closes);
    let result = title_bounded && fragment_bounded && !(title_to_fragment && fragment_to_title);
    proof {
        let templates = templates_with(title@, fragment@);
        reveal_strlit("title");
        reveal_strlit("fragment");
        assert(TITLE@.len() != FRAGMENT@.len());
        assert(templates[TITLE@] == title@);
        assert(templates[FRAGMENT@] == fragment@);
        assert(templates.contains_key(TITLE@));
        assert(templates.contains_key(FRAGMENT@));
        assert(is_bounded(templates, TITLE@) == title_bounded);
        assert(is_bounded(templates, FRAGMENT@) == fragment_bounded);
        assert(may_include(templates[TITLE@], FRAGMENT@) == title_to_fragment);
        assert(may_include(templates[FRAGMENT@], TITLE@) == fragment_to_title);
        if result {
            assert forall|name: Seq<char>| #[trigger] templates.contains_key(name) implies is_bounded(
                templates,
                name,
            ) by {
                assert(name == TITLE@ || name == FRAGMENT@);
            }
            assert forall|first: Seq<char>, second: Seq<char>, third: Seq<char>|
                #![trigger may_include(templates[first], second), may_include(templates[second], third)]
                templates.contains_key(first) && templates.contains_key(second)
                    && templates.contains_key(third) && first != second && second != third
                    && may_include(templates[first], second) implies !may_include(
                templates[second],
                third,
            ) by {
                assert(first == TITLE@ || first == FRAGMENT@);
                assert(second == TITLE@ || second == FRAGMENT@);
                assert(third == TITLE@ || third == FRAGMENT@);
            }
        }
    }
    result
}

/// The text fields that the template of titles sees.
pub open spec fn title_texts(context: ContextView, date: Seq<char>) -> Seq<(Seq<char>, Seq<char>)> {
    seq![(NAME@, context.name), (VERSION@, context.version), (URL@, context.url), (DATE@, date)]
}

/// The text fields that the template of fragments sees.
pub open spec fn fragment_texts(context: ContextView, fragment: FragmentView) -> Seq<
    (Seq<char>, Seq<char>),
> {
    seq![
        (NAME@, context.name),
        (VERSION@, context.version),
        (URL@, context.url),
        (KIND@, fragment.partial.kind),
        (CONTENT@, fragment.content),
    ]
}

/// The number fields that the template of fragments sees.
pub open spec fn fragment_numbers(id: u32) -> Seq<(Seq<char>, u32)> {
    seq![(ID@, id)]
}

/// A heading of the given level: the character, as often as the level says,
/// and a space.
pub open spec fn heading_text(character: char, level: usize) -> Seq<char> {
    Seq::new(level as nat, |index: int| character).push(SPACE)
}

/// An indent: the character and a space.
pub open spec fn indent_text(character: char) -> Seq<char> {
    seq![character, SPACE]
}

/// The parts joined, with the separator between each two of them.
pub open spec fn joined(parts: Seq<Seq<char>>, separator: Seq<char>) -> Seq<char>
    decreases parts.len(),
{
    if parts.len() == 0 {
        Seq::empty()
    } else if parts.len() == 1 {
        parts[0]
    } else {
        joined(parts.drop_last(), separator) + separator + parts.last()
    }
}

/// The texts of a list of strings.
pub open spec fn texts_of(strings: Seq<String>) -> Seq<Seq<char>> {
    strings.map_values(|string: String| string@)
}

/// Where words may be parted when text is wrapped.
#[derive(Debug, Clone, Copy, PartialEq, Eq)]
pub enum Separator {
    /// At ASCII spaces only.
    AsciiSpace,
    /// Wherever the Unicode line breaking algorithm allows.
    UnicodeBreakProperties,
}

/// Where a word may be split when text is wrapped.
#[derive(Debug, Clone, Copy, PartialEq, Eq)]
pub enum Splitter {
    /// Nowhere.
    NoHyphenation,
    /// At the hyphens that it holds.
    HyphenSplitter,
}

/// How text is wrapped.
#[derive(Debug, Clone, Copy, PartialEq, Eq)]
pub struct Wrapping {
    /// The number of columns of a line.
    pub width: usize,
    /// Whether a word that is longer than a line is broken.
    pub break_words: bool,
    /// Where words may be parted.
    pub separator: Separator,
    /// Where a word may be split.
    pub splitter: Splitter,
}

/// What wrapping `text` as `wrapping` says gives, where the first line
/// starts with `initial_indent` and each further line with
/// `subsequent_indent`.
pub uninterp spec fn filled(
    text: Seq<char>,
    wrapping: Wrapping,
    initial_indent: Seq<char>,
    subsequent_indent: Seq<char>,
) -> Seq<char>;

/// `textwrap::fill` wraps `text`. The options give it what `wrapping`
/// holds, each as the value of the same name, and the two indents.
#[verifier::external_body]
fn fill(text: &str, wrapping: Wrapping, initial_indent: &str, subsequent_indent: &str) -> (result:
    String)
    ensures
        result@ == filled(text@, wrapping, initial_indent@, subsequent_indent@),
{
    let separator = match wrapping.separator {
        Separator::AsciiSpace => textwrap::WordSeparator::AsciiSpace,
        Separator::UnicodeBreakProperties => textwrap::WordSeparator::UnicodeBreakProperties,
    };
    let splitter = match wrapping.splitter {
        Splitter::NoHyphenation => textwrap::WordSplitter::NoHyphenation,
        Splitter::HyphenSplitter => textwrap::WordSplitter::HyphenSplitter,
    };
    let options = textwrap::Options::new(wrapping.width).break_words(wrapping.break_words);
    let options = options.word_separator(separator).word_splitter(splitter);
    let options = options.initial_indent(initial_indent).subsequent_indent(subsequent_indent);
    textwrap::fill(text, options)
}

/// `itertools::Itertools::join` writes the parts one after the other, with
/// `separator` between each two of them.
#[verifier::external_body]
fn join(parts: &Vec<String>, separator: &str) -> (result: String)
    ensures
        result@ == joined(texts_of(parts@), separator@),
{
    itertools::Itertools::join(&mut parts.iter(), separator)
}

/// Constructs the heading of the given level.
pub fn heading(character: char, level: Level) -> (result: String)
    ensures
        result@ == heading_text(character, level@),
{
    let mut string = String::new();
    let mut count: usize = 0;
    while count < level.get()
        invariant
            count <= level@,
            string@ == Seq::new(count as nat, |index: int| character),
        decreases level@ - count,
    {
        string.push(character);
        count += 1;
        assert(string@ =~= Seq::new(count as nat, |index: int| character));
    }
    string.push(SPACE);
    string
}

/// Constructs the indent that starts with the given character.
pub fn indent(character: char) -> (result: String)
    ensures
        result@ == indent_text(character),
{
    let mut string = String::new();
    string.push(character);
    string.push(SPACE);
    assert(string@ =~= indent_text(character));
    string
}

/// What a builder holds.
pub ghost struct BuilderView {
    /// The context of the project.
    pub context: ContextView,
    /// The configuration to use.
    pub config: ConfigView,
    /// The date to use.
    pub date: DateView,
}

impl BuilderView {
    /// Whether the templates can be rendered: they cannot include each
    /// other without end.
    pub open spec fn renders(self) -> bool {
        cannot_recurse(templates_of(self.config))
    }

    /// The title as the template gives it; `None` where rendering fails,
    /// and where the templates cannot be rendered.
    pub open spec fn rendered_title(self) -> Option<Seq<char>> {
        if self.renders() {
            rendered(
                strict_raw(),
                templates_of(self.config),
                TITLE@,
                title_texts(
                    self.context,
                    date_text(self.date.year, self.date.month, self.date.day),
                ),
                Seq::empty(),
            )
        } else {
            None
        }
    }

    /// The fragment as the template gives it; `None` where rendering fails,
    /// and where the templates cannot be rendered. A fragment with a string
    /// ID is its content: the template is not asked.
    pub open spec fn rendered_fragment(self, fragment: FragmentView) -> Option<Seq<char>> {
        match fragment.partial.id {
            IdView::Integer(id) => if self.renders() {
                rendered(
                    strict_raw(),
                    templates_of(self.config),
                    FRAGMENT@,
                    fragment_texts(self.context, fragment),
                    fragment_numbers(id),
                )
            } else {
                None
            },
            IdView::String(_) => Some(fragment.content),
        }
    }

    /// How fragments are wrapped: to the configured width, with words
    /// parted at spaces only, and never split or broken.
    pub open spec fn wrapping(self) -> Wrapping {
        Wrapping {
            width: self.config.wrap,
            break_words: false,
            separator: Separator::AsciiSpace,
            splitter: Splitter::NoHyphenation,
        }
    }

    /// The text wrapped, as a bullet.
    pub open spec fn wrapped(self, text: Seq<char>) -> Seq<char> {
        filled(text, self.wrapping(), indent_text(self.config.indents.bullet), indent_text(SPACE))
    }

    /// The heading of entries.
    pub open spec fn entry_heading(self) -> Seq<char> {
        heading_text(self.config.indents.heading, self.config.levels.entry)
    }

    /// The heading of sections.
    pub open spec fn section_heading(self) -> Seq<char> {
        heading_text(self.config.indents.heading, self.config.levels.section)
    }

    /// The title of the entry, with its heading.
    pub open spec fn built_title(self) -> Option<Seq<char>> {
        match self.rendered_title() {
            Some(title) => Some(self.entry_heading() + title),
            None => None,
        }
    }

    /// The fragment, rendered and wrapped.
    pub open spec fn built_fragment(self, fragment: FragmentView) -> Option<Seq<char>> {
        match self.rendered_fragment(fragment) {
            Some(text) => Some(self.wrapped(text)),
            None => None,
        }
    }

    /// Whether each of the fragments can be built.
    pub open spec fn builds_each(self, fragments: Seq<FragmentView>) -> bool {
        forall|index: int|
            0 <= index < fragments.len() ==> self.built_fragment(#[trigger] fragments[index])
                is Some
    }

    /// The fragments, each of them built.
    pub open spec fn built_each(self, fragments: Seq<FragmentView>) -> Seq<Seq<char>> {
        Seq::new(fragments.len(), |index: int| self.built_fragment(fragments[index])->0)
    }

    /// The fragments, built and joined, with an empty line between each two
    /// of them; `None` where one of them cannot be built.
    pub open spec fn built_fragments(self, fragments: Seq<FragmentView>) -> Option<Seq<char>> {
        if self.builds_each(fragments) {
            Some(joined(self.built_each(fragments), DOUBLE_NEW_LINE@))
        } else {
            None
        }
    }

    /// The title of a section, with its heading.
    pub open spec fn built_section_title(self, title: Seq<char>) -> Seq<char> {
        self.section_heading() + title
    }

    /// A section: its title, an empty line and its fragments.
    pub open spec fn built_section(self, title: Seq<char>, fragments: Seq<FragmentView>) -> Option<
        Seq<char>,
    > {
        match self.built_fragments(fragments) {
            Some(built) => Some(composed_section(self.built_section_title(title), built)),
            None => None,
        }
    }

    /// The sections of the types `order`, in that order, each of them
    /// built. A type without a title in the `types` of the configuration,
    /// or without fragments, has no section: no default title is applied.
    /// `None` where a section cannot be built.
    pub open spec fn built_each_section(
        self,
        order: Seq<Seq<char>>,
        sections: Map<Seq<char>, Seq<FragmentView>>,
    ) -> Option<Seq<Seq<char>>>
        decreases order.len(),
    {
        if order.len() == 0 {
            Some(Seq::empty())
        } else {
            let name = order.last();
            match self.built_each_section(order.drop_last(), sections) {
                None => None,
                Some(earlier) => if self.config.types.contains_key(name)
                    && sections.contains_key(name) {
                    match self.built_section(self.config.types[name], sections[name]) {
                        Some(section) => Some(earlier.push(section)),
                        None => None,
                    }
                } else {
                    Some(earlier)
                },
            }
        }
    }

    /// The sections of the configured types, in the configured order, built
    /// and joined, with an empty line between each two of them.
    pub open spec fn built_sections(self, sections: Map<Seq<char>, Seq<FragmentView>>) -> Option<
        Seq<char>,
    > {
        match self.built_each_section(self.config.order, sections) {
            Some(built) => Some(joined(built, DOUBLE_NEW_LINE@)),
            None => None,
        }
    }

    /// The entry: the title, an empty line and the sections, or the words
    /// that say that there are none.
    pub open spec fn built(self, sections: Map<Seq<char>, Seq<FragmentView>>) -> Result<
        Seq<char>,
        BuildFailure,
    > {
        match self.built_title() {
            None => Err(BuildFailure::Title),
            Some(title) => match self.built_sections(sections) {
                None => Err(BuildFailure::Fragment),
                Some(built) => Ok(composed_entry(title, built)),
            },
        }
    }

    /// The changelog `contents` with the entry written into it.
    pub open spec fn written(
        self,
        sections: Map<Seq<char>, Seq<FragmentView>>,
        contents: Seq<char>,
    ) -> Result<Seq<char>, BuildFailure> {
        match self.built(sections) {
            Ok(entry) => Ok(spliced(contents, self.config.start, entry)),
            Err(failure) => Err(failure),
        }
    }
}

/// Once a section cannot be built, no further type makes up for it.
pub proof fn lemma_built_each_section_fails(
    builder: BuilderView,
    order: Seq<Seq<char>>,
    sections: Map<Seq<char>, Seq<FragmentView>>,
    count: int,
)
    requires
        0 <= count <= order.len(),
        builder.built_each_section(order.take(count), sections) is None,
    ensures
        builder.built_each_section(order, sections) is None,
    decreases order.len() - count,
{
    if count < order.len() {
        assert(order.take(count + 1).drop_last() =~= order.take(count));
        lemma_built_each_section_fails(builder, order, sections, count + 1);
    } else {
        assert(order.take(count) =~= order);
    }
}

/// A fragment with a string ID is built from its content alone, whatever
/// the template of fragments says.
pub proof fn lemma_string_id_bypasses_template(builder: BuilderView, fragment: FragmentView)
    requires
        fragment.partial.id is String,
    ensures
        builder.rendered_fragment(fragment) == Some(fragment.content),
        builder.built_fragment(fragment) == Some(builder.wrapped(fragment.content)),
{
}

impl BuilderView {
    /// Whether the type `name` has a section: it has a title, and there are
    /// fragments of it.
    pub open spec fn has_section(
        self,
        name: Seq<char>,
        sections: Map<Seq<char>, Seq<FragmentView>>,
    ) -> bool {
        self.config.types.contains_key(name) && sections.contains_key(name)
    }

    /// Whether one of the types `order` has a section.
    pub open spec fn has_sections(
        self,
        order: Seq<Seq<char>>,
        sections: Map<Seq<char>, Seq<FragmentView>>,
    ) -> bool {
        exists|index: int|
            0 <= index < order.len() && self.has_section(#[trigger] order[index], sections)
    }
}

/// Parts of which the last is not empty join to a text that is not empty.
proof fn lemma_joined_is_not_empty(parts: Seq<Seq<char>>, separator: Seq<char>)
    requires
        parts.len() > 0,
        parts.last().len() > 0,
    ensures
        joined(parts, separator).len() > 0,
{
}

/// There is a built section for each type that has one, and none is empty.
proof fn lemma_built_each_section(
    builder: BuilderView,
    order: Seq<Seq<char>>,
    sections: Map<Seq<char>, Seq<FragmentView>>,
)
    requires
        builder.built_each_section(order, sections) is Some,
    ensures
        builder.built_each_section(order, sections)->0.len() > 0 <==> builder.has_sections(
            order,
            sections,
        ),
        forall|index: int|
            0 <= index < builder.built_each_section(order, sections)->0.len() ==> (
            #[trigger] builder.built_each_section(order, sections)->0[index]).len() > 0,
    decreases order.len(),
{
    if order.len() > 0 {
        let earlier = order.drop_last();
        let name = order.last();
        lemma_built_each_section(builder, earlier, sections);
        if builder.has_sections(earlier, sections) {
            let index = choose|index: int|
                0 <= index < earlier.len() && builder.has_section(
                    #[trigger] earlier[index],
                    sections,
                );
            assert(builder.has_section(order[index], sections));
        }
        if builder.has_section(name, sections) {
            assert(builder.has_section(order[order.len() - 1], sections));
        }
        if builder.has_sections(order, sections) {
            let index = choose|index: int|
                0 <= index < order.len() && builder.has_section(#[trigger] order[index], sections);
            if index < earlier.len() {
                assert(builder.has_section(earlier[index], sections));
            }
        }
    }
}

/// An entry says that there are no significant changes exactly if none of
/// the configured types has a section: with no fragments at all, or with
/// none of a configured type. Its sections are not empty otherwise.
pub proof fn lemma_no_changes_without_sections(
    builder: BuilderView,
    sections: Map<Seq<char>, Seq<FragmentView>>,
)
    requires
        builder.built(sections) is Ok,
    ensures
        !builder.has_sections(builder.config.order, sections) ==> builder.built(sections) == Ok::<
            Seq<char>,
            BuildFailure,
        >(builder.built_title()->0 + DOUBLE_NEW_LINE@ + NO_SIGNIFICANT_CHANGES@),
        builder.has_sections(builder.config.order, sections) ==> builder.built(sections) == Ok::<
            Seq<char>,
            BuildFailure,
        >(builder.built_title()->0 + DOUBLE_NEW_LINE@ + builder.built_sections(sections)->0),
{
    let built = builder.built_each_section(builder.config.order, sections)->0;
    lemma_built_each_section(builder, builder.config.order, sections);
    if built.len() > 0 {
        lemma_joined_is_not_empty(built, DOUBLE_NEW_LINE@);
    }
}

/// Without fragments an entry is its title and the words that say that
/// there are no significant changes.
pub proof fn lemma_no_changes_without_fragments(builder: BuilderView)
    requires
        builder.built_title() is Some,
    ensures
        builder.built(Map::empty()) == Ok::<Seq<char>, BuildFailure>(
            builder.built_title()->0 + DOUBLE_NEW_LINE@ + NO_SIGNIFICANT_CHANGES@,
        ),
{
    let sections = Map::<Seq<char>, Seq<FragmentView>>::empty();
    lemma_built_without_sections(builder, builder.config.order, sections);
}

/// Where no type has a section, nothing is built, and nothing fails.
proof fn lemma_built_without_sections(
    builder: BuilderView,
    order: Seq<Seq<char>>,
    sections: Map<Seq<char>, Seq<FragmentView>>,
)
    requires
        !builder.has_sections(order, sections),
    ensures
        builder.built_each_section(order, sections) == Some(Seq::<Seq<char>>::empty()),
    decreases order.len(),
{
    if order.len() > 0 {
        let earlier = order.drop_last();
        if builder.has_sections(earlier, sections) {
            let index = choose|index: int|
                0 <= index < earlier.len() && builder.has_section(
                    #[trigger] earlier[index],
                    sections,
                );
            assert(builder.has_section(order[index], sections));
        }
        assert(!builder.has_section(order[order.len() - 1], sections));
        lemma_built_without_sections(builder, earlier, sections);
    }
}

/// What is built is determined by what the builder holds and by the files
/// of the fragments directory, in whatever order they come: the same
/// context, configuration, date and files give the same entry, and the same
/// changelog.
pub proof fn lemma_built_is_determined(
    first: BuilderView,
    second: BuilderView,
    first_entries: Seq<Entry>,
    second_entries: Seq<Entry>,
    contents: Seq<char>,
)
    requires
        first == second,
        first_entries.to_multiset() == second_entries.to_multiset(),
    ensures
        first.built(collected(first_entries)) == second.built(collected(second_entries)),
        first.written(collected(first_entries), contents) == second.written(
            collected(second_entries),
            contents,
        ),
{
    lemma_collected_of_permutation(first_entries, second_entries);
}

/// The text that rendering gave, if it gave one.
pub open spec fn rendering_text(result: Result<String, RenderingError>) -> Option<Seq<char>> {
    match result {
        Ok(text) => Some(text@),
        Err(_) => None,
    }
}

/// Represents changelog builders.
#[derive(Debug)]
pub struct Builder {
    context: Context,
    config: Config,
    date: Date,
    renderer: Handlebars<'static>,
    renders: bool,
}

impl View for Builder {
    type V = BuilderView;

    closed spec fn view(&self) -> BuilderView {
        BuilderView { context: self.context@, config: self.config@, date: self.date@ }
    }
}

impl Builder {
    #[verifier::type_invariant]
    spec fn well_formed(&self) -> bool {
        &&& registry_mode(self.renderer) == Some(strict_raw())
        &&& registry_templates(self.renderer) == templates_of(self.config@)
        &&& self.renders == cannot_recurse(templates_of(self.config@))
    }

    /// Constructs [`Self`] from [`Workspace`].
    pub fn from_workspace(workspace: Workspace, date: Date) -> (result: Result<Self, InitError>)
        ensures
            result is Ok <==> is_template(workspace.config@.formats.title) && is_template(
                workspace.config@.formats.fragment,
            ),
            result matches Ok(builder) ==> builder@ == (BuilderView {
                context: workspace.context@,
                config: workspace.config@,
                date: date@,
            }),
    {
        Self::new(workspace.context, workspace.config, date)
    }

    /// Constructs [`Self`]. Both templates are compiled here, so that one
    /// that does not compile is found before anything is built.
    pub fn new(context: Context, config: Config, date: Date) -> (result: Result<Self, InitError>)
        ensures
            result is Ok <==> is_template(config@.formats.title) && is_template(
                config@.formats.fragment,
            ),
            result matches Ok(builder) ==> builder@ == (BuilderView {
                context: context@,
                config: config@,
                date: date@,
            }),
    {
        let mut renderer = new_registry();

        set_strict_mode(&mut renderer, true);

        disable_escaping(&mut renderer);

        match register_template_string(&mut renderer, TITLE, config.formats().title.as_str()) {
            Ok(()) => {},
            Err(error) => {
                return Err(InitError(error));
            },
        }
        match register_template_string(&mut renderer, FRAGMENT, config.formats().fragment.as_str()) {
            Ok(()) => {},
            Err(error) => {
                return Err(InitError(error));
            },
        }
        let renders = can_render(config.formats().title.as_str(), config.formats().fragment.as_str());

        Ok(Self { context, config, date, renderer, renders })
    }

    /// Returns [`Context`] reference.
    pub fn context(&self) -> (context: &Context)
        ensures
            context@ == self@.context,
    {
        &self.context
    }

    /// Returns [`Config`] reference.
    pub fn config(&self) -> (config: &Config)
        ensures
            config@ == self@.config,
    {
        &self.config
    }

    /// Returns the date.
    pub fn date(&self) -> (date: Date)
        ensures
            date@ == self@.date,
    {
        self.date
    }

    // HEADING

    /// Constructs headings for the given level.
    pub fn level_heading(&self, level: Level) -> (result: String)
        ensures
            result@ == heading_text(self@.config.indents.heading, level@),
    {
        heading(self.config.indents.heading, level)
    }

    /// Constructs entry headings.
    pub fn entry_heading(&self) -> (result: String)
        ensures
            result@ == self@.entry_heading(),
    {
        self.level_heading(self.config.levels.entry)
    }

    /// Constructs section headings.
    pub fn section_heading(&self) -> (result: String)
        ensures
            result@ == self@.section_heading(),
    {
        self.level_heading(self.config.levels.section)
    }

    // RENDERING

    /// Renders entry titles. Templates that could include each other
    /// without end are not rendered.
    pub fn render_title(&self) -> (result: Result<String, RenderingError>)
        ensures
            rendering_text(result) == self@.rendered_title(),
            result matches Err(RenderingError::Recursion(_)) <==> !self@.renders(),
    {
        proof {
            use_type_invariant(self);
        }
        if !self.renders {
            return Err(RenderingError::Recursion(RecursionError));
        }
        let texts = vec![
            (NAME.to_owned(), self.context.name.clone()),
            (VERSION.to_owned(), self.context.version.clone()),
            (URL.to_owned(), self.context.url.clone()),
            (DATE.to_owned(), self.date.to_text()),
        ];
        let numbers: Vec<(String, u32)> = Vec::new();
        proof {
            assert(texts_view(texts@) =~= title_texts(
                self@.context,
                date_text(self@.date.year, self@.date.month, self@.date.day),
            ));
            assert(numbers_view(numbers@) =~= Seq::empty());
        }
        match render(&self.renderer, TITLE, &texts, &numbers) {
            Ok(text) => Ok(text),
            Err(error) => Err(RenderingError::Engine(error)),
        }
    }

    /// Renders fragments. A fragment with a string ID is not rendered: its
    /// content is returned as it is. Templates that could include each
    /// other without end are not rendered.
    pub fn render_fragment(&self, fragment: &Fragment) -> (result: Result<String, RenderingError>)
        ensures
            rendering_text(result) == self@.rendered_fragment(fragment@),
            result matches Err(RenderingError::Recursion(_)) <==> fragment@.partial.id is Integer
                && !self@.renders(),
    {
        proof {
            use_type_invariant(self);
        }
        match &fragment.partial.id {
            Id::Integer(id) => {
                if !self.renders {
                    return Err(RenderingError::Recursion(RecursionError));
                }
                let texts = vec![
                    (NAME.to_owned(), self.context.name.clone()),
                    (VERSION.to_owned(), self.context.version.clone()),
                    (URL.to_owned(), self.context.url.clone()),
                    (KIND.to_owned(), fragment.partial.kind.clone()),
                    (CONTENT.to_owned(), fragment.content.clone()),
                ];
                let numbers = vec![(ID.to_owned(), *id)];
                proof {
                    assert(texts_view(texts@) =~= fragment_texts(self@.context, fragment@));
                    assert(numbers_view(numbers@) =~= fragment_numbers(*id));
                }
                match render(&self.renderer, FRAGMENT, &texts, &numbers) {
                    Ok(text) => Ok(text),
                    Err(error) => Err(RenderingError::Engine(error)),
                }
            },
            Id::String(_) => Ok(fragment.content.clone()),
        }
    }

    // WRAPPING

    /// Wraps the given string.
    pub fn wrap_str(&self, string: &str) -> (result: String)
        ensures
            result@ == self@.wrapped(string@),
    {
        let initial_indent = indent(self.config.indents.bullet);
        let subsequent_indent = indent(SPACE);

        let wrapping = Wrapping {
            width: self.config.wrap.get(),
            break_words: false,
            separator: Separator::AsciiSpace,
            splitter: Splitter::NoHyphenation,
        };

        fill(string, wrapping, initial_indent.as_str(), subsequent_indent.as_str())
    }

    /// The same as [`wrap_str`].
    ///
    /// [`wrap_str`]: Self::wrap_str
    pub fn wrap(&self, string: &str) -> (result: String)
        ensures
            result@ == self@.wrapped(string@),
    {
        self.wrap_str(string)
    }

    // BUILDING

    /// Builds entry titles.
    pub fn build_title(&self) -> (result: Result<String, BuildTitleError>)
        ensures
            match result {
                Ok(title) => self@.built_title() == Some(title@),
                Err(_) => self@.built_title() is None,
            },
    {
        let mut string = self.entry_heading();

        let title = match self.render_title() {
            Ok(title) => title,
            Err(error) => {
                return Err(BuildTitleError(error));
            },
        };

        string.append(title.as_str());

        Ok(string)
    }

    /// Builds section titles.
    pub fn build_section_title_str(&self, title: &str) -> (result: String)
        ensures
            result@ == self@.built_section_title(title@),
    {
        let mut string = self.section_heading();

        string.append(title);

        string
    }

    /// The same as [`build_section_title_str`].
    ///
    /// [`build_section_title_str`]: Self::build_section_title_str
    pub fn build_section_title(&self, title: &str) -> (result: String)
        ensures
            result@ == self@.built_section_title(title@),
    {
        self.build_section_title_str(title)
    }

    /// Builds fragments.
    pub fn build_fragment(&self, fragment: &Fragment) -> (result: Result<String, BuildFragmentError>)
        ensures
            match result {
                Ok(built) => self@.built_fragment(fragment@) == Some(built@),
                Err(_) => self@.built_fragment(fragment@) is None,
            },
    {
        let string = match self.render_fragment(fragment) {
            Ok(string) => string,
            Err(error) => {
                return Err(BuildFragmentError(error));
            },
        };

        Ok(self.wrap(string.as_str()))
    }

    /// Builds multiple fragments and joins them together.
    pub fn build_fragments(&self, fragments: &[Fragment]) -> (result: Result<
        String,
        BuildFragmentError,
    >)
        ensures
            match result {
                Ok(built) => self@.built_fragments(fragment_views(fragments@)) == Some(built@),
                Err(_) => self@.built_fragments(fragment_views(fragments@)) is None,
            },
    {
        let ghost views = fragment_views(fragments@);
        let mut built: Vec<String> = Vec::new();
        let mut index: usize = 0;
        while index < fragments.len()
            invariant
                index <= fragments.len(),
                views == fragment_views(fragments@),
                built@.len() == index,
                forall|earlier: int|
                    0 <= earlier < index ==> self@.built_fragment(#[trigger] views[earlier])
                        == Some(built@[earlier]@),
            decreases fragments.len() - index,
        {
            match self.build_fragment(&fragments[index]) {
                Ok(string) => {
                    built.push(string);
                },
                Err(error) => {
                    assert(self@.built_fragment(views[index as int]) is None);
                    return Err(error);
                },
            }
            index += 1;
        }
        assert(texts_of(built@) =~= self@.built_each(views));
        Ok(join(&built, DOUBLE_NEW_LINE))
    }

    /// Builds sections: the title, an empty line and the fragments.
    pub fn build_section_str(&self, title: &str, fragments: &[Fragment]) -> (result: Result<
        String,
        BuildFragmentError,
    >)
        ensures
            match result {
                Ok(built) => self@.built_section(title@, fragment_views(fragments@)) == Some(
                    built@,
                ),
                Err(_) => self@.built_section(title@, fragment_views(fragments@)) is None,
            },
    {
        let title = self.build_section_title(title);

        let built = match self.build_fragments(fragments) {
            Ok(built) => built,
            Err(error) => {
                return Err(error);
            },
        };

        Ok(compose_section(title.as_str(), built.as_str()))
    }

    /// The same as [`build_section_str`].
    ///
    /// [`build_section_str`]: Self::build_section_str
    pub fn build_section(&self, title: &str, fragments: &[Fragment]) -> (result: Result<
        String,
        BuildFragmentError,
    >)
        ensures
            match result {
                Ok(built) => self@.built_section(title@, fragment_views(fragments@)) == Some(
                    built@,
                ),
                Err(_) => self@.built_section(title@, fragment_views(fragments@)) is None,
            },
    {
        self.build_section_str(title, fragments)
    }

    /// Builds multiple sections and joins them together: those of the
    /// configured types that have a title and fragments, in the configured
    /// order.
    pub fn build_sections(&self, sections: &Sections) -> (result: Result<String, BuildFragmentError>)
        ensures
            match result {
                Ok(built) => self@.built_sections(sections@) == Some(built@),
                Err(_) => self@.built_sections(sections@) is None,
            },
    {
        let types = &self.config.types;
        let order = &self.config.order;
        let ghost names = self@.config.order;

        let mut built: Vec<String> = Vec::new();
        let mut index: usize = 0;
        assert(names.take(0) =~= Seq::<Seq<char>>::empty());
        assert(texts_of(built@) =~= Seq::<Seq<char>>::empty());
        while index < order.len()
            invariant
                index <= order.len(),
                order == &self.config.order,
                names == self@.config.order,
                names.len() == order@.len(),
                types == &self.config.types,
                self@.built_each_section(names.take(index as int), sections@) == Some(
                    texts_of(built@),
                ),
            decreases order.len() - index,
        {
            let name = order[index].as_str();
            proof {
                assert(names[index as int] == name@);
                assert(names.take(index + 1).drop_last() =~= names.take(index as int));
                assert(names.take(index + 1).last() == name@);
            }
            match types.get(name) {
                Some(title) => match sections.get(name) {
                    Some(fragments) => {
                        match self.build_section(title.as_str(), fragments.as_slice()) {
                            Ok(section) => {
                                proof {
                                    assert(texts_of(built@.push(section)) =~= texts_of(built@).push(
                                        section@,
                                    ));
                                }
                                built.push(section);
                            },
                            Err(error) => {
                                proof {
                                    lemma_built_each_section_fails(
                                        self@,
                                        names,
                                        sections@,
                                        index + 1,
                                    );
                                }
                                return Err(error);
                            },
                        }
                    },
                    None => {},
                },
                None => {},
            }
            index += 1;
        }
        assert(names.take(index as int) =~= names);
        Ok(join(&built, DOUBLE_NEW_LINE))
    }

    /// Builds and returns entries.
    pub fn build(&self, sections: &Sections) -> (result: Result<String, BuildError>)
        ensures
            match result {
                Ok(entry) => self@.built(sections@) == Ok::<Seq<char>, BuildFailure>(entry@),
                Err(error) => self@.built(sections@) == Err::<Seq<char>, BuildFailure>(
                    error.failure(),
                ),
            },
    {
        let title = match self.build_title() {
            Ok(title) => title,
            Err(error) => {
                return Err(BuildError::build_title(error));
            },
        };

        let built = match self.build_sections(sections) {
            Ok(built) => built,
            Err(error) => {
                return Err(BuildError::build_fragment(error));
            },
        };

        Ok(compose_entry(title.as_str(), built.as_str()))
    }

    /// Builds entries for previewing: nothing is written.
    pub fn preview(&self, sections: &Sections) -> (result: Result<String, BuildError>)
        ensures
            match result {
                Ok(entry) => self@.built(sections@) == Ok::<Seq<char>, BuildFailure>(entry@),
                Err(error) => self@.built(sections@) == Err::<Seq<char>, BuildFailure>(
                    error.failure(),
                ),
            },
    {
        self.build(sections)
    }

    /// Builds entries and writes them into the changelog `contents`, after
    /// the configured `start`, or at the beginning where the changelog does
    /// not hold it. Returns what the changelog holds then.
    pub fn write(&self, sections: &Sections, contents: &str) -> (result: Result<String, WriteError>)
        ensures
            match result {
                Ok(written) => self@.written(sections@, contents@) == Ok::<
                    Seq<char>,
                    BuildFailure,
                >(written@),
                Err(error) => error.source matches WriteErrorSource::Build(build)
                    && self@.written(sections@, contents@) == Err::<Seq<char>, BuildFailure>(
                    build.failure(),
                ),
            },
    {
        let entry = match self.build(sections) {
            Ok(entry) => entry,
            Err(error) => {
                return Err(WriteError::build(error));
            },
        };

        Ok(splice(contents, self.config.start.as_str(), entry.as_str()))
    }

    // COLLECTING

    /// Collects fragments into sections: those that the files of the
    /// fragments directory make. A file that makes no fragment is passed over.
    pub fn collect(&self, entries: Vec<Entry>) -> (sections: Sections)
        ensures
            sections@ == collected(entries@),
            forall|kind: Seq<char>| #[trigger]
                sections@.contains_key(kind) ==> sorted_by(sections@[kind], fragment_order()),
    {
        Sections::collect(entries)
    }

    /// Collects paths to fragments: of the files found in the fragments
    /// directory, those whose name is the name of a fragment.
    pub fn collect_paths(&self, found: Vec<Found>) -> (paths: Vec<PathBuf>)
        ensures
            paths@ == fragment_paths(found@),
    {
        collect_paths(found)
    }
}

} // verus!
