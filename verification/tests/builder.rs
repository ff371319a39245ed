use std::path::PathBuf;

use changelogging::builder::{
    can_render, compose_entry, compose_section, heading, indent, BuildError, BuildErrorSource,
    BuildTitleError, Builder, CollectError, CollectErrorSource, InitError, OpenFileError,
    ReadFileError, RenderingError, WriteError, WriteErrorSource, WriteFileError, FRAGMENT,
    NO_SIGNIFICANT_CHANGES, TITLE,
};
use changelogging::config::{Config, Level, Types};
use changelogging::context::Context;
use changelogging::date::Date;
use changelogging::fragment::{Entry, Fragment, Id, Partial};
use changelogging::sections::Sections;
use changelogging::workspace::Workspace;

const URL: &str = "https://github.com/nekitdev/changelogging";

fn context() -> Context {
    Context { name: "changelogging".to_owned(), version: "0.5.0".to_owned(), url: URL.to_owned() }
}

fn date() -> Date {
    Date::new(2024, 1, 5).unwrap()
}

fn linked() -> Config {
    let mut config = Config::default();
    config.formats.title = "[{{version}}]({{url}}/tree/v{{version}}) ({{date}})".to_owned();
    config.formats.fragment = "{{content}} ([#{{id}}]({{url}}/pull/{{id}}))".to_owned();
    config
}

fn builder(config: Config) -> Builder {
    Builder::new(context(), config, date()).unwrap()
}

fn entry(name: &str, contents: &str) -> Entry {
    Entry {
        path: PathBuf::from("changes").join(name),
        name: Some(name.to_owned()),
        contents: Ok(contents.to_owned()),
    }
}

fn fragment(id: Id, kind: &str, content: &str) -> Fragment {
    Fragment::borrowed(Partial::borrowed(id, kind), content)
}

fn entries() -> Vec<Entry> {
    vec![
        entry("34.fix.md", "Fixed annoying bugs!\n"),
        entry("13.feature.md", "Added cool features!\n"),
        entry("22.change.md", "Changed some things!\n"),
    ]
}

const ENTRY: &str = "\
## [0.5.0](https://github.com/nekitdev/changelogging/tree/v0.5.0) (2024-01-05)

### Features

- Added cool features! ([#13](https://github.com/nekitdev/changelogging/pull/13))

### Changes

- Changed some things! ([#22](https://github.com/nekitdev/changelogging/pull/22))

### Fixes

- Fixed annoying bugs! ([#34](https://github.com/nekitdev/changelogging/pull/34))";

#[test]
fn builds_entries() {
    let builder = builder(linked());
    let sections = builder.collect(entries());
    assert_eq!(builder.build(&sections).unwrap(), ENTRY);
    assert_eq!(builder.preview(&sections).unwrap(), ENTRY);
}

#[test]
fn builds_from_workspaces() {
    let builder = Builder::from_workspace(Workspace::new(context(), linked()), date()).unwrap();
    assert_eq!(builder.context(), &context());
    assert_eq!(builder.config().formats, linked().formats);
    assert_eq!(builder.date(), date());
    assert_eq!(builder.build(&Sections::collect(entries())).unwrap(), ENTRY);
}

#[test]
fn says_that_there_are_no_changes() {
    let builder = builder(Config::default());
    let sections = builder.collect(Vec::new());
    assert_eq!(builder.build(&sections).unwrap(), "## 0.5.0 (2024-01-05)\n\nNo significant changes.");
    assert_eq!(NO_SIGNIFICANT_CHANGES, "No significant changes.");
}

#[test]
fn says_that_there_are_no_changes_of_configured_types() {
    let mut config = Config::default();
    config.order = vec!["feature".to_owned()];
    let builder = builder(config);
    let sections = builder.collect(vec![entry("1.fix", "Fixed."), entry("2.docs", "Documented.")]);
    assert_eq!(builder.build_sections(&sections).unwrap(), "");
    assert_eq!(builder.build(&sections).unwrap(), "## 0.5.0 (2024-01-05)\n\nNo significant changes.");
}

#[test]
fn string_ids_bypass_the_template() {
    let builder = builder(linked());
    let note = fragment(Id::borrowed("note"), "internal", "Just a note.");
    assert_eq!(builder.render_fragment(&note).unwrap(), "Just a note.");
    assert_eq!(builder.build_fragment(&note).unwrap(), "- Just a note.");

    let sections = builder.collect(vec![entry("~note.internal", "Just a note.\n")]);
    assert_eq!(
        builder.build_sections(&sections).unwrap(),
        "### Internal\n\n- Just a note."
    );
}

#[test]
fn string_ids_bypass_a_template_that_fails() {
    let mut config = Config::default();
    config.formats.fragment = "{{missing}}".to_owned();
    let builder = builder(config);
    let note = fragment(Id::borrowed("note"), "internal", "Just a note.");
    assert_eq!(builder.render_fragment(&note).unwrap(), "Just a note.");
    assert!(builder.render_fragment(&fragment(Id::integer(1), "internal", "Just a note.")).is_err());
}

#[test]
fn renders_titles() {
    assert_eq!(builder(Config::default()).render_title().unwrap(), "0.5.0 (2024-01-05)");
    assert_eq!(
        builder(linked()).render_title().unwrap(),
        "[0.5.0](https://github.com/nekitdev/changelogging/tree/v0.5.0) (2024-01-05)"
    );
    let mut config = Config::default();
    config.formats.title = "{{name}} {{version}} at {{url}} on {{date}}".to_owned();
    assert_eq!(
        builder(config).build_title().unwrap(),
        "## changelogging 0.5.0 at https://github.com/nekitdev/changelogging on 2024-01-05"
    );
}

#[test]
fn renders_fragments() {
    let builder = builder(Config::default());
    let fix = fragment(Id::integer(34), "fix", "Fixed annoying bugs!");
    assert_eq!(builder.render_fragment(&fix).unwrap(), "Fixed annoying bugs! (#34)");

    let mut config = Config::default();
    config.formats.fragment = "{{id}}/{{type_name}}/{{content}}/{{name}}/{{version}}/{{url}}".to_owned();
    let builder = self::builder(config);
    assert_eq!(
        builder.render_fragment(&fix).unwrap(),
        "34/fix/Fixed annoying bugs!/changelogging/0.5.0/https://github.com/nekitdev/changelogging"
    );
}

#[test]
fn renders_ids_as_numbers() {
    let mut config = Config::default();
    config.formats.fragment = "{{#if id}}#{{id}}{{else}}none{{/if}}{{#if (gt id 9)}}!{{/if}}".to_owned();
    let builder = builder(config);
    assert_eq!(builder.render_fragment(&fragment(Id::integer(0), "fix", "")).unwrap(), "none");
    assert_eq!(builder.render_fragment(&fragment(Id::integer(7), "fix", "")).unwrap(), "#7");
    assert_eq!(builder.render_fragment(&fragment(Id::integer(13), "fix", "")).unwrap(), "#13!");
}

#[test]
fn does_not_escape() {
    let builder = builder(Config::default());
    let fix = fragment(Id::integer(1), "fix", "Use `a < b && c > d`, \"quoted\" & 'so'.");
    assert_eq!(
        builder.render_fragment(&fix).unwrap(),
        "Use `a < b && c > d`, \"quoted\" & 'so'. (#1)"
    );
}

#[test]
fn is_strict() {
    let mut config = Config::default();
    config.formats.title = "{{version}} {{missing}}".to_owned();
    let builder = builder(config);
    assert!(builder.render_title().is_err());
    assert!(builder.build_title().is_err());
    let error = builder.build(&Sections::new()).unwrap_err();
    assert!(matches!(error.source, BuildErrorSource::BuildTitle(_)));

    // the date is seen by the template of titles only
    let mut config = Config::default();
    config.formats.fragment = "{{content}} {{date}}".to_owned();
    let builder = self::builder(config);
    let sections = builder.collect(vec![entry("1.fix", "Fixed.")]);
    assert!(builder.build_fragments(sections.get("fix").unwrap()).is_err());
    assert!(builder.build_section("Fixes", sections.get("fix").unwrap()).is_err());
    assert!(builder.build_sections(&sections).is_err());
    let error = builder.build(&sections).unwrap_err();
    assert!(matches!(error.source, BuildErrorSource::BuildFragment(_)));
    let error = builder.write(&sections, "").unwrap_err();
    assert!(matches!(
        error.source,
        WriteErrorSource::Build(BuildError { source: BuildErrorSource::BuildFragment(_) })
    ));
    // without fragments of a configured type the template is not asked
    assert!(builder.build(&builder.collect(vec![entry("1.docs", "Documented.")])).is_ok());
}

#[test]
fn refuses_templates_that_do_not_compile() {
    let mut config = Config::default();
    config.formats.title = "{{#if version}".to_owned();
    assert!(Builder::new(context(), config, date()).is_err());

    let mut config = Config::default();
    config.formats.fragment = "{{content}".to_owned();
    assert!(Builder::new(context(), config, date()).is_err());
    assert!(Builder::new(context(), Config::default(), date()).is_ok());
    assert_eq!((TITLE, FRAGMENT), ("title", "fragment"));
}

#[test]
fn templates_can_include_each_other() {
    let mut config = Config::default();
    config.formats.title = "{{version}}".to_owned();
    config.formats.fragment = "{{content}} in {{> title}}".to_owned();
    let builder = builder(config);
    assert_eq!(
        builder.render_fragment(&fragment(Id::integer(1), "fix", "Fixed")).unwrap(),
        "Fixed in 0.5.0"
    );
}

#[test]
fn makes_headings_and_indents() {
    assert_eq!(heading('#', Level::new(1).unwrap()), "# ");
    assert_eq!(heading('=', Level::new(4).unwrap()), "==== ");
    assert_eq!(indent('-'), "- ");
    assert_eq!(indent(' '), "  ");

    let mut config = Config::default();
    config.indents.heading = '=';
    config.levels.entry = Level::new(1).unwrap();
    let builder = builder(config);
    assert_eq!(builder.entry_heading(), "= ");
    assert_eq!(builder.section_heading(), "=== ");
    assert_eq!(builder.level_heading(Level::new(5).unwrap()), "===== ");
    assert_eq!(builder.build_section_title("Fixes"), "=== Fixes");
    assert_eq!(builder.build_section_title_str("Fixes"), "=== Fixes");
}

#[test]
fn wraps() {
    let mut config = Config::default();
    config.wrap = Level::new(15).unwrap();
    let builder = builder(config);
    assert_eq!(
        builder.wrap_str("Memory safety without garbage collection."),
        "- Memory safety\n  without\n  garbage\n  collection."
    );
    assert_eq!(builder.wrap("short"), "- short");
    assert_eq!(builder.wrap("two\nlines"), "- two\n  lines");
    // there is no bullet without text
    assert_eq!(builder.wrap(""), "");
}

#[test]
fn wraps_with_the_configured_bullet() {
    let mut config = Config::default();
    config.wrap = Level::new(12).unwrap();
    config.indents.bullet = '*';
    let builder = builder(config);
    assert_eq!(builder.wrap("one two three four"), "* one two\n  three four");
}

#[test]
fn keeps_lines_within_the_width_and_words_whole() {
    let text = "Wrapping never breaks words: a-hyphenated-word or https://example.com/a/very/long/path \
                stay whole, whatever the width of the lines that are asked for is.";
    for width in [1, 2, 3, 5, 8, 13, 21, 34, 55, 89, 144] {
        let mut config = Config::default();
        config.wrap = Level::new(width).unwrap();
        let wrapped = builder(config).wrap_str(text);
        let mut words = Vec::new();
        for (number, line) in wrapped.lines().enumerate() {
            let rest = if number == 0 {
                line.strip_prefix("- ").unwrap_or_else(|| line.strip_prefix("-").unwrap())
            } else {
                line.strip_prefix("  ").unwrap()
            };
            let line_words: Vec<&str> = rest.split(' ').filter(|word| !word.is_empty()).collect();
            assert!(
                line.chars().count() <= width || line_words.len() <= 1,
                "{width}: {line:?}"
            );
            words.extend(line_words);
        }
        let expected: Vec<&str> = text.split(' ').filter(|word| !word.is_empty()).collect();
        assert_eq!(words, expected);
    }
}

#[test]
fn joins_fragments_with_empty_lines() {
    let builder = builder(Config::default());
    let fragments = vec![
        fragment(Id::integer(1), "fix", "First."),
        fragment(Id::borrowed("x"), "fix", "Second."),
        fragment(Id::integer(3), "fix", "Third."),
    ];
    assert_eq!(
        builder.build_fragments(&fragments).unwrap(),
        "- First. (#1)\n\n- Second.\n\n- Third. (#3)"
    );
    assert_eq!(builder.build_fragments(&fragments[..1]).unwrap(), "- First. (#1)");
    assert_eq!(builder.build_fragments(&[]).unwrap(), "");
    assert_eq!(
        builder.build_section_str("Fixes", &fragments[..2]).unwrap(),
        "### Fixes\n\n- First. (#1)\n\n- Second."
    );
    assert_eq!(
        builder.build_section("Fixes", &fragments[2..]).unwrap(),
        "### Fixes\n\n- Third. (#3)"
    );
}

#[test]
fn builds_the_sections_of_the_order_in_that_order() {
    let mut config = Config::default();
    config.order = vec![
        "fix".to_owned(),
        "docs".to_owned(),
        "untitled".to_owned(),
        "security".to_owned(),
        "feature".to_owned(),
    ];
    config.types = Types::new();
    config.types.insert("docs".to_owned(), "Documentation".to_owned());
    config.types.insert("fix".to_owned(), "Bug fixes".to_owned());
    let builder = builder(config);
    let sections = builder.collect(vec![
        entry("1.feature", "Added."),
        entry("2.fix", "Fixed."),
        entry("3.docs", "Documented."),
        entry("4.untitled", "Has no title."),
        entry("5.change", "Is not in the order."),
    ]);
    // `feature` and `security` have no title in `types`: no default is applied
    assert_eq!(
        builder.build_sections(&sections).unwrap(),
        "### Bug fixes\n\n- Fixed. (#2)\n\n### Documentation\n\n- Documented. (#3)"
    );
}

#[test]
fn builds_no_section_without_a_configured_title() {
    let mut config = Config::default();
    config.types = Types::new();
    config.order = vec!["fix".to_owned()];
    let builder = builder(config);
    let sections = builder.collect(vec![entry("~a.fix", "Note.")]);
    assert_eq!(builder.build_sections(&sections).unwrap(), "");
    assert_eq!(builder.build(&sections).unwrap(), "## 0.5.0 (2024-01-05)\n\nNo significant changes.");
}

#[test]
fn builds_with_the_titles_that_were_resolved() {
    let mut config = Config::default();
    config.types = Types::new();
    config.types.insert("fix".to_owned(), "Bug fixes".to_owned());
    config.types = config.types_with_defaults();
    let builder = builder(config);
    let sections = builder.collect(vec![entry("1.feature", "Added."), entry("2.fix", "Fixed.")]);
    assert_eq!(
        builder.build_sections(&sections).unwrap(),
        "### Features\n\n- Added. (#1)\n\n### Bug fixes\n\n- Fixed. (#2)"
    );
}

#[test]
fn composes_entries_and_sections() {
    assert_eq!(compose_entry("## 1.0", "### Fixes\n\n- Fixed."), "## 1.0\n\n### Fixes\n\n- Fixed.");
    assert_eq!(compose_entry("## 1.0", ""), "## 1.0\n\nNo significant changes.");
    assert_eq!(compose_entry("", ""), "\n\nNo significant changes.");
    assert_eq!(compose_section("### Fixes", "- Fixed."), "### Fixes\n\n- Fixed.");
    assert_eq!(compose_section("### Fixes", ""), "### Fixes\n\n");
}

fn with_templates(title: &str, fragment: &str) -> Builder {
    let mut config = Config::default();
    config.formats.title = title.to_owned();
    config.formats.fragment = fragment.to_owned();
    Builder::new(context(), config, date()).unwrap()
}

#[test]
fn does_not_render_templates_that_could_include_each_other_without_end() {
    let refused = [
        // each includes the other
        ("{{> fragment}}", "{{> title}}"),
        ("{{> fragment}}", "{{#if content}}{{> title content=\"\"}}{{/if}}"),
        ("{{> fragment}}", "{{> (lookup this \"content\")}}"),
        ("{{> (lookup this \"name\")}}", "{{> (lookup this \"content\")}}"),
        // the engine does not see that a template includes itself once a block was rendered
        ("{{#if version}}{{> title}}{{/if}}", "{{content}}"),
        ("{{#if version}}v{{/if}}{{> title}}", "{{content}}"),
        ("{{{{raw}}}}r{{{{/raw}}}}{{> title}}", "{{content}}"),
        ("{{version}}", "{{#if content}}{{> (lookup this \"type_name\")}}{{/if}}"),
        ("{{version}}", "{{~ #> fragment}}x{{/fragment}}"),
        // what a template defines may include itself
        ("{{version}}", "{{#*inline \"p\"}}{{> p}}{{/inline}}{{> p}}"),
    ];
    let fix = fragment(Id::integer(1), "fix", "Fixed.");
    let note = fragment(Id::borrowed("note"), "fix", "Noted.");
    for (title, fragment) in refused {
        assert!(!can_render(title, fragment), "{title:?} {fragment:?}");
        let builder = with_templates(title, fragment);
        assert!(
            matches!(builder.render_title(), Err(RenderingError::Recursion(_))),
            "{title:?} {fragment:?}"
        );
        assert!(matches!(builder.render_fragment(&fix), Err(RenderingError::Recursion(_))));
        // no template is asked for a string ID
        assert_eq!(builder.render_fragment(&note).unwrap(), "Noted.");
        let error = builder.build(&Sections::new()).unwrap_err();
        assert!(matches!(
            error.source,
            BuildErrorSource::BuildTitle(BuildTitleError(RenderingError::Recursion(_)))
        ));
    }
}

#[test]
fn renders_templates_that_include_without_a_circle() {
    let fix = fragment(Id::integer(1), "fix", "Fixed");
    let rendered = [
        ("{{version}} ({{date}})", "{{content}} (#{{id}})", "0.5.0 (2024-01-05)", "Fixed (#1)"),
        ("{{version}}", "{{content}} in {{> title}}", "0.5.0", "Fixed in 0.5.0"),
        ("{{version}}", "{{#if content}}{{ ~> title }}{{/if}}", "0.5.0", "0.5.0"),
        ("{{> fragment content=version id=1}}", "{{content}} (#{{id}})", "0.5.0 (#1)", "Fixed (#1)"),
        ("{{version}} > {{date}}", "-> {{content}}", "0.5.0 > 2024-01-05", "-> Fixed"),
        ("{{#*inline \"x\"}}y{{/inline}}{{version}}{{> x}}", "{{> title}}", "0.5.0y", "0.5.0y"),
        ("{{version}}", "{{#> missing}}{{content}}{{/missing}}", "0.5.0", "Fixed"),
        ("{{#*inline \"q\"}}Q{{/inline}}{{> fragment}}", "[{{> q}}]", "[Q]", ""),
    ];
    for (title, fragment, title_text, fragment_text) in rendered {
        assert!(can_render(title, fragment), "{title:?} {fragment:?}");
        let builder = with_templates(title, fragment);
        assert_eq!(builder.render_title().unwrap(), title_text, "{title:?} {fragment:?}");
        if !fragment_text.is_empty() {
            assert_eq!(builder.render_fragment(&fix).unwrap(), fragment_text);
        }
    }
}

#[test]
fn leaves_it_to_the_engine_to_refuse_what_cannot_close_a_circle() {
    let fix = fragment(Id::integer(1), "fix", "Fixed");
    let refused_by_the_engine = [
        // names in quotes and in square brackets are names as they stand
        ("{{> 'fragment'}}", "{{content}}"),
        ("{{> [fragment]}}", "{{content}}"),
        ("{{#if version}}{{> 'title'}}{{/if}}", "{{> 'title'}}"),
        // no template of that name
        ("{{> other}}", "{{> title.x}}"),
        ("{{> (lookup this \"name\")}}", "{{> title2}}"),
        // a template that includes itself, before any block
        ("{{> title}}", "{{> fragment}}"),
        ("{{> (lookup this \"version\")}}", "{{content}}"),
    ];
    for (title, fragment) in refused_by_the_engine {
        assert!(can_render(title, fragment), "{title:?} {fragment:?}");
        let builder = with_templates(title, fragment);
        assert!(
            matches!(builder.render_title(), Err(RenderingError::Engine(_))),
            "{title:?} {fragment:?}"
        );
        assert!(
            !matches!(builder.render_fragment(&fix), Err(RenderingError::Recursion(_))),
            "{title:?} {fragment:?}"
        );
    }
    let builder = with_templates("{{version}}", "{{> fragment}}");
    assert!(matches!(builder.render_fragment(&fix), Err(RenderingError::Engine(_))));
    let builder = with_templates("{{version}}", "{{> (lookup this \"type_name\")}}");
    assert!(matches!(builder.render_fragment(&fix), Err(RenderingError::Engine(_))));
    // the one includes the other, which includes itself and is refused
    let builder = with_templates("{{> fragment}}", "{{> fragment}}");
    assert!(matches!(builder.render_title(), Err(RenderingError::Engine(_))));
}

#[test]
fn fails_only_where_a_template_does_not_compile() {
    for (title, fragment) in [("{{> fragment}", "{{> title}}"), ("{{version}}", "{{content}")] {
        let mut config = Config::default();
        config.formats.title = title.to_owned();
        config.formats.fragment = fragment.to_owned();
        assert!(matches!(Builder::new(context(), config, date()), Err(InitError(_))));
    }
    // templates that compile make a builder, whatever they include
    let _ = with_templates("{{> fragment}}", "{{> title}}");
    let _ = with_templates("{{> 'title'}}", "{{> (lookup this \"content\")}}");
}

#[test]
fn builds_a_section_for_each_occurrence_in_the_order() {
    let mut config = Config::default();
    config.order = vec!["fix".to_owned(), "fix".to_owned()];
    let builder = builder(config);
    let sections = builder.collect(vec![entry("2.fix", "Fixed.")]);
    assert_eq!(
        builder.build_sections(&sections).unwrap(),
        "### Fixes\n\n- Fixed. (#2)\n\n### Fixes\n\n- Fixed. (#2)"
    );
}

#[test]
fn writes_into_changelogs() {
    let mut config = Config::default();
    config.start = "<!-- marker -->".to_owned();
    let builder = builder(config);
    let sections = builder.collect(vec![entry("2.fix", "Fixed.")]);
    assert_eq!(
        builder.write(&sections, "A\n<!-- marker -->\nB").unwrap(),
        "A\n<!-- marker -->\n\n## 0.5.0 (2024-01-05)\n\n### Fixes\n\n- Fixed. (#2)\n\nB"
    );
    assert_eq!(
        builder.write(&sections, "A\nB\n").unwrap(),
        "## 0.5.0 (2024-01-05)\n\n### Fixes\n\n- Fixed. (#2)\n\nA\nB\n"
    );
    assert_eq!(
        builder.write(&Sections::new(), "").unwrap(),
        "## 0.5.0 (2024-01-05)\n\nNo significant changes.\n"
    );
}

#[test]
fn builds_the_same_from_the_same() {
    let first = builder(linked());
    let second = builder(linked());
    let mut reversed = entries();
    reversed.reverse();
    let forward = first.build(&first.collect(entries())).unwrap();
    let backward = second.build(&second.collect(reversed)).unwrap();
    assert_eq!(forward, backward);
    assert_eq!(forward, first.build(&first.collect(entries())).unwrap());
}

#[test]
fn collects_paths() {
    let builder = builder(Config::default());
    let found = vec![
        (PathBuf::from("changes/notanumber.fix"), Some("notanumber.fix".to_owned())),
        (PathBuf::from("changes/7.feature"), Some("7.feature".to_owned())),
    ];
    assert_eq!(builder.collect_paths(found), vec![PathBuf::from("changes/7.feature")]);
}

#[test]
fn constructs_errors() {
    let denied = || std::io::Error::new(std::io::ErrorKind::PermissionDenied, "denied");
    let path = PathBuf::from("CHANGELOG.md");

    assert_eq!(ReadFileError::new(denied(), path.clone()).path, path);
    assert_eq!(WriteFileError::new(denied(), path.clone()).path, path);
    assert_eq!(OpenFileError::new(denied(), path.clone()).path, path);

    let error = CollectError::new_read_directory(denied(), path.clone());
    assert_eq!(error.path, path);
    assert!(matches!(error.source, CollectErrorSource::ReadDirectory(_)));
    let error = CollectError::new_iter_directory(denied(), path.clone());
    assert!(matches!(error.source, CollectErrorSource::IterDirectory(_)));

    let error = BuildError::collect(error);
    assert!(matches!(error.source, BuildErrorSource::Collect(_)));
    let error = WriteError::build(error);
    assert!(matches!(error.source, WriteErrorSource::Build(_)));

    let error = WriteError::new_open_file(denied(), path.clone());
    assert!(matches!(error.source, WriteErrorSource::OpenFile(open) if open.path == path));
    let error = WriteError::new_read_file(denied(), path.clone());
    assert!(matches!(error.source, WriteErrorSource::ReadFile(read) if read.path == path));
    let error = WriteError::new_write_file(denied(), path.clone());
    assert!(matches!(error.source, WriteErrorSource::WriteFile(write) if write.path == path));
}
