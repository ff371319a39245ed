use changelogging::config::{
    default_order, default_types, extend_types, into_order, Config, Formats, Indents, Level, Levels,
    Paths, Positive, Types, DEFAULT_BULLET, DEFAULT_DIRECTORY, DEFAULT_ENTRY, DEFAULT_FRAGMENT,
    DEFAULT_HEADING, DEFAULT_OUTPUT, DEFAULT_SECTION, DEFAULT_START, DEFAULT_TITLE, DEFAULT_WRAP,
};
use changelogging::context::Context;
use changelogging::options::Options;
use changelogging::workspace::{PyProject, Tools, Workspace};

const ORDER: [&str; 7] =
    ["security", "feature", "change", "fix", "deprecation", "removal", "internal"];

const TITLES: [&str; 7] =
    ["Security", "Features", "Changes", "Fixes", "Deprecations", "Removals", "Internal"];

#[test]
fn defaults() {
    let config = Config::default();
    assert_eq!(config.paths().directory, "changes");
    assert_eq!(config.paths().output, "CHANGELOG.md");
    assert_eq!(config.start, "<!-- changelogging: start -->");
    assert_eq!(config.levels().entry.get(), 2);
    assert_eq!(config.levels().section.get(), 3);
    assert_eq!(config.indents().heading, '#');
    assert_eq!(config.indents().bullet, '-');
    assert_eq!(config.formats().title, "{{version}} ({{date}})");
    assert_eq!(config.formats().fragment, "{{content}} (#{{id}})");
    assert_eq!(config.wrap.get(), 100);
    assert_eq!(config.order(), &ORDER.map(str::to_owned).to_vec());
    assert_eq!(config.types().len(), 7);
    for (name, title) in ORDER.iter().zip(TITLES) {
        assert_eq!(config.types().get(name).unwrap(), title);
    }
}

#[test]
fn default_constants() {
    assert_eq!(Paths::default(), Paths {
        directory: DEFAULT_DIRECTORY.to_owned(),
        output: DEFAULT_OUTPUT.to_owned(),
    });
    assert_eq!(Levels::default(), Levels {
        entry: Level::new(DEFAULT_ENTRY).unwrap(),
        section: Level::new(DEFAULT_SECTION).unwrap(),
    });
    assert_eq!(Indents::default(), Indents { heading: DEFAULT_HEADING, bullet: DEFAULT_BULLET });
    assert_eq!(Formats::default(), Formats {
        title: DEFAULT_TITLE.to_owned(),
        fragment: DEFAULT_FRAGMENT.to_owned(),
    });
    assert_eq!(Config::default().start, DEFAULT_START);
    assert_eq!(Config::default().wrap.get(), DEFAULT_WRAP);
}

#[test]
fn default_order_and_types() {
    assert_eq!(default_order(), ORDER.to_vec());
    assert_eq!(into_order(default_order()), ORDER.map(str::to_owned).to_vec());
    assert_eq!(into_order(vec!["b", "a", "b"]), vec!["b".to_owned(), "a".to_owned(), "b".to_owned()]);
    let types = default_types();
    assert_eq!(types.len(), 7);
    assert_eq!(types.get("fix").unwrap(), "Fixes");
    assert!(types.get("Fix").is_none());
}

#[test]
fn positive_numbers() {
    assert!(Positive::new(0).is_none());
    assert_eq!(Positive::new(1).unwrap().get(), 1);
    assert_eq!(Positive::new(usize::MAX).unwrap().get(), usize::MAX);
}

#[test]
fn types_extend_the_defaults() {
    let mut config = Config::default();
    config.types = Types::new();
    config.types.insert("fix".to_owned(), "Bug fixes".to_owned());
    config.types.insert("docs".to_owned(), "Documentation".to_owned());

    let types = config.types_with_defaults();
    assert_eq!(types.len(), 8);
    assert_eq!(types.get("fix").unwrap(), "Bug fixes");
    assert_eq!(types.get("docs").unwrap(), "Documentation");
    assert_eq!(types.get("feature").unwrap(), "Features");
    assert_eq!(config.types().len(), 2);
}

#[test]
fn extends_types() {
    let mut types = Types::new();
    types.insert("a".to_owned(), "A".to_owned());
    types.insert("b".to_owned(), "B".to_owned());
    let mut extension = Types::new();
    extension.insert("b".to_owned(), "Bee".to_owned());
    extension.insert("c".to_owned(), "C".to_owned());
    extend_types(&mut types, &extension);
    assert_eq!(types.len(), 3);
    assert_eq!(types.get("a").unwrap(), "A");
    assert_eq!(types.get("b").unwrap(), "Bee");
    assert_eq!(types.get("c").unwrap(), "C");
}

#[test]
fn options_without_values_give_the_defaults() {
    let config = Options::default().into_config();
    let default = Config::default();
    assert_eq!(config.paths, default.paths);
    assert_eq!(config.start, default.start);
    assert_eq!(config.levels, default.levels);
    assert_eq!(config.indents, default.indents);
    assert_eq!(config.formats, default.formats);
    assert_eq!(config.wrap, default.wrap);
    assert_eq!(config.order, default.order);
    assert_eq!(config.types.len(), 7);
}

#[test]
fn options_override_the_defaults() {
    let mut options = Options::default();
    options.paths = Some(changelogging::options::Paths {
        directory: Some("news".to_owned()),
        output: None,
    });
    options.start = Some("<!-- start -->".to_owned());
    options.levels = Some(changelogging::options::Levels { entry: None, section: Level::new(4) });
    options.indents = Some(changelogging::options::Indents { heading: Some('='), bullet: None });
    options.formats = Some(changelogging::options::Formats {
        title: None,
        fragment: Some("{{content}}".to_owned()),
    });
    options.wrap = Level::new(80);
    options.order = Some(vec!["fix".to_owned()]);
    let mut types = Types::new();
    types.insert("fix".to_owned(), "Bug fixes".to_owned());
    options.types = Some(types);

    let config = options.into_config();
    assert_eq!(config.paths.directory, "news");
    assert_eq!(config.paths.output, "CHANGELOG.md");
    assert_eq!(config.start, "<!-- start -->");
    assert_eq!(config.levels.entry.get(), 2);
    assert_eq!(config.levels.section.get(), 4);
    assert_eq!(config.indents.heading, '=');
    assert_eq!(config.indents.bullet, '-');
    assert_eq!(config.formats.title, "{{version}} ({{date}})");
    assert_eq!(config.formats.fragment, "{{content}}");
    assert_eq!(config.wrap.get(), 80);
    assert_eq!(config.order, vec!["fix".to_owned()]);
    assert_eq!(config.types.len(), 1);
    assert_eq!(config.types_with_defaults().get("fix").unwrap(), "Bug fixes");
    assert_eq!(config.types_with_defaults().len(), 7);
}

#[test]
fn workspaces() {
    let context = Context {
        name: "changelogging".to_owned(),
        version: "0.5.0".to_owned(),
        url: "https://example.com".to_owned(),
    };
    let workspace = Workspace::new(context.clone(), Config::default());
    assert_eq!(workspace.context, context);
    assert_eq!(workspace.config.start, DEFAULT_START);

    let project = PyProject { tool: Some(Tools { changelogging: Some(workspace) }) };
    assert_eq!(project.into_workspace().unwrap().context, context);
    assert!(PyProject { tool: Some(Tools { changelogging: None }) }.into_workspace().is_none());
    assert!(PyProject { tool: None }.into_workspace().is_none());
}
