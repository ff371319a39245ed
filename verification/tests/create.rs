use changelogging::create::{create, PLACEHOLDER};
use changelogging::fragment::ParseErrorSource;

#[test]
fn creates_with_content() {
    assert_eq!(create("13.feature.md", Some("Added cool features!")).unwrap(), "Added cool features!\n");
    assert_eq!(create("~note.internal", Some("")).unwrap(), "\n");
}

#[test]
fn creates_with_the_placeholder() {
    assert_eq!(PLACEHOLDER, "Add the fragment content here.");
    assert_eq!(create("22.change.md", None).unwrap(), "Add the fragment content here.\n");
}

#[test]
fn refuses_names_that_are_not_names_of_fragments() {
    let error = create("change.md", Some("Changed.")).unwrap_err();
    assert_eq!(error.name, "change.md");
    assert!(matches!(error.source, ParseErrorSource::InvalidId(invalid) if invalid.string == "change"));

    let error = create("22", None).unwrap_err();
    assert!(matches!(error.source, ParseErrorSource::UnexpectedEof(_)));
}
