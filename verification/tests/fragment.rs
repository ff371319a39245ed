use std::path::PathBuf;

use changelogging::fragment::{
    collect_paths, is_valid_file_name, validate, validate_str, Entry, ErrorSource, Fragment, Id,
    InvalidIdError, ParseError, ParseErrorSource, Partial, UnexpectedEofError, STRING_PREFIX,
};

fn entry(name: &str, contents: &str) -> Entry {
    Entry {
        path: PathBuf::from("changes").join(name),
        name: Some(name.to_owned()),
        contents: Ok(contents.to_owned()),
    }
}

fn unreadable() -> std::io::Error {
    std::io::Error::new(std::io::ErrorKind::PermissionDenied, "denied")
}

#[test]
fn constructs_ids() {
    assert_eq!(Id::integer(13), Id::Integer(13));
    assert_eq!(Id::owned("note".to_owned()), Id::String("note".to_owned()));
    assert_eq!(Id::borrowed("note"), Id::String("note".to_owned()));
    assert!(Id::integer(13).is_integer());
    assert!(!Id::integer(13).is_string());
    assert!(Id::borrowed("note").is_string());
    assert!(!Id::borrowed("note").is_integer());
}

#[test]
fn parses_ids() {
    assert_eq!(Id::parse("13").unwrap(), Id::Integer(13));
    assert_eq!(Id::parse("+13").unwrap(), Id::Integer(13));
    assert_eq!(Id::parse("~note").unwrap(), Id::String("note".to_owned()));
    assert_eq!(Id::parse("~").unwrap(), Id::String(String::new()));
    assert_eq!(Id::parse("~~13").unwrap(), Id::String("~13".to_owned()));
    assert_eq!("13".parse::<Id>().unwrap(), Id::Integer(13));
    assert_eq!(STRING_PREFIX, '~');
}

#[test]
fn rejects_invalid_ids() {
    for string in ["", "note", "-1", "1.5", "4294967296", " 1", "13~"] {
        let error = Id::parse(string).unwrap_err();
        assert_eq!(error.string, string);
    }
    assert_eq!(InvalidIdError::new("x".to_owned()).string, "x");
}

#[test]
fn parses_partial_fragments() {
    let partial = Partial::parse("13.feature.md").unwrap();
    assert_eq!(partial, Partial::borrowed(Id::integer(13), "feature"));

    let partial = Partial::parse("22.change").unwrap();
    assert_eq!(partial, Partial::owned(Id::integer(22), "change".to_owned()));

    let partial = Partial::parse("~note.internal").unwrap();
    assert_eq!(partial, Partial::new(Id::borrowed("note"), "internal".to_owned()));

    let partial: Partial = "7.Fix.tar.gz".parse().unwrap();
    assert_eq!(partial.id, Id::Integer(7));
    assert_eq!(partial.kind, "Fix");
}

#[test]
fn parses_partial_fragments_with_empty_ids() {
    assert_eq!(Partial::parse("~.fix").unwrap(), Partial::borrowed(Id::borrowed(""), "fix"));
}

#[test]
fn types_are_never_empty() {
    for name in ["1.", "1..md", "~note.", "x.", ".", "..", "1..", "notanumber..fix"] {
        let error = Partial::parse(name).unwrap_err();
        assert_eq!(error.name, name);
        assert!(matches!(error.source, ParseErrorSource::UnexpectedEof(_)), "{name:?}");
        assert!(validate(name).is_err());
        assert!(!is_valid_file_name(&Some(name.to_owned())));
        assert!(Fragment::load(entry(name, "text")).is_err());
    }
    for name in ["1.a", "1. ", "1.a.", "~.~"] {
        assert!(!Partial::parse(name).unwrap().kind.is_empty(), "{name:?}");
    }
}

#[test]
fn reports_missing_types() {
    for name in ["13", "~note", "+7"] {
        let error = Partial::parse(name).unwrap_err();
        assert_eq!(error.name, name);
        assert!(matches!(error.source, ParseErrorSource::UnexpectedEof(UnexpectedEofError)));
    }
}

#[test]
fn reports_invalid_ids() {
    let error = Partial::parse("notanumber.fix").unwrap_err();
    assert_eq!(error.name, "notanumber.fix");
    match error.source {
        ParseErrorSource::InvalidId(invalid) => assert_eq!(invalid.string, "notanumber"),
        ParseErrorSource::UnexpectedEof(_) => panic!("the ID is invalid"),
    }

    let error = Partial::parse(".fix").unwrap_err();
    match error.source {
        ParseErrorSource::InvalidId(invalid) => assert_eq!(invalid.string, ""),
        ParseErrorSource::UnexpectedEof(_) => panic!("the ID is invalid"),
    }

    let error = Partial::parse("-1.fix.md").unwrap_err();
    assert!(matches!(error.source, ParseErrorSource::InvalidId(invalid) if invalid.string == "-1"));
}

#[test]
fn reports_names_of_one_part_before_their_ids() {
    // there are two parts before the first is read as an ID
    for name in ["abc", "notanumber", "", "-1", "~"] {
        let error = Partial::parse(name).unwrap_err();
        assert_eq!(error.name, name);
        assert!(matches!(error.source, ParseErrorSource::UnexpectedEof(_)), "{name:?}");
        let error = name.parse::<Partial>().unwrap_err();
        assert!(matches!(error.source, ParseErrorSource::UnexpectedEof(_)), "{name:?}");
    }
}

#[test]
fn errors_say_what_went_wrong() {
    assert_eq!(
        InvalidIdError::new("x".to_owned()).message(),
        "failed to parse `x` into fragment ID"
    );
    assert_eq!(InvalidIdError::new(String::new()).message(), "failed to parse `` into fragment ID");
    assert_eq!(UnexpectedEofError.message(), "unexpected EOF");
    assert_eq!(Partial::parse("x.fix").unwrap_err().message(), "failed to parse `x.fix`");
    assert_eq!(Partial::parse("13").unwrap_err().message(), "failed to parse `13`");
}

#[test]
fn constructs_parse_errors() {
    let error = ParseError::new_invalid_id("x".to_owned(), "x.fix".to_owned());
    assert_eq!(error.name, "x.fix");
    assert!(matches!(error.source, ParseErrorSource::InvalidId(invalid) if invalid.string == "x"));

    let error = ParseError::new_unexpected_eof("13".to_owned());
    assert_eq!(error.name, "13");
    assert!(matches!(error.source, ParseErrorSource::UnexpectedEof(_)));

    let error = ParseError::invalid_id(InvalidIdError::new("y".to_owned()), "y.z".to_owned());
    assert!(matches!(error.source, ParseErrorSource::InvalidId(_)));

    let error = ParseError::unexpected_eof(UnexpectedEofError, "1".to_owned());
    assert!(matches!(error.source, ParseErrorSource::UnexpectedEof(_)));

    let source = ParseErrorSource::UnexpectedEof(UnexpectedEofError);
    assert_eq!(ParseError::new(source, "2".to_owned()).name, "2");
}

#[test]
fn validates_names() {
    assert!(validate("13.feature.md").is_ok());
    assert!(validate_str("~note.internal").is_ok());
    assert!(validate("notanumber.fix").is_err());
    assert!(validate_str("13").is_err());
    assert_eq!(validate("x.y").unwrap_err().name, "x.y");
}

#[test]
fn loads_fragments() {
    let fragment = Fragment::load(entry("13.feature.md", "\n  Added cool features!  \n\n")).unwrap();
    assert_eq!(fragment.partial, Partial::borrowed(Id::integer(13), "feature"));
    assert_eq!(fragment.content, "Added cool features!");
    assert_eq!(fragment.content(), "Added cool features!");
    assert_eq!(fragment.partial(), &Partial::borrowed(Id::integer(13), "feature"));

    let fragment = Fragment::load(entry("~note.internal", "Just a note.")).unwrap();
    assert_eq!(
        fragment,
        Fragment::borrowed(Partial::borrowed(Id::borrowed("note"), "internal"), "Just a note.")
    );
}

#[test]
fn constructs_fragments() {
    let partial = Partial::borrowed(Id::integer(1), "fix");
    let fragment = Fragment::new(partial.clone(), "Fixed.".to_owned());
    assert_eq!(fragment, Fragment::owned(partial.clone(), "Fixed.".to_owned()));
    assert_eq!(fragment, Fragment::borrowed(partial, "Fixed."));
}

#[test]
fn reports_why_loading_failed() {
    let path = PathBuf::from("changes/odd");

    let error = Fragment::load(Entry {
        path: path.clone(),
        name: None,
        contents: Ok("text".to_owned()),
    })
    .unwrap_err();
    assert_eq!(error.path, path);
    assert!(matches!(error.source, ErrorSource::InvalidUtf8(_)));

    let error = Fragment::load(entry("notanumber.fix", "text")).unwrap_err();
    assert_eq!(error.path, PathBuf::from("changes/notanumber.fix"));
    assert!(matches!(error.source, ErrorSource::Parse(parse) if parse.name == "notanumber.fix"));

    let error = Fragment::load(Entry {
        path: PathBuf::from("changes/1.fix"),
        name: Some("1.fix".to_owned()),
        contents: Err(unreadable()),
    })
    .unwrap_err();
    assert_eq!(error.path, PathBuf::from("changes/1.fix"));
    match error.source {
        ErrorSource::Read(read) => {
            assert_eq!(read.0.kind(), std::io::ErrorKind::PermissionDenied)
        }
        _ => panic!("reading failed"),
    }

    // the name is looked at before the contents
    let error = Fragment::load(Entry {
        path: PathBuf::from("changes/x"),
        name: Some("x".to_owned()),
        contents: Err(unreadable()),
    })
    .unwrap_err();
    assert!(matches!(error.source, ErrorSource::Parse(_)));
}

#[test]
fn orders_fragments() {
    let fragment = |id: Id, kind: &str, content: &str| {
        Fragment::borrowed(Partial::borrowed(id, kind), content)
    };
    let fragments = [
        fragment(Id::integer(1), "fix", "b"),
        fragment(Id::integer(1), "fix", "a"),
        fragment(Id::integer(1), "feature", "z"),
        fragment(Id::integer(2), "a", ""),
        fragment(Id::integer(10), "fix", "a"),
        fragment(Id::borrowed("10"), "fix", "a"),
        fragment(Id::borrowed("9"), "fix", "a"),
        fragment(Id::borrowed(""), "fix", "a"),
        fragment(Id::borrowed("note"), "a", "a"),
        fragment(Id::integer(u32::MAX), "", ""),
    ];
    for left in &fragments {
        for right in &fragments {
            assert_eq!(left.precedes(right), left <= right, "{left:?} {right:?}");
            assert_eq!(left.partial.precedes(&right.partial), left.partial <= right.partial);
            assert_eq!(left.partial.id.precedes(&right.partial.id), left.partial.id <= right.partial.id);
        }
    }
    // integers come before strings, and are ordered by value
    assert!(Id::integer(u32::MAX).precedes(&Id::borrowed("")));
    assert!(!Id::borrowed("0").precedes(&Id::integer(1)));
    assert!(Id::integer(9).precedes(&Id::integer(10)));
    assert!(Id::borrowed("10").precedes(&Id::borrowed("9")));
}

#[test]
fn keeps_the_paths_of_fragments() {
    let found = vec![
        (PathBuf::from("changes/13.feature.md"), Some("13.feature.md".to_owned())),
        (PathBuf::from("changes/notanumber.fix"), Some("notanumber.fix".to_owned())),
        (PathBuf::from("changes/odd"), None),
        (PathBuf::from("changes/~note.internal"), Some("~note.internal".to_owned())),
        (PathBuf::from("changes/README"), Some("README".to_owned())),
        (PathBuf::from("changes/7.fix"), Some("7.fix".to_owned())),
    ];
    assert_eq!(
        collect_paths(found),
        vec![
            PathBuf::from("changes/13.feature.md"),
            PathBuf::from("changes/~note.internal"),
            PathBuf::from("changes/7.fix"),
        ]
    );
    assert_eq!(collect_paths(Vec::new()), Vec::<PathBuf>::new());
}

#[test]
fn paths_and_loading_agree() {
    for name in ["13.feature.md", "notanumber.fix", "7", "~a.b", "", ".", "1."] {
        let kept = is_valid_file_name(&Some(name.to_owned()));
        assert_eq!(kept, Fragment::load(entry(name, "text")).is_ok(), "{name:?}");
        assert_eq!(kept, validate(name).is_ok());
    }
    assert!(!is_valid_file_name(&None));
}
