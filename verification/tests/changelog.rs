use changelogging::changelog::splice;

#[test]
fn writes_after_the_marker() {
    // the marker stays, an empty line follows it, then the entry, an empty
    // line, and what followed the marker, without its leading white space
    assert_eq!(
        splice("A\n<!-- marker -->\nB", "<!-- marker -->", "E"),
        "A\n<!-- marker -->\n\nE\n\nB"
    );
}

#[test]
fn writes_at_the_top_without_marker() {
    assert_eq!(splice("A\nB\n", "<!-- marker -->", "E"), "E\n\nA\nB\n");
    assert_eq!(splice("\n\n  A\nB", "<!-- marker -->", "E"), "E\n\nA\nB");
}

#[test]
fn writes_into_an_empty_changelog() {
    assert_eq!(splice("", "<!-- marker -->", "E"), "E\n");
    assert_eq!(splice(" \n\t\n", "<!-- marker -->", "E"), "E\n");
}

#[test]
fn writes_after_a_marker_at_the_end() {
    assert_eq!(splice("# Changelog\n\nM", "M", "E"), "# Changelog\n\nM\n\nE\n");
    assert_eq!(splice("# Changelog\n\nM\n\n\n", "M", "E"), "# Changelog\n\nM\n\nE\n");
}

#[test]
fn writes_after_the_first_marker_only() {
    assert_eq!(splice("aMbMc", "M", "E"), "aM\n\nE\n\nbMc");
}

#[test]
fn an_empty_marker_stands_at_the_start() {
    assert_eq!(splice("A", "", "E"), "\n\nE\n\nA");
}

#[test]
fn keeps_what_follows_but_for_leading_white_space() {
    assert_eq!(
        splice("head\nSTART\n\n\n  ## 1.0\n\n- old \n\n", "START", "## 2.0\n\n- new"),
        "head\nSTART\n\n## 2.0\n\n- new\n\n## 1.0\n\n- old \n\n"
    );
}

#[test]
fn writes_newer_entries_above_older_ones() {
    let first = splice("# Changelog\n\n<!-- start -->\n", "<!-- start -->", "## 1.0");
    assert_eq!(first, "# Changelog\n\n<!-- start -->\n\n## 1.0\n");
    let second = splice(&first, "<!-- start -->", "## 2.0");
    assert_eq!(second, "# Changelog\n\n<!-- start -->\n\n## 2.0\n\n## 1.0\n");
}

#[test]
fn handles_text_that_is_not_ascii() {
    assert_eq!(splice("é ✓ «m» ü", "«m»", "ñ"), "é ✓ «m»\n\nñ\n\nü");
}
