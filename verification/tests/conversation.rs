use talbot::conversation::{command_message, status_text, title, titled_text, TitleError, MAX_TITLE_CHARS};

#[test]
fn validates_short_single_line_titles() {
    assert_eq!(title("  Finance Page  ").unwrap(), "Finance Page");
    assert!(title("").is_err());
    assert!(title("Finance\nPage").is_err());
    assert!(title(&"x".repeat(MAX_TITLE_CHARS + 1)).is_err());
}

#[test]
fn puts_titles_after_status_markers() {
    assert_eq!(
        status_text("🚨 Action needed", Some("Finance Page"), "Choose one."),
        "🚨 Action needed\n\nFinance Page\n\nChoose one."
    );
}

#[test]
fn title_errors_name_the_broken_rule() {
    assert_eq!(title("   "), Err(TitleError::Empty));
    assert_eq!(title(&"x".repeat(81)), Err(TitleError::TooLong));
    assert_eq!(title("a\rb"), Err(TitleError::MultiLine));
    assert_eq!(title(&"é".repeat(80)).unwrap().chars().count(), 80);
    assert_eq!(TitleError::Empty.message(), "conversation_title must not be empty");
    assert_eq!(TitleError::TooLong.message(), "conversation_title must be at most 80 characters");
    assert_eq!(TitleError::MultiLine.message(), "conversation_title must be a single line");
}

#[test]
fn a_title_is_its_own_title() {
    let once = title("\t Release notes \u{3000}").unwrap();
    assert_eq!(once, "Release notes");
    assert_eq!(title(once).unwrap(), once);
}

#[test]
fn titled_text_trims_the_message_only() {
    assert_eq!(titled_text("T", "  hello \n"), "T\n\nhello");
    assert_eq!(status_text("S", None, " body "), "S\n\nbody");
}

#[test]
fn send_joins_words_under_the_title() {
    let words = vec!["build".to_string(), "is".to_string(), "green".to_string()];
    assert_eq!(command_message(None, &words).unwrap(), "build is green");
    assert_eq!(command_message(Some(" CI "), &words).unwrap(), "CI\n\nbuild is green");
    assert_eq!(command_message(Some(""), &words), Err(TitleError::Empty));
}
