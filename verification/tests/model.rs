use coral::{Checker, Entry, Error, Level, Message, Reason, Span};

fn plain_span(file: &str) -> Span {
    Span {
        file_name: file.to_string(),
        byte_start: 4,
        byte_end: 9,
        line_start: 2,
        line_end: 2,
        column_start: 5,
        column_end: 10,
        is_primary: true,
        text: Vec::new(),
        label: None,
        suggested_replacement: None,
        suggestion_applicability: None,
        expansion: None,
    }
}

fn plain_message(level: Level) -> Message {
    Message {
        message: "something to say".to_string(),
        code: None,
        level,
        spans: Some(vec![plain_span("src/main.rs")]),
        children: None,
        rendered: Some("the full render".to_string()),
    }
}

fn plain_entry(reason: Reason, message: Option<Message>) -> Entry {
    Entry {
        reason,
        package_id: "demo 0.1.0".to_string(),
        target: None,
        message,
        profile: None,
        features: None,
        filenames: None,
        executable: None,
        fresh: None,
        color: true,
    }
}

#[test]
fn entry_kind_checks_follow_the_reason() {
    let message = plain_entry(Reason::CompilerMessage, Some(plain_message(Level::Warning)));
    assert!(message.is_message());
    assert!(!message.is_artifact());
    let artifact = plain_entry(Reason::CompilerArtifact, None);
    assert!(artifact.is_artifact());
    assert!(!artifact.is_message());
    let script = plain_entry(Reason::BuildScriptExecuted, None);
    assert!(!script.is_message());
    assert!(!script.is_artifact());
}

#[test]
fn entry_rendered_hands_out_the_render_if_any() {
    let with = plain_entry(Reason::CompilerMessage, Some(plain_message(Level::Warning)));
    assert_eq!(with.rendered(), Some("the full render"));
    let mut message = plain_message(Level::Warning);
    message.rendered = None;
    let without = plain_entry(Reason::CompilerMessage, Some(message));
    assert_eq!(without.rendered(), None);
    let silent = plain_entry(Reason::CompilerArtifact, None);
    assert_eq!(silent.rendered(), None);
}

#[test]
fn level_is_some_and_is_none_split_on_empty() {
    assert!(Level::Empty.is_none());
    assert!(!Level::Empty.is_some());
    for level in [Level::Note, Level::Help, Level::Warning, Level::Error] {
        assert!(level.is_some());
        assert!(!level.is_none());
    }
}

#[test]
fn span_accessors_hand_out_position_and_file() {
    let span = plain_span("src/lib.rs");
    assert_eq!(span.line(), (2, 5));
    assert_eq!(span.file_name_string(), "src/lib.rs");
}

#[test]
fn checker_default_is_check() {
    assert_eq!(Checker::default(), Checker::Check);
}

#[test]
fn checker_builds_the_cargo_argument_list() {
    let extra = vec!["--all".to_string(), "--package".to_string(), "demo".to_string()];
    let args = Checker::Check.cargo_args(&extra);
    assert_eq!(
        args,
        vec!["check", "--message-format", "json", "--all", "--package", "demo"]
    );
    let args = Checker::Clippy.cargo_args(&Vec::new());
    assert_eq!(args, vec!["clippy", "--message-format", "json"]);
}

#[test]
fn error_text_names_the_failure() {
    assert_eq!(Error::Cargo.text(), "Unable to run cargo");
    assert_eq!(Error::IO("file vanished".to_string()).text(), "file vanished");
}

#[test]
fn unroll_lists_the_tree_depth_first_with_depths() {
    let grandchild = Message {
        message: "grandchild".to_string(),
        code: None,
        level: Level::Help,
        spans: None,
        children: None,
        rendered: None,
    };
    let first_child = Message {
        message: "first child".to_string(),
        code: None,
        level: Level::Note,
        spans: None,
        children: Some(vec![grandchild]),
        rendered: None,
    };
    let second_child = Message {
        message: "second child".to_string(),
        code: None,
        level: Level::Note,
        spans: None,
        children: None,
        rendered: None,
    };
    let root = Message {
        message: "root".to_string(),
        code: None,
        level: Level::Warning,
        spans: None,
        children: Some(vec![first_child, second_child]),
        rendered: None,
    };
    let pairs = root.unroll();
    let got: Vec<(usize, &str)> = pairs
        .iter()
        .map(|(d, m)| (*d, m.message.as_str()))
        .collect();
    assert_eq!(
        got,
        vec![
            (0, "root"),
            (1, "first child"),
            (2, "grandchild"),
            (1, "second child"),
        ]
    );
}

#[test]
fn replacement_span_searches_depth_first() {
    let mut deep_span = plain_span("deep.rs");
    deep_span.suggested_replacement = Some("deep".to_string());
    let mut late_span = plain_span("late.rs");
    late_span.suggested_replacement = Some("late".to_string());
    let child = Message {
        message: "child".to_string(),
        code: None,
        level: Level::Help,
        spans: Some(vec![deep_span]),
        children: None,
        rendered: None,
    };
    let sibling = Message {
        message: "sibling".to_string(),
        code: None,
        level: Level::Help,
        spans: Some(vec![late_span]),
        children: None,
        rendered: None,
    };
    let root = Message {
        message: "root".to_string(),
        code: None,
        level: Level::Warning,
        spans: Some(vec![plain_span("root.rs")]),
        children: Some(vec![child, sibling]),
        rendered: None,
    };
    let found = root.replacement_span().expect("a child suggests a fix");
    assert_eq!(found.suggested_replacement.as_deref(), Some("deep"));

    let bare = Message {
        message: "bare".to_string(),
        code: None,
        level: Level::Warning,
        spans: Some(vec![plain_span("root.rs")]),
        children: None,
        rendered: None,
    };
    assert!(bare.replacement_span().is_none());
}

#[test]
fn own_span_replacement_wins_over_children() {
    let mut own = plain_span("own.rs");
    own.suggested_replacement = Some("own".to_string());
    let mut child_span = plain_span("child.rs");
    child_span.suggested_replacement = Some("child".to_string());
    let child = Message {
        message: "child".to_string(),
        code: None,
        level: Level::Help,
        spans: Some(vec![child_span]),
        children: None,
        rendered: None,
    };
    let root = Message {
        message: "root".to_string(),
        code: None,
        level: Level::Warning,
        spans: Some(vec![plain_span("first.rs"), own]),
        children: Some(vec![child]),
        rendered: None,
    };
    let found = root.replacement_span().expect("the root suggests a fix");
    assert_eq!(found.suggested_replacement.as_deref(), Some("own"));
}
