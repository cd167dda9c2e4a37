use coral::{command_exits, is_blank, parse_command, parse_usize, Command};

#[test]
fn parse_command_recognizes_help() {
    assert_eq!(parse_command(b"help"), Command::Help);
    assert_eq!(parse_command(b"  help  "), Command::Help);
}

#[test]
fn parse_command_recognizes_exit_words() {
    assert_eq!(parse_command(b"quit"), Command::Quit);
    assert_eq!(parse_command(b"exit"), Command::Quit);
    assert_eq!(parse_command(b"q"), Command::Quit);
    assert_eq!(parse_command(b" quit \t"), Command::Quit);
}

#[test]
fn parse_command_recognizes_fix_with_index() {
    assert_eq!(parse_command(b"fix 3"), Command::Fix(3));
    assert_eq!(parse_command(b"fix   12  trailing words"), Command::Fix(12));
}

#[test]
fn parse_command_reports_fix_without_index() {
    // A bare `fix` loses its trailing whitespace to trimming, so it never
    // matches the `fix ` prefix and falls through to an unknown command.
    assert_eq!(parse_command(b"fix"), Command::Unknown);
    assert_eq!(parse_command(b"fix  "), Command::Unknown);
}

#[test]
fn parse_command_reports_fix_with_bad_index() {
    assert_eq!(parse_command(b"fix x"), Command::FixBadIndex);
    assert_eq!(parse_command(b"fix 12a"), Command::FixBadIndex);
    assert_eq!(
        parse_command(b"fix 99999999999999999999999999"),
        Command::FixBadIndex
    );
}

#[test]
fn parse_command_reads_bare_number_as_show() {
    assert_eq!(parse_command(b"0"), Command::Show(0));
    assert_eq!(parse_command(b" 17 "), Command::Show(17));
}

#[test]
fn parse_command_rejects_everything_else() {
    assert_eq!(parse_command(b"fixit"), Command::Unknown);
    assert_eq!(parse_command(b"17b"), Command::Unknown);
    assert_eq!(parse_command(b"-1"), Command::Unknown);
    assert_eq!(parse_command(b""), Command::Unknown);
    assert_eq!(
        parse_command(b"99999999999999999999999999"),
        Command::Unknown
    );
}

#[test]
fn parse_usize_reads_digits_and_rejects_the_rest() {
    assert_eq!(parse_usize(b"0"), Some(0));
    assert_eq!(parse_usize(b"00042"), Some(42));
    assert_eq!(parse_usize(b"18446744073709551615"), Some(usize::MAX));
    assert_eq!(parse_usize(b"18446744073709551616"), None);
    assert_eq!(parse_usize(b""), None);
    assert_eq!(parse_usize(b"1 2"), None);
    assert_eq!(parse_usize(b"+1"), None);
}

#[test]
fn command_exits_only_on_exit_words() {
    assert!(command_exits(b"quit"));
    assert!(command_exits(b" q "));
    assert!(command_exits(b"exit"));
    assert!(!command_exits(b"help"));
    assert!(!command_exits(b"3"));
    assert!(!command_exits(b"quit now"));
}

#[test]
fn is_blank_sees_only_whitespace() {
    assert!(is_blank(b""));
    assert!(is_blank(b" \t "));
    assert!(!is_blank(b" x "));
}

#[test]
fn help_text_names_every_command() {
    let text = coral::help_text();
    assert!(text.contains("<index>      expand the message at the index"));
    assert!(text.contains("fix <index>  apply the compiler-suggested fix, if there is one"));
    assert!(text.contains("quit         quit watching"));
    assert!(text.contains("help         display this message"));
}
