use barnacle::command::{parse_flag, parse_index, parse_text_parts, VimCommand};

fn parse(s: &str) -> VimCommand {
    VimCommand::from_command(s.to_string())
}

#[test]
fn parses_quit_and_saves() {
    assert_eq!(parse(":q"), VimCommand::Quit);
    assert_eq!(parse(":w"), VimCommand::ProjectSave);
    assert_eq!(parse(":wq"), VimCommand::ProjectSaveAndQuit);
    assert_eq!(parse("  :q   extra "), VimCommand::Quit);
}

#[test]
fn parses_rename_with_normalised_text() {
    assert_eq!(parse(":tmod 2 buy milk"), VimCommand::TaskModify(2, "buy milk".to_string()));
    assert_eq!(parse(":tmod 3   a \t  b  "), VimCommand::TaskModify(3, "a b".to_string()));
}

#[test]
fn rename_without_text_gets_placeholder() {
    assert_eq!(parse(":tmod 2"), VimCommand::TaskModify(2, "Invalid".to_string()));
}

#[test]
fn unknown_and_empty_lines_are_no_ops() {
    assert_eq!(parse(":bogus"), VimCommand::NoOp);
    assert_eq!(parse(""), VimCommand::NoOp);
    assert_eq!(parse("   "), VimCommand::NoOp);
    assert_eq!(parse("q"), VimCommand::NoOp);
}

#[test]
fn malformed_arguments_are_no_ops() {
    assert_eq!(parse(":tmod"), VimCommand::NoOp);
    assert_eq!(parse(":tmod two words"), VimCommand::NoOp);
    assert_eq!(parse(":tdel"), VimCommand::NoOp);
    assert_eq!(parse(":tdel -1"), VimCommand::NoOp);
    assert_eq!(parse(":tp 1"), VimCommand::NoOp);
    assert_eq!(parse(":tp 1 x"), VimCommand::NoOp);
    assert_eq!(parse(":popen"), VimCommand::NoOp);
    assert_eq!(parse(":showfinished yes"), VimCommand::NoOp);
}

#[test]
fn parses_task_and_project_commands() {
    assert_eq!(parse(":tdel 4"), VimCommand::TaskDelete(4));
    assert_eq!(parse(":tp 1 7"), VimCommand::TaskSetPriority(1, 7));
    assert_eq!(parse(":popen work"), VimCommand::ProjectOpen("work".to_string()));
    assert_eq!(parse(":pnew home more"), VimCommand::ProjectNew("home".to_string()));
}

#[test]
fn parses_display_toggles() {
    assert_eq!(parse(":showfinished true"), VimCommand::ShowFinished(true));
    assert_eq!(parse(":showtoday false"), VimCommand::ShowToday(false));
}

#[test]
fn from_tokens_reads_given_words() {
    let words = vec![":tmod".to_string(), "0".to_string(), "x".to_string()];
    assert_eq!(VimCommand::from_tokens(&words), VimCommand::TaskModify(0, "x".to_string()));
}

#[test]
fn reads_decimal_indices() {
    assert_eq!(parse_index("0"), Some(0));
    assert_eq!(parse_index("+12"), Some(12));
    assert_eq!(parse_index("007"), Some(7));
    assert_eq!(parse_index(""), None);
    assert_eq!(parse_index("+"), None);
    assert_eq!(parse_index("12a"), None);
    assert_eq!(parse_index("-3"), None);
    assert_eq!(parse_index("18446744073709551615"), Some(usize::MAX));
    assert_eq!(parse_index("18446744073709551616"), None);
    assert_eq!(parse_index("99999999999999999999999"), None);
}

#[test]
fn reads_flags() {
    assert_eq!(parse_flag("true"), Some(true));
    assert_eq!(parse_flag("false"), Some(false));
    assert_eq!(parse_flag("True"), None);
}

#[test]
fn joins_text_parts() {
    let words = vec!["a".to_string(), "b".to_string(), "c".to_string()];
    assert_eq!(parse_text_parts(&words, 1), Some("b c".to_string()));
    assert_eq!(parse_text_parts(&words, 0), Some("a b c".to_string()));
    assert_eq!(parse_text_parts(&words, 3), None);
    assert_eq!(parse_text_parts(&words, 9), None);
    let gaps = vec!["".to_string(), "x".to_string()];
    assert_eq!(parse_text_parts(&gaps, 0), Some("x".to_string()));
}
