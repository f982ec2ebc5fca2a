use vibe_lox::repl::{command_action, complete_commands, is_bare_expression, read_input, ReplCommand, ReplInput};

#[test]
fn bare_expression_detection() {
    assert!(is_bare_expression("1 + 2"));
    assert!(is_bare_expression("x"));
    assert!(!is_bare_expression("var x = 1;"));
    assert!(!is_bare_expression("print 1;"));
    assert!(!is_bare_expression("{ var x = 1; }"));
    assert!(!is_bare_expression("if (true) print 1;"));
    assert!(!is_bare_expression("fun foo() {}"));
}

#[test]
fn bare_expression_keyword_without_terminator() {
    assert!(!is_bare_expression("print 1"));
    assert!(!is_bare_expression("  return x"));
    assert!(is_bare_expression("printer"));
    assert!(is_bare_expression(""));
}

#[test]
fn handle_command_quit_returns_true() {
    assert!(command_action("\\quit").ends_session());
    assert!(command_action("\\q").ends_session());
}

#[test]
fn handle_command_non_quit_returns_false() {
    assert!(!command_action("\\help").ends_session());
    assert!(!command_action("\\h").ends_session());
    assert!(!command_action("\\clear").ends_session());
    assert!(!command_action("\\c").ends_session());
    assert!(!command_action("\\version").ends_session());
    assert!(!command_action("\\v").ends_session());
    assert!(!command_action("\\unknown").ends_session());
}

#[test]
fn handle_command_quit_with_args_still_exits() {
    assert!(command_action("\\quit").ends_session());
    assert!(command_action("\\q").ends_session());
}

#[test]
fn command_action_names() {
    assert_eq!(command_action("\\h"), ReplCommand::Help);
    assert_eq!(command_action("\\clear"), ReplCommand::Clear);
    assert_eq!(command_action("\\v"), ReplCommand::Version);
    assert_eq!(command_action("\\x"), ReplCommand::Unknown);
}

#[test]
fn complete_commands_all_on_backslash_only() {
    assert_eq!(complete_commands("\\").len(), 4);
}

#[test]
fn complete_commands_single_match() {
    let matches = complete_commands("\\q");
    assert_eq!(matches.len(), 1);
    assert_eq!(matches[0].replacement, "\\quit");
}

#[test]
fn complete_commands_short_forms_expand_to_long() {
    assert_eq!(complete_commands("\\h")[0].replacement, "\\help");
    assert_eq!(complete_commands("\\c")[0].replacement, "\\clear");
    assert_eq!(complete_commands("\\v")[0].replacement, "\\version");
}

#[test]
fn complete_commands_empty_for_unknown_prefix() {
    assert!(complete_commands("\\xyz").is_empty());
}

#[test]
fn complete_commands_display_text() {
    let m = complete_commands("\\qu");
    assert_eq!(m[0].display, "\\quit  exit the REPL");
}

#[test]
fn blank_lines_are_skipped() {
    assert!(matches!(read_input(""), ReplInput::Blank));
    assert!(matches!(read_input("   \t "), ReplInput::Blank));
}

#[test]
fn backslash_lines_are_commands() {
    match read_input("  \\quit  ") {
        ReplInput::Command { name, has_args } => {
            assert_eq!(name, "\\quit");
            assert!(!has_args);
        }
        _ => panic!("expected a command"),
    }
    match read_input("\\help me please") {
        ReplInput::Command { name, has_args } => {
            assert_eq!(name, "\\help");
            assert!(has_args);
        }
        _ => panic!("expected a command"),
    }
}

#[test]
fn code_lines_keep_statements_and_print_bare_expressions() {
    match read_input("  1 + 2  ") {
        ReplInput::Code { entry, source } => {
            assert_eq!(entry, "1 + 2");
            assert_eq!(source, "print 1 + 2;");
        }
        _ => panic!("expected code"),
    }
    match read_input("var a = 1;") {
        ReplInput::Code { entry, source } => {
            assert_eq!(entry, "var a = 1;");
            assert_eq!(source, "var a = 1;");
        }
        _ => panic!("expected code"),
    }
}
