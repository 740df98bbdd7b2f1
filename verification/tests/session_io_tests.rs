use slashcmd::auth::parse_stored_auth;
use slashcmd::cli::daemon_command_result;
use slashcmd::cli::parse_style_from_query;
use slashcmd::edge::parse_sse_lines;
use slashcmd::ipc::ExplainStyle;
use slashcmd::logs::create_entry;
use slashcmd::logs::log_filename;
use slashcmd::logs::LogEntry;
use slashcmd::tui::format_explanation;
use slashcmd::tui::wants_explanation;

#[test]
fn style_keyword_at_the_front_of_the_query() {
    let words = vec![String::from("human"), String::from("list"), String::from("files")];
    let (q, st) = parse_style_from_query(&words, ExplainStyle::Typescript);
    assert_eq!(q, "list files");
    assert!(matches!(st, ExplainStyle::Human));
}

#[test]
fn style_keyword_at_the_end_of_the_query() {
    let words = vec![String::from("list"), String::from("files"), String::from("ts")];
    let (q, st) = parse_style_from_query(&words, ExplainStyle::Human);
    assert_eq!(q, "list files");
    assert!(matches!(st, ExplainStyle::Typescript));
}

#[test]
fn no_style_keyword_keeps_the_default() {
    let words = vec![String::from("list"), String::from("files")];
    let (q, st) = parse_style_from_query(&words, ExplainStyle::Ruby);
    assert_eq!(q, "list files");
    assert!(matches!(st, ExplainStyle::Ruby));
    let none: Vec<String> = Vec::new();
    let (q2, st2) = parse_style_from_query(&none, ExplainStyle::Python);
    assert_eq!(q2, "");
    assert!(matches!(st2, ExplainStyle::Python));
}

#[test]
fn daemon_results_are_conservative() {
    let r = daemon_command_result(String::from("rm x"));
    assert_eq!(r.command, "rm x");
    assert!(!r.safe);
}

#[test]
fn log_entry_and_filename() {
    let e = create_entry("list files", "ls", None, ExplainStyle::Python);
    assert_eq!(e.query, "list files");
    assert_eq!(e.command, "ls");
    assert!(e.explanation.is_none());
    assert_eq!(e.style, "python");
    assert!(!e.executed);
    assert!(e.exit_code.is_none());

    let named = LogEntry {
        timestamp: 1712345,
        query: String::from("list all files please"),
        command: String::from("ls -la"),
        explanation: None,
        style: String::from("human"),
        executed: false,
        exit_code: None,
    };
    assert_eq!(log_filename(&named), "1712345_list-all-files.json");

    let punctuated = LogEntry {
        timestamp: 9,
        query: String::from("do it! now?"),
        command: String::from("true"),
        explanation: None,
        style: String::from("human"),
        executed: false,
        exit_code: None,
    };
    assert_eq!(log_filename(&punctuated), "9_do-it-now.json");

    let long = LogEntry {
        timestamp: 1,
        query: String::from("aaaaaaaaaaaaaaa bbbbbbbbbbbbbbb ccccccccccccccc"),
        command: String::from("true"),
        explanation: None,
        style: String::from("human"),
        executed: false,
        exit_code: None,
    };
    // The slug is capped at thirty characters.
    assert_eq!(log_filename(&long), "1_aaaaaaaaaaaaaaa-bbbbbbbbbbbbbb.json");
}

#[test]
fn sse_stream_yields_command_and_explanation() {
    let lines = vec![
        String::from("event: command"),
        String::from("data: {\"command\": \"ls\", \"safe\": true}"),
        String::from("event: explanation"),
        String::from("data: {\"text\": \"[SAFE] fine\"}"),
        String::from("event: done"),
        String::from("data: {}"),
    ];
    let r = parse_sse_lines(&lines).unwrap();
    assert_eq!(r.command.command, "ls");
    assert!(r.command.safe);
    assert_eq!(r.explanation.unwrap(), "[SAFE] fine");
}

#[test]
fn sse_error_event_aborts() {
    let lines = vec![String::from("event: error"), String::from("data: boom")];
    assert_eq!(parse_sse_lines(&lines).unwrap_err(), "Server error: boom");
}

#[test]
fn sse_stream_without_command_is_rejected() {
    let lines: Vec<String> = Vec::new();
    assert_eq!(parse_sse_lines(&lines).unwrap_err(), "No command received");
    let only_noise = vec![String::from(": comment"), String::from("event: other")];
    assert_eq!(parse_sse_lines(&only_noise).unwrap_err(), "No command received");
}

#[test]
fn stored_auth_parses_from_its_file_text() {
    let a = parse_stored_auth(
        "{\"token\":\"tok-1\",\"user\":\"ann\",\"github_id\":\"42\"}",
    ).unwrap();
    assert_eq!(a.token, "tok-1");
    assert_eq!(a.user, "ann");
    assert_eq!(a.github_id, "42");
    assert!(parse_stored_auth("{\"token\":\"t\"}").is_none());
    assert!(parse_stored_auth("").is_none());
}

#[test]
fn format_explanation_unbolds_tags_and_keeps_code() {
    let exp = "**[DANGER]** bad idea\n```\nrm\n```";
    let out = format_explanation(exp, ExplainStyle::Human);
    assert_eq!(out, "\u{1b}[31m[DANGER]\u{1b}[0m bad idea\nrm");
}

#[test]
fn explanation_intent_is_a_substring_test() {
    assert!(wants_explanation("please explain this"));
    assert!(wants_explanation("Explained queries count too"));
    assert!(!wants_explanation("list files"));
}
