use slashcmd::prompt::build_prompt;
use slashcmd::prompt::build_explain_prompt;
use slashcmd::prompt::clean_response;
use slashcmd::prompt::clean_response_legacy;
use slashcmd::prompt::parse_response;
use slashcmd::ipc::ExplainStyle;

#[test]
fn test_clean_markdown_bash() {
    assert_eq!(clean_response("```bash\nls -la\n```"), "ls -la");
}

#[test]
fn test_clean_markdown_sh() {
    assert_eq!(clean_response("```sh\nfind . -name '*.rs'\n```"), "find . -name '*.rs'");
}

#[test]
fn test_clean_command_prefix() {
    assert_eq!(clean_response("Command: ls -la"), "ls -la");
}

#[test]
fn test_clean_the_command_is() {
    assert_eq!(clean_response("The command is: pwd"), "pwd");
}

#[test]
fn test_clean_already_clean() {
    assert_eq!(clean_response("ls -la"), "ls -la");
}

#[test]
fn test_build_prompt_contains_query() {
    let prompt = build_prompt("list files");
    assert!(prompt.contains("list files"));
    assert!(prompt.contains("macOS CLI assistant"));
}

#[test]
fn test_parse_response_json_safe() {
    let r = parse_response("{\"command\": \"git status\", \"safe\": true}").unwrap();
    assert_eq!(r.command, "git status");
    assert!(r.safe);
}

#[test]
fn test_parse_response_json_unsafe() {
    let r = parse_response("{\"command\":\"rm -rf /tmp/x\",\"safe\":false}").unwrap();
    assert_eq!(r.command, "rm -rf /tmp/x");
    assert!(!r.safe);
}

#[test]
fn test_parse_response_fenced_json() {
    let r = parse_response("```json\n{\"command\": \"ls\", \"safe\": true}\n```").unwrap();
    assert_eq!(r.command, "ls");
    assert!(r.safe);
}

#[test]
fn test_parse_response_fallback_is_conservative() {
    let r = parse_response("Command: ls -la").unwrap();
    assert_eq!(r.command, "ls -la");
    assert!(!r.safe);
}

#[test]
fn test_parse_response_fields_in_either_order() {
    let r = parse_response("{\"safe\": true, \"command\": \"pwd\"}").unwrap();
    assert_eq!(r.command, "pwd");
    assert!(r.safe);
}

#[test]
fn test_clean_legacy_uppercase_prefix() {
    assert_eq!(clean_response_legacy("COMMAND: du -sh *"), "du -sh *");
}

#[test]
fn test_build_prompt_exact() {
    let p = build_prompt("x");
    assert!(p.starts_with(
        "You are a macOS CLI assistant. Convert the user's request to a shell command.\n\nUser request: \"x\""
    ));
    assert!(p.ends_with("Respond with ONLY the JSON object, no markdown:"));
}

#[test]
fn test_build_explain_prompt_contains_command_and_style() {
    let p = build_explain_prompt("ls -la", ExplainStyle::Python);
    assert!(p.contains("Command: `ls -la`"));
    assert!(p.contains("Python-like pseudo-code"));
    assert!(p.starts_with("Analyze this shell command for an experienced developer."));
    let q = build_explain_prompt("pwd", ExplainStyle::Human);
    assert!(q.contains("plain English"));
}
