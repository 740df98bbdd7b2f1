use slashcmd::daemon::command_response;
use slashcmd::daemon::malformed_response;
use slashcmd::daemon::outcome_response;
use slashcmd::ipc::encode_request;
use slashcmd::ipc::encode_response;
use slashcmd::ipc::parse_request;
use slashcmd::ipc::parse_response_line;
use slashcmd::ipc::parse_style;
use slashcmd::ipc::IpcClient;
use slashcmd::ipc::IpcRequest;
use slashcmd::ipc::IpcResponse;
use slashcmd::ipc::ExplainStyle;
use slashcmd::prompt::CommandResult;

#[test]
fn command_request_round_trip() {
    let req = IpcRequest::Command { query: String::from("list \"all\" files\nnow") };
    let line = encode_request(&req);
    match parse_request(&line).unwrap() {
        IpcRequest::Command { query } => assert_eq!(query, "list \"all\" files\nnow"),
        IpcRequest::Explain { .. } => panic!("wrong request kind"),
    }
}

#[test]
fn explain_request_round_trip() {
    let req = IpcRequest::Explain {
        command: String::from("rm -rf \\tmp"),
        style: ExplainStyle::Ruby,
    };
    let line = encode_request(&req);
    assert!(line.contains("\"type\":\"explain\""));
    match parse_request(&line).unwrap() {
        IpcRequest::Explain { command, style } => {
            assert_eq!(command, "rm -rf \\tmp");
            assert!(matches!(style, ExplainStyle::Ruby));
        },
        IpcRequest::Command { .. } => panic!("wrong request kind"),
    }
}

#[test]
fn explain_round_trip_keeps_every_style() {
    let styles = [
        ExplainStyle::Typescript,
        ExplainStyle::Python,
        ExplainStyle::Ruby,
        ExplainStyle::Human,
    ];
    for st in styles {
        let req = IpcRequest::Explain { command: String::from("ls"), style: st };
        match parse_request(&encode_request(&req)).unwrap() {
            IpcRequest::Explain { command, style } => {
                assert_eq!(command, "ls");
                assert_eq!(style, st);
            },
            IpcRequest::Command { .. } => panic!("wrong request kind"),
        }
    }
}

#[test]
fn command_request_wire_shape() {
    let req = IpcRequest::Command { query: String::from("list files") };
    assert_eq!(encode_request(&req), "{\"type\":\"command\",\"query\":\"list files\"}");
    let full = IpcClient::request_line(&req);
    assert_eq!(full, "{\"type\":\"command\",\"query\":\"list files\"}\n");
}

#[test]
fn response_round_trip() {
    let resp = IpcResponse {
        success: true,
        result: Some(String::from("ls -la")),
        error: None,
    };
    let line = encode_response(&resp);
    assert_eq!(line, "{\"success\":true,\"result\":\"ls -la\",\"error\":null}");
    let back = parse_response_line(&line).unwrap();
    assert!(back.success);
    assert_eq!(back.result.unwrap(), "ls -la");
    assert!(back.error.is_none());
}

#[test]
fn malformed_requests_always_fail_cleanly() {
    // A command request yields a result; anything malformed yields
    // success=false with a non-empty error, and never a crash.
    let bad_lines = [
        "",
        "hello",
        "{",
        "}",
        "{}",
        "{\"type\":\"command\"}",
        "{\"type\":12,\"query\":\"x\"}",
        "{\"type\":\"explain\",\"command\":\"x\",\"style\":\"klingon\"}",
        "{\"type\":\"command\",\"query\":\"unterminated",
        "{\"type\":\"command\",\"query\":\"bad\\escape\"}",
        "null",
        "[1,2,3]",
        "{\"query\":\"x\",\"type\":\"shutdown\"}",
        "\u{0}\u{1}\u{2}garbage\u{7f}",
        "{\"type\":\"command\",\"query\":42}",
    ];
    for line in bad_lines.iter() {
        assert!(parse_request(line).is_none(), "line must be rejected: {:?}", line);
        let resp = malformed_response();
        assert!(!resp.success);
        let err = resp.error.clone().unwrap();
        assert!(!err.is_empty());
        // And the failure survives the wire.
        let back = parse_response_line(&encode_response(&resp)).unwrap();
        assert!(!back.success);
        assert!(!back.error.unwrap().is_empty());
    }
}

#[test]
fn whitespace_tolerant_request_parse() {
    let line = " { \"type\" : \"command\" , \"query\" : \"du -sh\" } ";
    match parse_request(line).unwrap() {
        IpcRequest::Command { query } => assert_eq!(query, "du -sh"),
        IpcRequest::Explain { .. } => panic!("wrong request kind"),
    }
}

#[test]
fn outcome_responses_are_well_formed() {
    let ok = outcome_response(Ok(String::from("explained")));
    assert!(ok.success);
    assert_eq!(ok.result.unwrap(), "explained");
    assert!(ok.error.is_none());
    let err = outcome_response(Err(String::from("remote failure")));
    assert!(!err.success);
    assert!(err.result.is_none());
    assert_eq!(err.error.unwrap(), "remote failure");
    let anon = outcome_response(Err(String::new()));
    assert_eq!(anon.error.unwrap(), "Unknown error");
    let cmd = command_response(Ok(CommandResult { command: String::from("pwd"), safe: true }));
    assert!(cmd.success);
    assert_eq!(cmd.result.unwrap(), "pwd");
}

#[test]
fn read_reply_unwraps_success_and_failure() {
    let ok_line = "{\"success\":true,\"result\":\"ls\",\"error\":null}";
    assert_eq!(IpcClient::read_reply(ok_line).unwrap(), "ls");
    let err_line = "{\"success\":false,\"result\":null,\"error\":\"no quota\"}";
    assert_eq!(IpcClient::read_reply(err_line).unwrap_err(), "no quota");
    let garbage = "not json at all";
    assert_eq!(
        IpcClient::read_reply(garbage).unwrap_err(),
        "Parse error: invalid response line"
    );
}

#[test]
fn style_parsing_accepts_all_names() {
    assert!(matches!(parse_style("typescript"), Ok(ExplainStyle::Typescript)));
    assert!(matches!(parse_style("TS"), Ok(ExplainStyle::Typescript)));
    assert!(matches!(parse_style("py"), Ok(ExplainStyle::Python)));
    assert!(matches!(parse_style("Ruby"), Ok(ExplainStyle::Ruby)));
    assert!(matches!(parse_style("plain"), Ok(ExplainStyle::Human)));
    let e = parse_style("klingon").unwrap_err();
    assert_eq!(e, "Unknown style: klingon. Use: typescript, python, ruby, human");
}
