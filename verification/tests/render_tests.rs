use slashcmd::render::apply_explanation;
use slashcmd::render::layout_session;
use slashcmd::render::rows_above_prompt;
use slashcmd::render::RESERVED_LINES;

#[test]
fn layout_reserves_region_and_places_command() {
    let st = layout_session("ls -la", true, RESERVED_LINES);
    assert_eq!(st.rows.len(), RESERVED_LINES + 3);
    for i in 0..RESERVED_LINES {
        assert_eq!(st.rows[i], "\u{b7}");
    }
    assert_eq!(st.rows[RESERVED_LINES], "");
    assert_eq!(st.rows[RESERVED_LINES + 1], "ls -la");
    assert_eq!(st.rows[RESERVED_LINES + 2], "Loading explanation...");
    assert_eq!(rows_above_prompt(&st), RESERVED_LINES + 3);
}

#[test]
fn layout_without_explanation_is_two_rows() {
    let st = layout_session("pwd", false, RESERVED_LINES);
    assert_eq!(st.rows.len(), 2);
    assert_eq!(st.rows[0], "pwd");
    assert_eq!(st.rows[1], "Press Enter to run, Ctrl+C to cancel... ");
}

#[test]
fn short_explanation_leaves_command_row_unmoved() {
    // N <= R: the command line keeps its absolute row and its text.
    let mut st = layout_session("du -sh *", true, RESERVED_LINES);
    let before_len = st.rows.len();
    let cmd_row = RESERVED_LINES + 1;
    let lines: Vec<String> = vec![
        String::from("[CAUTION] writes to disk"),
        String::from("line two"),
    ];
    apply_explanation(&mut st, &lines, false);
    assert_eq!(st.rows.len(), before_len);
    assert_eq!(st.rows[cmd_row], "du -sh *");
    assert_eq!(st.rows[0], "[CAUTION] writes to disk");
    assert_eq!(st.rows[1], "line two");
    for i in 2..RESERVED_LINES {
        assert_eq!(st.rows[i], "");
    }
    assert_eq!(st.rows[RESERVED_LINES + 2], "Press Enter to run, Ctrl+C to cancel... ");
}

#[test]
fn long_explanation_is_capped_at_reserved_lines() {
    // N > R: exactly R lines show; excess is dropped, the command row
    // neither moves nor changes.
    let mut st = layout_session("find / -name x", true, RESERVED_LINES);
    let cmd_row = RESERVED_LINES + 1;
    let mut lines: Vec<String> = Vec::new();
    for k in 0..(RESERVED_LINES + 7) {
        lines.push(format!("line {}", k));
    }
    apply_explanation(&mut st, &lines, false);
    assert_eq!(st.rows.len(), RESERVED_LINES + 3);
    for i in 0..RESERVED_LINES {
        assert_eq!(st.rows[i], format!("line {}", i));
    }
    assert_eq!(st.rows[cmd_row], "find / -name x");
}

#[test]
fn danger_explanation_switches_prompt() {
    let mut st = layout_session("rm -rf /tmp/x", true, RESERVED_LINES);
    let lines: Vec<String> = vec![String::from("[DANGER] deletes files")];
    apply_explanation(&mut st, &lines, true);
    assert_eq!(
        st.rows[RESERVED_LINES + 2],
        "Press Enter to copy to clipboard, Ctrl+C to cancel... "
    );
    assert_eq!(st.rows[RESERVED_LINES + 1], "rm -rf /tmp/x");
}

#[test]
fn failed_explanation_clears_region_to_plain_confirm() {
    let mut st = layout_session("git push", true, RESERVED_LINES);
    let empty: Vec<String> = Vec::new();
    apply_explanation(&mut st, &empty, false);
    for i in 0..RESERVED_LINES {
        assert_eq!(st.rows[i], "");
    }
    assert_eq!(st.rows[RESERVED_LINES + 1], "git push");
    assert_eq!(st.rows[RESERVED_LINES + 2], "Press Enter to run, Ctrl+C to cancel... ");
}
