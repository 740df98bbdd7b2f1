use slashcmd::highlight::command_style;
use slashcmd::highlight::dim;
use slashcmd::highlight::format_safety;
use slashcmd::highlight::highlight;
use slashcmd::highlight::highlight_explanation;
use slashcmd::highlight::highlight_python;
use slashcmd::highlight::highlight_ruby;
use slashcmd::highlight::highlight_typescript;
use slashcmd::ipc::ExplainStyle;

#[test]
fn safety_tags_get_their_colours() {
    assert_eq!(format_safety("[SAFE] fine"), "\u{1b}[32m[SAFE]\u{1b}[0m fine");
    assert_eq!(format_safety("[CAUTION] writes"), "\u{1b}[33m[CAUTION]\u{1b}[0m writes");
    assert_eq!(format_safety("[DANGER] deletes"), "\u{1b}[31m[DANGER]\u{1b}[0m deletes");
    assert_eq!(format_safety("no tag here"), "no tag here");
    assert_eq!(format_safety("mid [SAFE] tag"), "mid [SAFE] tag");
}

#[test]
fn dim_and_command_style_wrap_exactly() {
    assert_eq!(dim("note"), "\u{1b}[2mnote\u{1b}[0m");
    assert_eq!(command_style("ls -la"), "\u{1b}[1;36mls -la\u{1b}[0m");
}

#[test]
fn keywords_numbers_strings_and_comments() {
    assert_eq!(highlight("def", ExplainStyle::Python), "\u{1b}[38;5;198mdef\u{1b}[0m");
    assert_eq!(highlight("42", ExplainStyle::Typescript), "\u{1b}[38;5;208m42\u{1b}[0m");
    assert_eq!(
        highlight("x = 'hi'", ExplainStyle::Python),
        "x = \u{1b}[38;5;114m'hi'\u{1b}[0m"
    );
    assert_eq!(
        highlight("# a note", ExplainStyle::Python),
        "\u{1b}[38;5;245m# a note\u{1b}[0m"
    );
    assert_eq!(
        highlight("x // why", ExplainStyle::Typescript),
        "x \u{1b}[38;5;245m// why\u{1b}[0m"
    );
}

#[test]
fn human_style_leaves_code_untouched() {
    assert_eq!(highlight("anything at all", ExplainStyle::Human), "anything at all");
}

#[test]
fn dialects_use_their_own_keywords() {
    // `elsif` is Ruby's, not Python's.
    assert_eq!(highlight_ruby("elsif"), "\u{1b}[38;5;198melsif\u{1b}[0m");
    assert_eq!(highlight_python("elsif"), "elsif");
    // `const` belongs to the TypeScript list.
    assert_eq!(highlight_typescript("const"), "\u{1b}[38;5;198mconst\u{1b}[0m");
}

#[test]
fn explanation_colours_prose_and_code() {
    let exp = "[SAFE] fine\n```\ndef\n```";
    let out = highlight_explanation(exp, ExplainStyle::Python);
    assert_eq!(out, "\u{1b}[32m[SAFE]\u{1b}[0m fine\n\u{1b}[38;5;198mdef\u{1b}[0m");
}

#[test]
fn unterminated_string_is_coloured_to_line_end() {
    assert_eq!(
        highlight("say 'oops", ExplainStyle::Human),
        "say 'oops"
    );
    assert_eq!(
        highlight_python("'oops"),
        "\u{1b}[38;5;114m'oops\u{1b}[0m"
    );
}
