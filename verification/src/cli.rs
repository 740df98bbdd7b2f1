//! Decisions of the non-interactive command-line path.
//!
//! The command line carries an optional style keyword as its first or last
//! word; the rest of the words are the query. The transport choice — warm
//! daemon first, direct call as the fallback — is made by the caller from
//! plain outcomes; what the daemon's answer means is decided here.

use vstd::prelude::*;

use crate::ipc::ExplainStyle;
use crate::prompt::CommandResult;
use crate::text::chars_of;
use crate::text::eq_ci;
use crate::text::string_of;

verus! {

/// Where the non-interactive path gets its command: the resolver called
/// directly with a key, or the edge proxy with an optional token.
pub enum CliSource {
    Direct { groq_api_key: String },
    Edge { token: Option<String> },
}

/// The views of a word list.
pub open spec fn str_views(ws: Seq<String>) -> Seq<Seq<char>> {
    ws.map_values(|s: String| s@)
}

/// The style a query word names inline, if any: long and short names, any
/// ASCII case.
pub open spec fn spec_query_keyword(w: Seq<char>) -> Option<ExplainStyle> {
    if eq_ci(w, "human"@) {
        Some(ExplainStyle::Human)
    } else if eq_ci(w, "ruby"@) {
        Some(ExplainStyle::Ruby)
    } else if eq_ci(w, "ts"@) || eq_ci(w, "typescript"@) {
        Some(ExplainStyle::Typescript)
    } else if eq_ci(w, "py"@) || eq_ci(w, "python"@) {
        Some(ExplainStyle::Python)
    } else {
        None
    }
}

/// The style a query word names inline, if any.
pub fn query_keyword(w: &Vec<char>) -> (r: Option<ExplainStyle>)
    ensures
        r == spec_query_keyword(w@),
{
    if crate::text::eq_chars_ci(w, &chars_of("human")) {
        Some(ExplainStyle::Human)
    } else if crate::text::eq_chars_ci(w, &chars_of("ruby")) {
        Some(ExplainStyle::Ruby)
    } else if crate::text::eq_chars_ci(w, &chars_of("ts")) || crate::text::eq_chars_ci(
        w,
        &chars_of("typescript"),
    ) {
        Some(ExplainStyle::Typescript)
    } else if crate::text::eq_chars_ci(w, &chars_of("py")) || crate::text::eq_chars_ci(
        w,
        &chars_of("python"),
    ) {
        Some(ExplainStyle::Python)
    } else {
        None
    }
}

/// The words joined with single spaces.
pub open spec fn spec_join_spaces(parts: Seq<Seq<char>>) -> Seq<char>
    decreases parts.len(),
{
    if parts.len() == 0 {
        Seq::<char>::empty()
    } else if parts.len() == 1 {
        parts[0]
    } else {
        parts[0] + seq![' '] + spec_join_spaces(parts.drop_first())
    }
}

/// The query and style a word list stands for: a style keyword as the first
/// word wins, then one as the last word; the remaining words, space-joined,
/// are the query.
pub open spec fn spec_parse_style_from_query(ws: Seq<Seq<char>>, default: ExplainStyle) -> (
    Seq<char>,
    ExplainStyle,
) {
    if ws.len() == 0 {
        (Seq::<char>::empty(), default)
    } else if spec_query_keyword(ws[0]) is Some {
        (spec_join_spaces(ws.drop_first()), spec_query_keyword(ws[0]).unwrap())
    } else if spec_query_keyword(ws[ws.len() - 1]) is Some {
        (spec_join_spaces(ws.drop_last()), spec_query_keyword(ws[ws.len() - 1]).unwrap())
    } else {
        (spec_join_spaces(ws), default)
    }
}

/// The words `from..to` joined with single spaces.
fn join_spaces_range(words: &Vec<String>, from: usize, to: usize) -> (r: Vec<char>)
    requires
        from <= to <= words@.len(),
    ensures
        r@ == spec_join_spaces(str_views(words@).subrange(from as int, to as int)),
{
    let ghost whole = str_views(words@).subrange(from as int, to as int);
    let mut out: Vec<char> = Vec::new();
    let mut i: usize = from;
    proof {
        assert(whole.skip(0) =~= whole);
        assert(spec_join_spaces(whole) =~= out@ + spec_join_spaces(whole.skip(0)));
    }
    while i < to
        invariant
            from <= i <= to <= words@.len(),
            whole == str_views(words@).subrange(from as int, to as int),
            spec_join_spaces(whole) =~= out@ + spec_join_spaces(whole.skip(i - from)),
        decreases to - i,
    {
        let ghost t = whole.skip(i - from);
        proof {
            assert(t[0] == whole[i - from]);
            assert(whole[i - from] == words@[i as int]@);
            assert(t.drop_first() =~= whole.skip(i + 1 - from));
        }
        let ghost before = out@;
        crate::text::append_chars(&mut out, &chars_of(words[i].as_str()));
        if i + 1 < to {
            out.push(' ');
            proof {
                assert(t.len() >= 2);
                assert(out@ =~= before + t[0] + seq![' ']);
                assert(spec_join_spaces(t) == t[0] + seq![' '] + spec_join_spaces(
                    whole.skip(i + 1 - from),
                ));
                assert(spec_join_spaces(whole) =~= out@ + spec_join_spaces(
                    whole.skip(i + 1 - from),
                ));
            }
        } else {
            proof {
                assert(t.len() == 1);
                assert(spec_join_spaces(t) == t[0]);
                assert(whole.skip(i + 1 - from) =~= Seq::<Seq<char>>::empty());
                assert(spec_join_spaces(whole) =~= out@ + spec_join_spaces(
                    whole.skip(i + 1 - from),
                ));
            }
        }
        i += 1;
    }
    proof {
        assert(whole.skip(to - from) =~= Seq::<Seq<char>>::empty());
        assert(out@ =~= spec_join_spaces(whole));
    }
    out
}

/// Read an inline style keyword off the first or last query word; the rest
/// of the words, space-joined, are the query.
pub fn parse_style_from_query(words: &Vec<String>, default: ExplainStyle) -> (r: (
    String,
    ExplainStyle,
))
    ensures
        (r.0@, r.1) == spec_parse_style_from_query(str_views(words@), default),
{
    let n = words.len();
    if n == 0 {
        return (String::new(), default);
    }
    let ghost wsv = str_views(words@);
    let first = chars_of(words[0].as_str());
    match query_keyword(&first) {
        Some(st) => {
            let joined = join_spaces_range(words, 1, n);
            proof {
                assert(wsv.subrange(1, n as int) =~= wsv.drop_first());
            }
            return (string_of(&joined), st);
        },
        None => {},
    }
    let last = chars_of(words[n - 1].as_str());
    match query_keyword(&last) {
        Some(st) => {
            let joined = join_spaces_range(words, 0, n - 1);
            proof {
                assert(wsv.subrange(0, n - 1) =~= wsv.drop_last());
            }
            return (string_of(&joined), st);
        },
        None => {},
    }
    let joined = join_spaces_range(words, 0, n);
    proof {
        assert(wsv.subrange(0, n as int) =~= wsv);
    }
    (string_of(&joined), default)
}

/// What a command fetched over the daemon channel means: the daemon hands
/// back only the command text, so the safety flag is the conservative
/// `false` and the command is never auto-executed.
pub fn daemon_command_result(command: String) -> (r: CommandResult)
    ensures
        r@.command == command@,
        !r@.safe,
{
    CommandResult { command, safe: false }
}

} // verus!
