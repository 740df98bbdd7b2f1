//! The interactive session's decisions.
//!
//! The terminal loop owns raw input and the screen; everything it decides —
//! whether the query asks for an explanation, whether an explanation is
//! DANGER-tagged, how the explanation text is formatted for the reserved
//! region, and what a finished session hands back — is computed here. The
//! state machine itself is [`crate::safety`]; the row layout is
//! [`crate::render`].

use vstd::prelude::*;

use crate::highlight::spec_format_safety;
use crate::highlight::spec_highlight;
use crate::highlight::format_safety_chars;
use crate::highlight::highlight;
use crate::ipc::ExplainStyle;
use crate::safety::SafetyState;
use crate::text::chars_of;
use crate::text::has_prefix;
use crate::text::seq_contains;
use crate::text::seq_contains_ci;
use crate::text::spec_lines;
use crate::text::spec_trim_end;
use crate::text::split_lines;
use crate::text::starts_with;
use crate::text::string_of;
use crate::text::trim_end_exec;

verus! {

/// Seconds the session waits for the initial command resolution; the later
/// wait for a key is unbounded.
pub const RESOLVE_TIMEOUT_SECS: u64 = 30;

/// What an interactive session ends with.
pub enum TuiResult {
    /// The user approved: the literal command text, for the caller to run.
    Execute(String),
    /// No execution happened.
    Cancel,
}

/// The mathematical value of a session's end.
pub enum TuiResultV {
    Execute(Seq<char>),
    Cancel,
}

impl View for TuiResult {
    type V = TuiResultV;

    open spec fn view(&self) -> TuiResultV {
        match self {
            TuiResult::Execute(c) => TuiResultV::Execute(c@),
            TuiResult::Cancel => TuiResultV::Cancel,
        }
    }
}

/// Where the session's command comes from: the resolver called directly
/// with a key, or the edge proxy with an optional token.
pub enum CommandSource {
    Direct { groq_api_key: String },
    Edge { token: Option<String> },
}

/// Whether a query explicitly asks for an explanation: it contains the word
/// `explain`, in any ASCII case. Auto-execution of safe commands is
/// suppressed exactly then.
pub open spec fn spec_wants_explanation(query: Seq<char>) -> bool {
    seq_contains_ci(query, "explain"@)
}

/// Whether the query asks for an explanation.
pub fn wants_explanation(query: &str) -> (r: bool)
    ensures
        r == spec_wants_explanation(query@),
{
    let q = chars_of(query);
    crate::text::contains_ci(&q, &chars_of("explain"))
}

/// Whether an explanation is DANGER-tagged.
pub open spec fn spec_is_danger(exp: Seq<char>) -> bool {
    seq_contains(exp, "[DANGER]"@)
}

/// Whether the explanation carries the DANGER tag.
pub fn explanation_is_danger(exp: &str) -> (r: bool)
    ensures
        r == spec_is_danger(exp@),
{
    let e = chars_of(exp);
    crate::text::contains_seq(&e, &chars_of("[DANGER]"))
}

/// `s` with every occurrence of `pat` replaced by `rep`, left to right.
pub open spec fn spec_replace(s: Seq<char>, pat: Seq<char>, rep: Seq<char>) -> Seq<char>
    decreases s.len(),
{
    if pat.len() == 0 || s.len() == 0 {
        s
    } else if starts_with(s, pat) {
        rep + spec_replace(s.skip(pat.len() as int), pat, rep)
    } else {
        seq![s[0]] + spec_replace(s.drop_first(), pat, rep)
    }
}

/// Replace every occurrence of `pat` by `rep`, left to right.
pub fn replace_chars(s: &Vec<char>, pat: &Vec<char>, rep: &Vec<char>) -> (r: Vec<char>)
    ensures
        r@ == spec_replace(s@, pat@, rep@),
{
    let n = s.len();
    let m = pat.len();
    if m == 0 {
        let mut out: Vec<char> = Vec::new();
        crate::text::append_chars(&mut out, s);
        return out;
    }
    let mut out: Vec<char> = Vec::new();
    let mut i: usize = 0;
    proof {
        assert(s@.skip(0) =~= s@);
        assert(out@ + spec_replace(s@.skip(0), pat@, rep@) =~= spec_replace(s@, pat@, rep@));
    }
    while i < n
        invariant
            n == s@.len(),
            m == pat@.len(),
            0 < m,
            i <= n,
            out@ + spec_replace(s@.skip(i as int), pat@, rep@) =~= spec_replace(
                s@,
                pat@,
                rep@,
            ),
        decreases n - i,
    {
        let ghost t = s@.skip(i as int);
        proof {
            assert(t[0] == s@[i as int]);
            assert(t.drop_first() =~= s@.skip(i + 1));
        }
        let ghost before = out@;
        if n - i >= m && crate::text::matches_at(s, pat, i) {
            proof {
                assert(t.subrange(0, m as int) =~= s@.subrange(i as int, i + m));
                assert(starts_with(t, pat@));
                assert(t.skip(m as int) =~= s@.skip(i + m));
            }
            crate::text::append_chars(&mut out, rep);
            proof {
                assert(before + (rep@ + spec_replace(s@.skip(i + m), pat@, rep@)) =~= out@
                    + spec_replace(s@.skip(i + m), pat@, rep@));
            }
            i += m;
        } else {
            proof {
                if n - i >= m {
                    assert(t.subrange(0, m as int) =~= s@.subrange(i as int, i + m));
                    assert(!starts_with(t, pat@));
                } else {
                    assert(t.len() < m);
                    if starts_with(t, pat@) {
                        assert(m <= t.len());
                    }
                }
            }
            out.push(s[i]);
            proof {
                assert(before + (seq![t[0]] + spec_replace(s@.skip(i + 1), pat@, rep@)) =~= out@
                    + spec_replace(s@.skip(i + 1), pat@, rep@));
            }
            i += 1;
        }
    }
    proof {
        assert(s@.skip(n as int) =~= Seq::<char>::empty());
        assert(out@ =~= spec_replace(s@, pat@, rep@));
    }
    out
}

/// A prose line with the bold markers around a safety tag removed.
pub open spec fn spec_unbold_tags(l: Seq<char>) -> Seq<char> {
    spec_replace(
        spec_replace(
            spec_replace(l, "**[SAFE]**"@, "[SAFE]"@),
            "**[CAUTION]**"@,
            "[CAUTION]"@,
        ),
        "**[DANGER]**"@,
        "[DANGER]"@,
    )
}

/// How the explanation is prepared for the reserved region: fenced code is
/// coloured in the session's style and emitted without a newline of its
/// own, prose lines lose their bold tag markers and get the tag coloured,
/// and the fence lines are dropped, as is an unclosed code buffer.
pub open spec fn fe_lines(
    ls: Seq<Seq<char>>,
    in_block: bool,
    buf: Seq<char>,
    style: ExplainStyle,
) -> Seq<char>
    decreases ls.len(),
{
    if ls.len() == 0 {
        Seq::<char>::empty()
    } else {
        let l = ls[0];
        let rest = ls.drop_first();
        if starts_with(l, "```"@) {
            if in_block {
                spec_highlight(buf, style) + fe_lines(rest, false, Seq::<char>::empty(), style)
            } else {
                fe_lines(rest, true, buf, style)
            }
        } else if in_block {
            fe_lines(rest, true, buf + l + seq!['\n'], style)
        } else {
            spec_format_safety(spec_unbold_tags(l)) + seq!['\n'] + fe_lines(
                rest,
                false,
                buf,
                style,
            )
        }
    }
}

/// The formatted explanation, trailing whitespace trimmed.
pub open spec fn spec_format_explanation(e: Seq<char>, style: ExplainStyle) -> Seq<char> {
    spec_trim_end(fe_lines(spec_lines(e), false, Seq::<char>::empty(), style))
}

/// Format the explanation for the reserved region.
pub fn format_explanation(exp: &str, style: ExplainStyle) -> (r: String)
    ensures
        r@ == spec_format_explanation(exp@, style),
{
    let cs = chars_of(exp);
    let lines = split_lines(&cs);
    let ghost lsv = spec_lines(cs@);
    let n = lines.len();
    let fence = chars_of("```");
    let mut out: Vec<char> = Vec::new();
    let mut buf: Vec<char> = Vec::new();
    let mut in_block = false;
    let mut i: usize = 0;
    proof {
        assert(lsv.skip(0) =~= lsv);
        assert(out@ + fe_lines(lsv.skip(0), in_block, buf@, style) =~= fe_lines(
            lsv,
            false,
            Seq::<char>::empty(),
            style,
        ));
    }
    while i < n
        invariant
            n == lines@.len(),
            n == lsv.len(),
            forall|j: int| 0 <= j < n ==> lines@[j]@ == lsv[j],
            fence@ == "```"@,
            i <= n,
            out@ + fe_lines(lsv.skip(i as int), in_block, buf@, style) =~= fe_lines(
                lsv,
                false,
                Seq::<char>::empty(),
                style,
            ),
        decreases n - i,
    {
        let ghost t = lsv.skip(i as int);
        proof {
            assert(t[0] == lsv[i as int]);
            assert(t.drop_first() =~= lsv.skip(i + 1));
        }
        let ghost before = out@;
        let ghost before_buf = buf@;
        let ghost was_in_block = in_block;
        if has_prefix(&lines[i], &fence) {
            if in_block {
                let hl = highlight(string_of(&buf).as_str(), style);
                crate::text::append_chars(&mut out, &chars_of(hl.as_str()));
                buf = Vec::new();
                in_block = false;
                proof {
                    assert(out@ =~= before + spec_highlight(before_buf, style));
                    assert(out@ + fe_lines(lsv.skip(i + 1), in_block, buf@, style) =~= before
                        + fe_lines(t, was_in_block, before_buf, style));
                }
            } else {
                in_block = true;
                proof {
                    assert(out@ + fe_lines(lsv.skip(i + 1), in_block, buf@, style) =~= before
                        + fe_lines(t, was_in_block, before_buf, style));
                }
            }
        } else if in_block {
            crate::text::append_chars(&mut buf, &lines[i]);
            buf.push('\n');
            proof {
                assert(buf@ =~= before_buf + t[0] + seq!['\n']);
                assert(out@ + fe_lines(lsv.skip(i + 1), in_block, buf@, style) =~= before
                    + fe_lines(t, was_in_block, before_buf, style));
            }
        } else {
            let u1 = replace_chars(&lines[i], &chars_of("**[SAFE]**"), &chars_of("[SAFE]"));
            let u2 = replace_chars(&u1, &chars_of("**[CAUTION]**"), &chars_of("[CAUTION]"));
            let u3 = replace_chars(&u2, &chars_of("**[DANGER]**"), &chars_of("[DANGER]"));
            let fs = format_safety_chars(&u3);
            crate::text::append_chars(&mut out, &fs);
            out.push('\n');
            proof {
                assert(out@ =~= before + spec_format_safety(spec_unbold_tags(t[0])) + seq!['\n']);
                assert(out@ + fe_lines(lsv.skip(i + 1), in_block, buf@, style) =~= before
                    + fe_lines(t, was_in_block, before_buf, style));
            }
        }
        i += 1;
    }
    proof {
        assert(lsv.skip(n as int) =~= Seq::<Seq<char>>::empty());
        assert(out@ =~= fe_lines(lsv, false, Seq::<char>::empty(), style));
    }
    let trimmed = trim_end_exec(&out);
    string_of(&trimmed)
}

/// What a finished session hands back: the command for `Executed`, a plain
/// cancel for `Cancelled`, nothing for a session still running.
pub fn session_outcome(state: SafetyState, command: &String) -> (r: Option<TuiResult>)
    ensures
        state == SafetyState::Executed ==> match r {
            Some(t) => t@ == TuiResultV::Execute(command@),
            None => false,
        },
        state == SafetyState::Cancelled ==> match r {
            Some(t) => t@ == TuiResultV::Cancel,
            None => false,
        },
        state != SafetyState::Executed && state != SafetyState::Cancelled ==> r is None,
{
    match state {
        SafetyState::Executed => Some(TuiResult::Execute(command.clone())),
        SafetyState::Cancelled => Some(TuiResult::Cancel),
        _ => None,
    }
}

} // verus!
