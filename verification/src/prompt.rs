//! The resolver's prompt and the reading of its reply.
//!
//! The remote resolver is asked for a JSON object `{"command":...,
//! "safe":...}`. Its reply is read with the wire-format parser of
//! [`crate::json`]; a reply that is not that object falls back to the legacy
//! plain-text cleanup, conservatively marked unsafe.

use vstd::prelude::*;

use crate::json::lookup;
use crate::json::lookup_key;
use crate::json::parse_object;
use crate::json::sp_object;
use crate::json::Json;
use crate::json::JsonV;
use crate::text::chars_of;
use crate::text::ends_with;
use crate::text::has_prefix;
use crate::text::has_prefix_ci;
use crate::text::has_suffix;
use crate::text::matches_at;
use crate::text::spec_trim;
use crate::text::spec_trim_start;
use crate::text::starts_with;
use crate::text::starts_with_ci;
use crate::text::string_of;
use crate::text::subvec;
use crate::text::trim_chars;
use crate::text::trim_start_exec;

verus! {

/// What the resolver answers: the command and its safety flag.
#[derive(Debug, Clone)]
pub struct CommandResult {
    pub command: String,
    pub safe: bool,
}

/// The mathematical value of a resolver answer.
pub struct CommandResultV {
    pub command: Seq<char>,
    pub safe: bool,
}

impl View for CommandResult {
    type V = CommandResultV;

    open spec fn view(&self) -> CommandResultV {
        CommandResultV { command: self.command@, safe: self.safe }
    }
}

/// The text that precedes the query in the resolver prompt.
pub open spec fn spec_prompt_prefix() -> Seq<char> {
    "You are a macOS CLI assistant. Convert the user's request to a shell command.\n\nUser request: \""@
}

/// The text that follows the query in the resolver prompt.
pub open spec fn spec_prompt_suffix() -> Seq<char> {
    "\"\n\nReturn JSON with:\n- \"command\": the shell command\n- \"safe\": true if READ-ONLY (ls, find, grep, cat, ps, docker ps, git status), false if has SIDE EFFECTS (writes files, deletes, sends data, installs packages)\n\nExamples:\n{\"command\": \"find . -type f -size +100M\", \"safe\": true}\n{\"command\": \"rm -rf *.tmp\", \"safe\": false}\n{\"command\": \"git status\", \"safe\": true}\n{\"command\": \"npm install\", \"safe\": false}\n\nRespond with ONLY the JSON object, no markdown:"@
}

/// The prompt sent to the resolver: the fixed instructions with the user's
/// query quoted in the middle.
pub fn build_prompt(user_query: &str) -> (r: String)
    ensures
        r@ == spec_prompt_prefix() + user_query@ + spec_prompt_suffix(),
{
    let mut out = chars_of(
        "You are a macOS CLI assistant. Convert the user's request to a shell command.\n\nUser request: \"",
    );
    crate::text::append_chars(&mut out, &chars_of(user_query));
    crate::text::append_chars(
        &mut out,
        &chars_of(
            "\"\n\nReturn JSON with:\n- \"command\": the shell command\n- \"safe\": true if READ-ONLY (ls, find, grep, cat, ps, docker ps, git status), false if has SIDE EFFECTS (writes files, deletes, sends data, installs packages)\n\nExamples:\n{\"command\": \"find . -type f -size +100M\", \"safe\": true}\n{\"command\": \"rm -rf *.tmp\", \"safe\": false}\n{\"command\": \"git status\", \"safe\": true}\n{\"command\": \"npm install\", \"safe\": false}\n\nRespond with ONLY the JSON object, no markdown:",
        ),
    );
    string_of(&out)
}

/// The style-specific instruction block of the explainer prompt.
pub open spec fn spec_style_instruction(style: crate::ipc::ExplainStyle) -> Seq<char> {
    match style {
        crate::ipc::ExplainStyle::Typescript => "Explain it as TypeScript-like pseudo-code. Use familiar programming constructs like:\n- `for (const file of files)` for loops\n- `if (condition)` for conditionals\n- `pipe(output).to(nextCommand)` for pipes\n- Use camelCase variable names"@,
        crate::ipc::ExplainStyle::Python => "Explain it as Python-like pseudo-code. Use familiar programming constructs like:\n- `for file in files:` for loops\n- `if condition:` for conditionals\n- Comments with `#`\n- Use snake_case variable names"@,
        crate::ipc::ExplainStyle::Ruby => "Explain it as Ruby-like pseudo-code. Use familiar programming constructs like:\n- `files.each do |file|` for loops\n- `if condition` / `end` blocks\n- Use snake_case variable names"@,
        crate::ipc::ExplainStyle::Human => "Explain it in plain English, step by step.\n- Use simple, clear language\n- Number each step\n- Avoid jargon where possible"@,
    }
}

/// The text that precedes the style instruction in the explainer prompt.
pub open spec fn spec_explain_prefix() -> Seq<char> {
    "Analyze this shell command for an experienced developer.\n\nSAFETY LEVEL (be practical, not paranoid):\n\n[SAFE] - Default for read-only operations:\n- ls, find, grep, cat, head, tail, wc, du, df\n- git status, git log, git diff\n- docker ps, kubectl get\n- Any command that only READS data\n\n[CAUTION] - Only for commands with SIDE EFFECTS:\n- Writes or modifies files (>, >>, tee, sed -i)\n- Git commits, pushes\n- Sends data over network (curl -X POST, wget --post)\n- Installs packages\n- Explicitly reads secret files (.env, credentials.json, ~/.ssh/*)\n\n[DANGER] - Destructive/irreversible:\n- rm, rm -rf (deletes files)\n- DROP TABLE, DELETE FROM\n- git push --force, git reset --hard\n- Format/wipe operations\n\nIMPORTANT: Assume the developer knows what they asked for.\n- \"find large files\" showing file names is SAFE (that's the point)\n- \"list processes\" showing process info is SAFE\n- \"show git history\" is SAFE\n- Only use CAUTION for actual side effects or explicit secret file access\n\n"@
}

/// The text between the style instruction and the command.
pub open spec fn spec_explain_mid() -> Seq<char> {
    "\n\nCommand: `"@
}

/// The text that follows the command in the explainer prompt.
pub open spec fn spec_explain_suffix() -> Seq<char> {
    "`\n\nFormat (keep pseudo-code to 3-6 lines):\n[SAFETY_LEVEL] One brief sentence.\n```\npseudo-code\n```"@
}

/// The style-specific instruction block of the explainer prompt.
pub fn style_instruction(style: crate::ipc::ExplainStyle) -> (r: &'static str)
    ensures
        r@ == spec_style_instruction(style),
{
    match style {
        crate::ipc::ExplainStyle::Typescript => "Explain it as TypeScript-like pseudo-code. Use familiar programming constructs like:\n- `for (const file of files)` for loops\n- `if (condition)` for conditionals\n- `pipe(output).to(nextCommand)` for pipes\n- Use camelCase variable names",
        crate::ipc::ExplainStyle::Python => "Explain it as Python-like pseudo-code. Use familiar programming constructs like:\n- `for file in files:` for loops\n- `if condition:` for conditionals\n- Comments with `#`\n- Use snake_case variable names",
        crate::ipc::ExplainStyle::Ruby => "Explain it as Ruby-like pseudo-code. Use familiar programming constructs like:\n- `files.each do |file|` for loops\n- `if condition` / `end` blocks\n- Use snake_case variable names",
        crate::ipc::ExplainStyle::Human => "Explain it in plain English, step by step.\n- Use simple, clear language\n- Number each step\n- Avoid jargon where possible",
    }
}

/// The prompt sent to the explainer: the fixed safety rubric, the style's
/// instruction block, and the command quoted at the end.
pub fn build_explain_prompt(command: &str, style: crate::ipc::ExplainStyle) -> (r: String)
    ensures
        r@ == spec_explain_prefix() + spec_style_instruction(style) + spec_explain_mid()
            + command@ + spec_explain_suffix(),
{
    let mut out = chars_of(
        "Analyze this shell command for an experienced developer.\n\nSAFETY LEVEL (be practical, not paranoid):\n\n[SAFE] - Default for read-only operations:\n- ls, find, grep, cat, head, tail, wc, du, df\n- git status, git log, git diff\n- docker ps, kubectl get\n- Any command that only READS data\n\n[CAUTION] - Only for commands with SIDE EFFECTS:\n- Writes or modifies files (>, >>, tee, sed -i)\n- Git commits, pushes\n- Sends data over network (curl -X POST, wget --post)\n- Installs packages\n- Explicitly reads secret files (.env, credentials.json, ~/.ssh/*)\n\n[DANGER] - Destructive/irreversible:\n- rm, rm -rf (deletes files)\n- DROP TABLE, DELETE FROM\n- git push --force, git reset --hard\n- Format/wipe operations\n\nIMPORTANT: Assume the developer knows what they asked for.\n- \"find large files\" showing file names is SAFE (that's the point)\n- \"list processes\" showing process info is SAFE\n- \"show git history\" is SAFE\n- Only use CAUTION for actual side effects or explicit secret file access\n\n",
    );
    crate::text::append_chars(&mut out, &chars_of(style_instruction(style)));
    crate::text::append_chars(&mut out, &chars_of("\n\nCommand: `"));
    crate::text::append_chars(&mut out, &chars_of(command));
    crate::text::append_chars(
        &mut out,
        &chars_of(
            "`\n\nFormat (keep pseudo-code to 3-6 lines):\n[SAFETY_LEVEL] One brief sentence.\n```\npseudo-code\n```",
        ),
    );
    string_of(&out)
}

/// The command and safety flag a reply line holds, if it is the requested
/// JSON object.
pub open spec fn cmd_of_json(s: Seq<char>) -> Option<(Seq<char>, bool)> {
    match sp_object(s) {
        None => None,
        Some(pairs) => match (lookup(pairs, "command"@), lookup(pairs, "safe"@)) {
            (Some(JsonV::Str(c)), Some(JsonV::Bool(b))) => Some((c, b)),
            _ => None,
        },
    }
}

/// Drop every leading repetition of `p`.
pub open spec fn spec_strip_prefix_rep(s: Seq<char>, p: Seq<char>) -> Seq<char>
    decreases s.len(),
{
    if p.len() > 0 && starts_with(s, p) && s.len() >= p.len() {
        spec_strip_prefix_rep(s.skip(p.len() as int), p)
    } else {
        s
    }
}

/// Drop every trailing repetition of `p`.
pub open spec fn spec_strip_suffix_rep(s: Seq<char>, p: Seq<char>) -> Seq<char>
    decreases s.len(),
{
    if p.len() > 0 && ends_with(s, p) && s.len() >= p.len() {
        spec_strip_suffix_rep(s.take(s.len() - p.len()), p)
    } else {
        s
    }
}

/// The reply text with any markdown fences removed, as the resolver reader
/// prepares it for parsing.
pub open spec fn spec_defenced(s: Seq<char>) -> Seq<char> {
    let t = spec_trim(s);
    if starts_with(t, "```"@) {
        spec_trim(
            spec_strip_suffix_rep(
                spec_strip_prefix_rep(spec_strip_prefix_rep(t, "```json"@), "```"@),
                "```"@,
            ),
        )
    } else {
        t
    }
}

/// The legacy cleanup of a plain-text reply: markdown fences and
/// command-prefix phrases removed, whitespace trimmed.
pub open spec fn spec_clean_legacy(s0: Seq<char>) -> Seq<char> {
    let s1 = spec_trim(s0);
    let s2 = if starts_with_ci(s1, "```bash\n"@) {
        s1.skip("```bash\n"@.len() as int)
    } else if starts_with_ci(s1, "```bash"@) {
        s1.skip("```bash"@.len() as int)
    } else if starts_with_ci(s1, "```sh\n"@) {
        s1.skip("```sh\n"@.len() as int)
    } else if starts_with_ci(s1, "```sh"@) {
        s1.skip("```sh"@.len() as int)
    } else if starts_with_ci(s1, "```\n"@) {
        s1.skip("```\n"@.len() as int)
    } else if starts_with_ci(s1, "```"@) {
        s1.skip("```"@.len() as int)
    } else {
        s1
    };
    let s3 = if ends_with(s2, "\n```"@) {
        s2.take(s2.len() - "\n```"@.len())
    } else if ends_with(s2, "```"@) {
        s2.take(s2.len() - "```"@.len())
    } else {
        s2
    };
    let s4 = if starts_with_ci(s3, "command:"@) {
        spec_trim_start(s3.skip("command:"@.len() as int))
    } else if starts_with_ci(s3, "the command is:"@) {
        spec_trim_start(s3.skip("the command is:"@.len() as int))
    } else {
        s3
    };
    spec_trim(s4)
}

/// What a reply is read as: the JSON object's command and flag where the
/// defenced reply is one, else the legacy cleanup with `safe == false`.
pub open spec fn spec_parse_response(s: Seq<char>) -> CommandResultV {
    match cmd_of_json(spec_defenced(s)) {
        Some(cb) => CommandResultV { command: cb.0, safe: cb.1 },
        None => CommandResultV { command: spec_clean_legacy(s), safe: false },
    }
}

/// Drop every leading repetition of `p`, executably.
fn strip_prefix_rep(s: &Vec<char>, p: &Vec<char>) -> (r: Vec<char>)
    requires
        p@.len() > 0,
    ensures
        r@ == spec_strip_prefix_rep(s@, p@),
{
    let n = s.len();
    let m = p.len();
    let mut i: usize = 0;
    proof {
        assert(s@.skip(0) =~= s@);
    }
    while n - i >= m && matches_at(s, p, i)
        invariant
            n == s@.len(),
            m == p@.len(),
            0 < m,
            i <= n,
            spec_strip_prefix_rep(s@, p@) == spec_strip_prefix_rep(s@.skip(i as int), p@),
        decreases n - i,
    {
        proof {
            let t = s@.skip(i as int);
            assert(t.subrange(0, m as int) =~= s@.subrange(i as int, i + m));
            assert(starts_with(t, p@));
            assert(t.skip(m as int) =~= s@.skip(i + m));
        }
        i += m;
    }
    proof {
        let t = s@.skip(i as int);
        if n - i >= m {
            assert(t.subrange(0, m as int) =~= s@.subrange(i as int, i + m));
            assert(!starts_with(t, p@));
        } else {
            assert(t.len() < m);
        }
        assert(spec_strip_prefix_rep(t, p@) == t);
    }
    subvec(s, i, n)
}

/// Drop every trailing repetition of `p`, executably.
fn strip_suffix_rep(s: &Vec<char>, p: &Vec<char>) -> (r: Vec<char>)
    requires
        p@.len() > 0,
    ensures
        r@ == spec_strip_suffix_rep(s@, p@),
{
    let n = s.len();
    let m = p.len();
    let mut j: usize = n;
    proof {
        assert(s@.take(n as int) =~= s@);
    }
    while j >= m && matches_at(s, p, j - m)
        invariant
            n == s@.len(),
            m == p@.len(),
            0 < m,
            j <= n,
            spec_strip_suffix_rep(s@, p@) == spec_strip_suffix_rep(s@.take(j as int), p@),
        decreases j,
    {
        proof {
            let t = s@.take(j as int);
            assert(t.subrange(j - m, j as int) =~= s@.subrange(j - m, j as int));
            assert(ends_with(t, p@));
            assert(t.take(j - m) =~= s@.take(j - m));
        }
        j -= m;
    }
    proof {
        let t = s@.take(j as int);
        if j >= m {
            assert(t.subrange(j - m, j as int) =~= s@.subrange(j - m, j as int));
            assert(!ends_with(t, p@));
        } else {
            assert(t.len() < m);
        }
        assert(spec_strip_suffix_rep(t, p@) == t);
    }
    subvec(s, 0, j)
}

/// Read the resolver's reply: the JSON object where there is one, else the
/// legacy cleanup with the conservative `safe == false`.
pub fn parse_response(response: &str) -> (r: Result<CommandResult, String>)
    ensures
        match r {
            Ok(c) => c@ == spec_parse_response(response@),
            Err(_) => false,
        },
{
    let cs = chars_of(response);
    let t = trim_chars(&cs);
    proof {
        reveal_strlit("```");
        reveal_strlit("```json");
    }
    let json_str = if has_prefix(&t, &chars_of("```")) {
        let a = strip_prefix_rep(&t, &chars_of("```json"));
        let b = strip_prefix_rep(&a, &chars_of("```"));
        let c = strip_suffix_rep(&b, &chars_of("```"));
        trim_chars(&c)
    } else {
        t
    };
    match parse_command_json(&json_str) {
        Some(c) => Ok(c),
        None => Ok(CommandResult { command: clean_response_legacy(response), safe: false }),
    }
}

/// Read one line as the resolver's JSON object, if it is one.
pub fn parse_command_json(v: &Vec<char>) -> (r: Option<CommandResult>)
    ensures
        match r {
            Some(c) => cmd_of_json(v@) == Some((c@.command, c@.safe)),
            None => cmd_of_json(v@) is None,
        },
{
    match parse_object(v) {
        Some(pairs) => {
            let cval = lookup_key(&pairs, &chars_of("command"));
            let sval = lookup_key(&pairs, &chars_of("safe"));
            match (cval, sval) {
                (Some(Json::Str(c)), Some(Json::Bool(b))) => Some(
                    CommandResult { command: c, safe: b },
                ),
                (Some(Json::Str(_)), Some(Json::Str(_))) => None,
                (Some(Json::Str(_)), Some(Json::Null)) => None,
                (Some(Json::Str(_)), None) => None,
                (Some(Json::Bool(_)), _) => None,
                (Some(Json::Null), _) => None,
                (None, _) => None,
            }
        },
        None => None,
    }
}

/// The legacy cleanup for a reply that is not the requested JSON object.
pub fn clean_response_legacy(response: &str) -> (r: String)
    ensures
        r@ == spec_clean_legacy(response@),
{
    let cs = chars_of(response);
    let s1 = trim_chars(&cs);
    let n1 = s1.len();
    let p1 = chars_of("```bash\n");
    let p2 = chars_of("```bash");
    let p3 = chars_of("```sh\n");
    let p4 = chars_of("```sh");
    let p5 = chars_of("```\n");
    let p6 = chars_of("```");
    let s2 = if has_prefix_ci(&s1, &p1) {
        subvec(&s1, p1.len(), n1)
    } else if has_prefix_ci(&s1, &p2) {
        subvec(&s1, p2.len(), n1)
    } else if has_prefix_ci(&s1, &p3) {
        subvec(&s1, p3.len(), n1)
    } else if has_prefix_ci(&s1, &p4) {
        subvec(&s1, p4.len(), n1)
    } else if has_prefix_ci(&s1, &p5) {
        subvec(&s1, p5.len(), n1)
    } else if has_prefix_ci(&s1, &p6) {
        subvec(&s1, p6.len(), n1)
    } else {
        s1
    };
    let n2 = s2.len();
    let q1 = chars_of("\n```");
    let q2 = chars_of("```");
    let s3 = if has_suffix(&s2, &q1) {
        subvec(&s2, 0, n2 - q1.len())
    } else if has_suffix(&s2, &q2) {
        subvec(&s2, 0, n2 - q2.len())
    } else {
        s2
    };
    let n3 = s3.len();
    let r1 = chars_of("command:");
    let r2 = chars_of("the command is:");
    let s4 = if has_prefix_ci(&s3, &r1) {
        let rest = subvec(&s3, r1.len(), n3);
        trim_start_exec(&rest)
    } else if has_prefix_ci(&s3, &r2) {
        let rest = subvec(&s3, r2.len(), n3);
        trim_start_exec(&rest)
    } else {
        s3
    };
    let out = trim_chars(&s4);
    string_of(&out)
}

/// The reply reduced to just the command text.
pub fn clean_response(response: &str) -> (r: String)
    ensures
        r@ == spec_parse_response(response@).command,
{
    match parse_response(response) {
        Ok(c) => c.command,
        Err(_) => {
            proof {
                assert(false);
            }
            String::new()
        },
    }
}

} // verus!
