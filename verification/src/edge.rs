//! Reading the edge proxy's event stream.
//!
//! The proxy answers one query with a line-based event stream: `event:`
//! lines name the current event, `data:` lines carry its payload. A
//! `command` event carries the resolver's JSON object, an `explanation`
//! event carries `{"text":...}`, `done` ends the stream and `error` aborts
//! it. The HTTP call that produces the lines lives outside the crate.

use vstd::prelude::*;

use crate::json::lookup;
use crate::json::lookup_key;
use crate::json::parse_object;
use crate::json::sp_object;
use crate::json::Json;
use crate::json::JsonV;
use crate::prompt::cmd_of_json;
use crate::prompt::parse_command_json;
use crate::prompt::CommandResult;
use crate::prompt::CommandResultV;
use crate::text::chars_of;
use crate::text::eq_chars;
use crate::text::has_prefix;
use crate::text::starts_with;
use crate::text::string_of;
use crate::text::subvec;

verus! {

/// What one streamed query yields: the command, and the explanation if one
/// was streamed.
#[derive(Debug)]
pub struct EdgeResponse {
    pub command: CommandResult,
    pub explanation: Option<String>,
}

/// The mathematical value of a streamed answer.
pub struct EdgeResponseV {
    pub command: CommandResultV,
    pub explanation: Option<Seq<char>>,
}

impl View for EdgeResponse {
    type V = EdgeResponseV;

    open spec fn view(&self) -> EdgeResponseV {
        EdgeResponseV {
            command: self.command@,
            explanation: match &self.explanation {
                Some(e) => Some(e@),
                None => None,
            },
        }
    }
}

/// The command a `command` payload holds, if it parses.
pub open spec fn cmd_value_of(data: Seq<char>) -> Option<CommandResultV> {
    match cmd_of_json(data) {
        Some(cb) => Some(CommandResultV { command: cb.0, safe: cb.1 }),
        None => None,
    }
}

/// The text an `explanation` payload holds, if it parses.
pub open spec fn text_of_json(data: Seq<char>) -> Option<Seq<char>> {
    match sp_object(data) {
        None => None,
        Some(pairs) => match lookup(pairs, "text"@) {
            Some(JsonV::Str(t)) => Some(t),
            _ => None,
        },
    }
}

/// What a finished stream yields: the command seen last, or the fixed
/// complaint if none ever arrived.
pub open spec fn sse_finish(
    cmd: Option<CommandResultV>,
    exp: Option<Seq<char>>,
) -> Result<EdgeResponseV, Seq<char>> {
    match cmd {
        Some(c) => Ok(EdgeResponseV { command: c, explanation: exp }),
        None => Err("No command received"@),
    }
}

/// How the stream's lines are read, in order, with the current event name
/// and what has been seen so far: `done` or the end of input finishes,
/// `error` aborts with the payload, and unknown events and lines are
/// ignored.
pub open spec fn sse_scan(
    ls: Seq<Seq<char>>,
    cur: Seq<char>,
    cmd: Option<CommandResultV>,
    exp: Option<Seq<char>>,
) -> Result<EdgeResponseV, Seq<char>>
    decreases ls.len(),
{
    if ls.len() == 0 {
        sse_finish(cmd, exp)
    } else {
        let l = ls[0];
        let rest = ls.drop_first();
        if starts_with(l, "event: "@) {
            sse_scan(rest, l.skip("event: "@.len() as int), cmd, exp)
        } else if starts_with(l, "data: "@) {
            let data = l.skip("data: "@.len() as int);
            if cur == "command"@ {
                sse_scan(rest, cur, cmd_value_of(data), exp)
            } else if cur == "explanation"@ {
                sse_scan(
                    rest,
                    cur,
                    cmd,
                    match text_of_json(data) {
                        Some(t) => Some(t),
                        None => exp,
                    },
                )
            } else if cur == "done"@ {
                sse_finish(cmd, exp)
            } else if cur == "error"@ {
                Err("Server error: "@ + data)
            } else {
                sse_scan(rest, cur, cmd, exp)
            }
        } else {
            sse_scan(rest, cur, cmd, exp)
        }
    }
}

/// The value of an optional command.
pub open spec fn opt_cmd_view(o: Option<CommandResult>) -> Option<CommandResultV> {
    match o {
        Some(c) => Some(c@),
        None => None,
    }
}

/// The value of an optional text.
pub open spec fn opt_text_view(o: Option<String>) -> Option<Seq<char>> {
    match o {
        Some(s) => Some(s@),
        None => None,
    }
}

/// The text an `explanation` payload holds, executably.
fn parse_text_json(v: &Vec<char>) -> (r: Option<String>)
    ensures
        opt_text_view(r) == text_of_json(v@),
{
    match parse_object(v) {
        Some(pairs) => match lookup_key(&pairs, &chars_of("text")) {
            Some(Json::Str(t)) => Some(t),
            Some(Json::Bool(_)) => None,
            Some(Json::Null) => None,
            None => None,
        },
        None => None,
    }
}

/// Read a whole event stream, line by line.
pub fn parse_sse_lines(lines: &Vec<String>) -> (r: Result<EdgeResponse, String>)
    ensures
        match r {
            Ok(er) => sse_scan(
                crate::cli::str_views(lines@),
                Seq::<char>::empty(),
                None,
                None,
            ) == Ok::<EdgeResponseV, Seq<char>>(er@),
            Err(m) => sse_scan(
                crate::cli::str_views(lines@),
                Seq::<char>::empty(),
                None,
                None,
            ) == Err::<EdgeResponseV, Seq<char>>(m@),
        },
{
    let ghost lsv = crate::cli::str_views(lines@);
    let n = lines.len();
    let event_mark = chars_of("event: ");
    let data_mark = chars_of("data: ");
    let mut cur: Vec<char> = Vec::new();
    let mut cmd: Option<CommandResult> = None;
    let mut exp: Option<String> = None;
    let mut i: usize = 0;
    proof {
        assert(lsv.skip(0) =~= lsv);
    }
    while i < n
        invariant
            n == lines@.len(),
            lsv == crate::cli::str_views(lines@),
            n == lsv.len(),
            forall|j: int| 0 <= j < n ==> lines@[j]@ == lsv[j],
            event_mark@ == "event: "@,
            data_mark@ == "data: "@,
            i <= n,
            sse_scan(lsv, Seq::<char>::empty(), None, None) == sse_scan(
                lsv.skip(i as int),
                cur@,
                opt_cmd_view(cmd),
                opt_text_view(exp),
            ),
        decreases n - i,
    {
        let ghost t = lsv.skip(i as int);
        proof {
            assert(t[0] == lsv[i as int]);
            assert(t.drop_first() =~= lsv.skip(i + 1));
        }
        let line = chars_of(lines[i].as_str());
        if has_prefix(&line, &event_mark) {
            cur = subvec(&line, event_mark.len(), line.len());
            proof {
                assert(cur@ =~= t[0].skip("event: "@.len() as int));
            }
        } else if has_prefix(&line, &data_mark) {
            let data = subvec(&line, data_mark.len(), line.len());
            proof {
                assert(data@ =~= t[0].skip("data: "@.len() as int));
            }
            if eq_chars(&cur, &chars_of("command")) {
                cmd = parse_command_json(&data);
                proof {
                    assert(opt_cmd_view(cmd) == cmd_value_of(data@));
                }
            } else if eq_chars(&cur, &chars_of("explanation")) {
                match parse_text_json(&data) {
                    Some(text) => {
                        exp = Some(text);
                    },
                    None => {},
                }
            } else if eq_chars(&cur, &chars_of("done")) {
                let ghost gc = opt_cmd_view(cmd);
                let ghost ge = opt_text_view(exp);
                proof {
                    assert(sse_scan(t, cur@, gc, ge) == sse_finish(gc, ge));
                    assert(sse_scan(lsv, Seq::<char>::empty(), None, None) == sse_finish(gc, ge));
                }
                let out = finish_stream(cmd, exp);
                proof {
                    match &out {
                        Ok(er) => {
                            assert(sse_finish(gc, ge) == Ok::<EdgeResponseV, Seq<char>>(er@));
                            assert(sse_scan(lsv, Seq::<char>::empty(), None, None) == Ok::<
                                EdgeResponseV,
                                Seq<char>,
                            >(er@));
                        },
                        Err(m) => {
                            assert(sse_finish(gc, ge) == Err::<EdgeResponseV, Seq<char>>(m@));
                            assert(sse_scan(lsv, Seq::<char>::empty(), None, None) == Err::<
                                EdgeResponseV,
                                Seq<char>,
                            >(m@));
                        },
                    }
                }
                return out;
            } else if eq_chars(&cur, &chars_of("error")) {
                let mut msg = chars_of("Server error: ");
                crate::text::append_chars(&mut msg, &data);
                proof {
                    assert(sse_scan(t, cur@, opt_cmd_view(cmd), opt_text_view(exp)) == Err::<
                        EdgeResponseV,
                        Seq<char>,
                    >("Server error: "@ + data@));
                }
                return Err(string_of(&msg));
            }
        }
        i += 1;
    }
    proof {
        assert(lsv.skip(n as int) =~= Seq::<Seq<char>>::empty());
    }
    finish_stream(cmd, exp)
}

/// Close the stream: the command seen last, or the fixed complaint.
fn finish_stream(cmd: Option<CommandResult>, exp: Option<String>) -> (r: Result<
    EdgeResponse,
    String,
>)
    ensures
        match r {
            Ok(er) => sse_finish(opt_cmd_view(cmd), opt_text_view(exp)) == Ok::<
                EdgeResponseV,
                Seq<char>,
            >(er@),
            Err(m) => sse_finish(opt_cmd_view(cmd), opt_text_view(exp)) == Err::<
                EdgeResponseV,
                Seq<char>,
            >(m@),
        },
{
    match cmd {
        Some(c) => Ok(EdgeResponse { command: c, explanation: exp }),
        None => {
            proof {
                reveal_strlit("No command received");
            }
            Err(String::from_str("No command received"))
        },
    }
}

} // verus!
