//! The request/response protocol between the client and the daemon.
//!
//! One JSON object per line: a request is either `{"type":"command",
//! "query":...}` or `{"type":"explain","command":...,"style":...}`, and a
//! response is `{"success":...,"result":...,"error":...}`. Encoding is
//! canonical; parsing accepts any whitespace the grammar of
//! [`crate::json`] allows, and a parse of a canonical encoding is proved to
//! give back the message that was encoded.

use vstd::prelude::*;

use crate::json::enc_object;
use crate::json::lookup;
use crate::json::lookup_key;
use crate::json::parse_object;
use crate::json::pairs_view2;
use crate::json::encode_object;
use crate::json::sp_object;
use crate::json::Json;
use crate::json::JsonV;
use crate::text::chars_of;
use crate::text::eq_chars;
use crate::text::eq_ci;
use crate::text::string_of;

verus! {

/// The well-known filesystem endpoint of the daemon's socket.
pub const SOCKET_PATH: &'static str = "/tmp/cmd.sock";

/// The pseudo-code dialect an explanation is phrased in.
#[derive(Clone, Copy, Debug, PartialEq, Eq, Structural)]
pub enum ExplainStyle {
    Typescript,
    Python,
    Ruby,
    Human,
}

impl Default for ExplainStyle {
    /// The default dialect.
    fn default() -> (r: Self)
        ensures
            r == ExplainStyle::Typescript,
    {
        ExplainStyle::Typescript
    }
}

/// The name a style goes by on the wire and in logs.
pub open spec fn spec_style_name(st: ExplainStyle) -> Seq<char> {
    match st {
        ExplainStyle::Typescript => "typescript"@,
        ExplainStyle::Python => "python"@,
        ExplainStyle::Ruby => "ruby"@,
        ExplainStyle::Human => "human"@,
    }
}

/// The style a wire name stands for: exactly the four lower-case names.
pub open spec fn style_of_name(s: Seq<char>) -> Option<ExplainStyle> {
    if s == "typescript"@ {
        Some(ExplainStyle::Typescript)
    } else if s == "python"@ {
        Some(ExplainStyle::Python)
    } else if s == "ruby"@ {
        Some(ExplainStyle::Ruby)
    } else if s == "human"@ {
        Some(ExplainStyle::Human)
    } else {
        None
    }
}

/// The style a user-given keyword stands for: long and short names, any
/// ASCII case.
pub open spec fn spec_style_of_keyword(s: Seq<char>) -> Option<ExplainStyle> {
    if eq_ci(s, "typescript"@) || eq_ci(s, "ts"@) {
        Some(ExplainStyle::Typescript)
    } else if eq_ci(s, "python"@) || eq_ci(s, "py"@) {
        Some(ExplainStyle::Python)
    } else if eq_ci(s, "ruby"@) || eq_ci(s, "rb"@) {
        Some(ExplainStyle::Ruby)
    } else if eq_ci(s, "human"@) || eq_ci(s, "plain"@) {
        Some(ExplainStyle::Human)
    } else {
        None
    }
}

/// The wire name of `st`.
pub fn style_name(st: ExplainStyle) -> (r: &'static str)
    ensures
        r@ == spec_style_name(st),
{
    match st {
        ExplainStyle::Typescript => "typescript",
        ExplainStyle::Python => "python",
        ExplainStyle::Ruby => "ruby",
        ExplainStyle::Human => "human",
    }
}

/// Read a user-given style keyword, long or short form, any ASCII case.
pub fn style_of_keyword(s: &Vec<char>) -> (r: Option<ExplainStyle>)
    ensures
        r == spec_style_of_keyword(s@),
{
    if crate::text::eq_chars_ci(s, &chars_of("typescript")) || crate::text::eq_chars_ci(
        s,
        &chars_of("ts"),
    ) {
        Some(ExplainStyle::Typescript)
    } else if crate::text::eq_chars_ci(s, &chars_of("python")) || crate::text::eq_chars_ci(
        s,
        &chars_of("py"),
    ) {
        Some(ExplainStyle::Python)
    } else if crate::text::eq_chars_ci(s, &chars_of("ruby")) || crate::text::eq_chars_ci(
        s,
        &chars_of("rb"),
    ) {
        Some(ExplainStyle::Ruby)
    } else if crate::text::eq_chars_ci(s, &chars_of("human")) || crate::text::eq_chars_ci(
        s,
        &chars_of("plain"),
    ) {
        Some(ExplainStyle::Human)
    } else {
        None
    }
}

/// Read a style argument as given on the command line; an unknown name is
/// rejected with the reason.
pub fn parse_style(s: &str) -> (r: Result<ExplainStyle, String>)
    ensures
        match r {
            Ok(st) => spec_style_of_keyword(s@) == Some(st),
            Err(msg) => spec_style_of_keyword(s@) is None && msg@ == "Unknown style: "@ + s@
                + ". Use: typescript, python, ruby, human"@,
        },
{
    let cs = chars_of(s);
    match style_of_keyword(&cs) {
        Some(st) => Ok(st),
        None => {
            let mut msg = chars_of("Unknown style: ");
            crate::text::append_chars(&mut msg, &cs);
            crate::text::append_chars(
                &mut msg,
                &chars_of(". Use: typescript, python, ruby, human"),
            );
            Err(string_of(&msg))
        },
    }
}

/// A request line: resolve a query to a command, or explain a command.
pub enum IpcRequest {
    /// Turn a natural-language query into a shell command.
    Command { query: String },
    /// Explain a shell command in the given style.
    Explain { command: String, style: ExplainStyle },
}

/// The mathematical value of a request.
pub enum IpcRequestV {
    Command { query: Seq<char> },
    Explain { command: Seq<char>, style: ExplainStyle },
}

impl View for IpcRequest {
    type V = IpcRequestV;

    open spec fn view(&self) -> IpcRequestV {
        match self {
            IpcRequest::Command { query } => IpcRequestV::Command { query: query@ },
            IpcRequest::Explain { command, style } => IpcRequestV::Explain {
                command: command@,
                style: *style,
            },
        }
    }
}

/// A response line: exactly one per request. A failed response always
/// carries a non-empty error, a successful one always carries a result.
pub struct IpcResponse {
    pub success: bool,
    pub result: Option<String>,
    pub error: Option<String>,
}

/// The mathematical value of a response.
pub struct IpcResponseV {
    pub success: bool,
    pub result: Option<Seq<char>>,
    pub error: Option<Seq<char>>,
}

impl View for IpcResponse {
    type V = IpcResponseV;

    open spec fn view(&self) -> IpcResponseV {
        IpcResponseV {
            success: self.success,
            result: match &self.result {
                Some(s) => Some(s@),
                None => None,
            },
            error: match &self.error {
                Some(s) => Some(s@),
                None => None,
            },
        }
    }
}

impl IpcResponseV {
    /// What every response must satisfy: failure names a reason, success
    /// carries a result.
    pub open spec fn wf(self) -> bool {
        &&& !self.success ==> self.error is Some && self.error.unwrap().len() > 0
        &&& self.success ==> self.result is Some
    }
}

/// The members of a request's object, in canonical order.
pub open spec fn req_pairs(r: IpcRequestV) -> Seq<(Seq<char>, JsonV)> {
    match r {
        IpcRequestV::Command { query } => seq![
            ("type"@, JsonV::Str("command"@)),
            ("query"@, JsonV::Str(query)),
        ],
        IpcRequestV::Explain { command, style } => seq![
            ("type"@, JsonV::Str("explain"@)),
            ("command"@, JsonV::Str(command)),
            ("style"@, JsonV::Str(spec_style_name(style))),
        ],
    }
}

/// The canonical line for a request, without the trailing newline.
pub open spec fn enc_request(r: IpcRequestV) -> Seq<char> {
    enc_object(req_pairs(r))
}

/// The request a line holds, if it is well-formed.
pub open spec fn req_of_line(s: Seq<char>) -> Option<IpcRequestV> {
    match sp_object(s) {
        None => None,
        Some(pairs) => match lookup(pairs, "type"@) {
            Some(JsonV::Str(t)) => if t == "command"@ {
                match lookup(pairs, "query"@) {
                    Some(JsonV::Str(q)) => Some(IpcRequestV::Command { query: q }),
                    _ => None,
                }
            } else if t == "explain"@ {
                match (lookup(pairs, "command"@), lookup(pairs, "style"@)) {
                    (Some(JsonV::Str(c)), Some(JsonV::Str(sn))) => match style_of_name(sn) {
                        Some(st) => Some(IpcRequestV::Explain { command: c, style: st }),
                        None => None,
                    },
                    _ => None,
                }
            } else {
                None
            },
            _ => None,
        },
    }
}

/// Null for an absent value, the string for a present one.
pub open spec fn opt_str_v(o: Option<Seq<char>>) -> JsonV {
    match o {
        Some(s) => JsonV::Str(s),
        None => JsonV::Null,
    }
}

/// The members of a response's object, in canonical order.
pub open spec fn resp_pairs(r: IpcResponseV) -> Seq<(Seq<char>, JsonV)> {
    seq![
        ("success"@, JsonV::Bool(r.success)),
        ("result"@, opt_str_v(r.result)),
        ("error"@, opt_str_v(r.error)),
    ]
}

/// The canonical line for a response, without the trailing newline.
pub open spec fn enc_response(r: IpcResponseV) -> Seq<char> {
    enc_object(resp_pairs(r))
}

/// An optional string read back from a member value.
pub open spec fn opt_of(v: JsonV) -> Option<Option<Seq<char>>> {
    match v {
        JsonV::Str(s) => Some(Some(s)),
        JsonV::Null => Some(None),
        JsonV::Bool(_) => None,
    }
}

/// The response a line holds, if it is well-formed.
pub open spec fn resp_of_line(s: Seq<char>) -> Option<IpcResponseV> {
    match sp_object(s) {
        None => None,
        Some(pairs) => match (
            lookup(pairs, "success"@),
            lookup(pairs, "result"@),
            lookup(pairs, "error"@),
        ) {
            (Some(JsonV::Bool(b)), Some(rv), Some(ev)) => match (opt_of(rv), opt_of(ev)) {
                (Some(ro), Some(eo)) => Some(
                    IpcResponseV { success: b, result: ro, error: eo },
                ),
                _ => None,
            },
            _ => None,
        },
    }
}

/// Write a request as its canonical line.
pub fn encode_request(req: &IpcRequest) -> (r: String)
    ensures
        r@ == enc_request(req@),
{
    let mut pairs: Vec<(Vec<char>, Json)> = Vec::new();
    match req {
        IpcRequest::Command { query } => {
            pairs.push((chars_of("type"), Json::Str(String::from_str("command"))));
            pairs.push((chars_of("query"), Json::Str(query.clone())));
            proof {
                assert(pairs_view2(pairs@) =~= req_pairs(req@));
            }
        },
        IpcRequest::Explain { command, style } => {
            pairs.push((chars_of("type"), Json::Str(String::from_str("explain"))));
            pairs.push((chars_of("command"), Json::Str(command.clone())));
            pairs.push((chars_of("style"), Json::Str(String::from_str(style_name(*style)))));
            proof {
                assert(pairs_view2(pairs@) =~= req_pairs(req@));
            }
        },
    }
    let line = encode_object(&pairs);
    string_of(&line)
}

/// Write a response as its canonical line.
pub fn encode_response(resp: &IpcResponse) -> (r: String)
    ensures
        r@ == enc_response(resp@),
{
    let mut pairs: Vec<(Vec<char>, Json)> = Vec::new();
    pairs.push((chars_of("success"), Json::Bool(resp.success)));
    let rv = match &resp.result {
        Some(s) => Json::Str(s.clone()),
        None => Json::Null,
    };
    pairs.push((chars_of("result"), rv));
    let ev = match &resp.error {
        Some(s) => Json::Str(s.clone()),
        None => Json::Null,
    };
    pairs.push((chars_of("error"), ev));
    proof {
        assert(pairs_view2(pairs@) =~= resp_pairs(resp@));
    }
    let line = encode_object(&pairs);
    string_of(&line)
}

/// Read a request line.
pub fn parse_request(line: &str) -> (r: Option<IpcRequest>)
    ensures
        match r {
            Some(req) => req_of_line(line@) == Some(req@),
            None => req_of_line(line@) is None,
        },
{
    let cs = chars_of(line);
    let pairs = match parse_object(&cs) {
        Some(p) => p,
        None => {
            return None;
        },
    };
    let t = match lookup_key(&pairs, &chars_of("type")) {
        Some(Json::Str(t)) => t,
        Some(Json::Bool(_)) => {
            return None;
        },
        Some(Json::Null) => {
            return None;
        },
        None => {
            return None;
        },
    };
    let tc = chars_of(t.as_str());
    if eq_chars(&tc, &chars_of("command")) {
        match lookup_key(&pairs, &chars_of("query")) {
            Some(Json::Str(q)) => Some(IpcRequest::Command { query: q }),
            Some(Json::Bool(_)) => None,
            Some(Json::Null) => None,
            None => None,
        }
    } else if eq_chars(&tc, &chars_of("explain")) {
        let c = match lookup_key(&pairs, &chars_of("command")) {
            Some(Json::Str(c)) => c,
            Some(Json::Bool(_)) => {
                return None;
            },
            Some(Json::Null) => {
                return None;
            },
            None => {
                return None;
            },
        };
        let sn = match lookup_key(&pairs, &chars_of("style")) {
            Some(Json::Str(sn)) => sn,
            Some(Json::Bool(_)) => {
                return None;
            },
            Some(Json::Null) => {
                return None;
            },
            None => {
                return None;
            },
        };
        let snc = chars_of(sn.as_str());
        let st = if eq_chars(&snc, &chars_of("typescript")) {
            Some(ExplainStyle::Typescript)
        } else if eq_chars(&snc, &chars_of("python")) {
            Some(ExplainStyle::Python)
        } else if eq_chars(&snc, &chars_of("ruby")) {
            Some(ExplainStyle::Ruby)
        } else if eq_chars(&snc, &chars_of("human")) {
            Some(ExplainStyle::Human)
        } else {
            None
        };
        match st {
            Some(st) => Some(IpcRequest::Explain { command: c, style: st }),
            None => None,
        }
    } else {
        None
    }
}

/// The client side of the protocol: what goes onto the wire and how a
/// reply is read. Connecting to the endpoint and the byte I/O around these
/// live outside the crate.
pub struct IpcClient;

impl IpcClient {
    /// The full line a request is sent as: its canonical object and the
    /// newline that frames it.
    pub fn request_line(req: &IpcRequest) -> (r: String)
        ensures
            r@ == enc_request(req@).push('\n'),
    {
        let s = encode_request(req);
        let mut cs = chars_of(s.as_str());
        cs.push('\n');
        string_of(&cs)
    }

    /// What a reply line means to the caller: the result text on success,
    /// the named reason on failure, and a parse error for anything that is
    /// not a response line.
    pub fn read_reply(line: &str) -> (r: Result<String, String>)
        ensures
            match resp_of_line(line@) {
                Some(v) => match r {
                    Ok(text) => v.success && text@ == match v.result {
                        Some(s) => s,
                        None => Seq::<char>::empty(),
                    },
                    Err(e) => !v.success && e@ == match v.error {
                        Some(s) => s,
                        None => "Unknown error"@,
                    },
                },
                None => match r {
                    Ok(_) => false,
                    Err(e) => e@ == "Parse error: invalid response line"@,
                },
            },
    {
        match parse_response_line(line) {
            Some(resp) => {
                if resp.success {
                    match resp.result {
                        Some(text) => Ok(text),
                        None => Ok(String::new()),
                    }
                } else {
                    match resp.error {
                        Some(e) => Err(e),
                        None => {
                            proof {
                                reveal_strlit("Unknown error");
                            }
                            Err(String::from_str("Unknown error"))
                        },
                    }
                }
            },
            None => {
                proof {
                    reveal_strlit("Parse error: invalid response line");
                }
                Err(String::from_str("Parse error: invalid response line"))
            },
        }
    }
}

/// A request survives the wire: parsing the canonical line written for it
/// gives back exactly the request.
pub proof fn lemma_request_roundtrip(r: IpcRequestV)
    ensures
        req_of_line(enc_request(r)) == Some(r),
{
    reveal_strlit("type");
    reveal_strlit("query");
    reveal_strlit("command");
    reveal_strlit("explain");
    reveal_strlit("style");
    reveal_strlit("typescript");
    reveal_strlit("python");
    reveal_strlit("ruby");
    reveal_strlit("human");
    assert("type"@.len() == 4);
    assert("query"@.len() == 5);
    assert("command"@.len() == 7);
    assert("explain"@.len() == 7);
    assert("style"@.len() == 5);
    assert("typescript"@.len() == 10);
    assert("python"@.len() == 6);
    assert("ruby"@.len() == 4);
    assert("human"@.len() == 5);
    let pairs = req_pairs(r);
    crate::json::lemma_object_roundtrip(pairs);
    match r {
        IpcRequestV::Command { query } => {
            assert(lookup(pairs, "type"@) == Some(JsonV::Str("command"@)));
            assert("type"@ != "query"@);
            let p1 = pairs.drop_first();
            assert(p1 =~= seq![("query"@, JsonV::Str(query))]);
            assert(lookup(p1, "query"@) == Some(JsonV::Str(query)));
            assert(lookup(pairs, "query"@) == Some(JsonV::Str(query)));
        },
        IpcRequestV::Explain { command, style } => {
            assert("explain"@ != "command"@) by {
                assert("explain"@[0] == 'e');
                assert("command"@[0] == 'c');
            }
            assert(lookup(pairs, "type"@) == Some(JsonV::Str("explain"@)));
            let p1 = pairs.drop_first();
            assert(p1 =~= seq![
                ("command"@, JsonV::Str(command)),
                ("style"@, JsonV::Str(spec_style_name(style))),
            ]);
            let p2 = p1.drop_first();
            assert(p2 =~= seq![("style"@, JsonV::Str(spec_style_name(style)))]);
            assert("type"@ != "command"@);
            assert(lookup(p1, "command"@) == Some(JsonV::Str(command)));
            assert(lookup(pairs, "command"@) == Some(JsonV::Str(command)));
            assert("type"@ != "style"@);
            assert("command"@ != "style"@);
            assert(lookup(p2, "style"@) == Some(JsonV::Str(spec_style_name(style))));
            assert(lookup(p1, "style"@) == Some(JsonV::Str(spec_style_name(style))));
            assert(lookup(pairs, "style"@) == Some(JsonV::Str(spec_style_name(style))));
            assert(style_of_name(spec_style_name(style)) == Some(style)) by {
                match style {
                    ExplainStyle::Typescript => {},
                    ExplainStyle::Python => {
                        assert("python"@ != "typescript"@);
                    },
                    ExplainStyle::Ruby => {
                        assert("ruby"@ != "typescript"@);
                        assert("ruby"@ != "python"@);
                    },
                    ExplainStyle::Human => {
                        assert("human"@ != "typescript"@);
                        assert("human"@ != "python"@);
                        assert("human"@ != "ruby"@);
                    },
                }
            }
        },
    }
}

/// A response survives the wire: parsing the canonical line written for it
/// gives back exactly the response.
pub proof fn lemma_response_roundtrip(r: IpcResponseV)
    ensures
        resp_of_line(enc_response(r)) == Some(r),
{
    reveal_strlit("success");
    reveal_strlit("result");
    reveal_strlit("error");
    assert("success"@.len() == 7);
    assert("result"@.len() == 6);
    assert("error"@.len() == 5);
    let pairs = resp_pairs(r);
    crate::json::lemma_object_roundtrip(pairs);
    assert(lookup(pairs, "success"@) == Some(JsonV::Bool(r.success)));
    assert("success"@ != "result"@);
    assert("success"@ != "error"@);
    assert("result"@ != "error"@);
    let p1 = pairs.drop_first();
    assert(p1 =~= seq![("result"@, opt_str_v(r.result)), ("error"@, opt_str_v(r.error))]);
    let p2 = p1.drop_first();
    assert(p2 =~= seq![("error"@, opt_str_v(r.error))]);
    assert(lookup(p1, "result"@) == Some(opt_str_v(r.result)));
    assert(lookup(pairs, "result"@) == Some(opt_str_v(r.result)));
    assert(lookup(p2, "error"@) == Some(opt_str_v(r.error)));
    assert(lookup(p1, "error"@) == Some(opt_str_v(r.error)));
    assert(lookup(pairs, "error"@) == Some(opt_str_v(r.error)));
    assert(opt_of(opt_str_v(r.result)) == Some(r.result));
    assert(opt_of(opt_str_v(r.error)) == Some(r.error));
}

/// Read a response line.
pub fn parse_response_line(line: &str) -> (r: Option<IpcResponse>)
    ensures
        match r {
            Some(resp) => resp_of_line(line@) == Some(resp@),
            None => resp_of_line(line@) is None,
        },
{
    let cs = chars_of(line);
    let pairs = match parse_object(&cs) {
        Some(p) => p,
        None => {
            return None;
        },
    };
    let b = match lookup_key(&pairs, &chars_of("success")) {
        Some(Json::Bool(b)) => b,
        Some(Json::Str(_)) => {
            return None;
        },
        Some(Json::Null) => {
            return None;
        },
        None => {
            return None;
        },
    };
    let ro = match lookup_key(&pairs, &chars_of("result")) {
        Some(Json::Str(s)) => Some(s),
        Some(Json::Null) => None,
        Some(Json::Bool(_)) => {
            return None;
        },
        None => {
            return None;
        },
    };
    let eo = match lookup_key(&pairs, &chars_of("error")) {
        Some(Json::Str(s)) => Some(s),
        Some(Json::Null) => None,
        Some(Json::Bool(_)) => {
            return None;
        },
        None => {
            return None;
        },
    };
    Some(IpcResponse { success: b, result: ro, error: eo })
}

} // verus!
