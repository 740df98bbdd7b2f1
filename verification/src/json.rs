//! The wire format of the crate: flat JSON objects, one per line.
//!
//! Every message this system sends or accepts — the IPC request and response
//! lines and the resolver's command/safety reply — is one JSON object whose
//! values are strings, booleans or null. The grammar is given by spec
//! functions, the executable encoder and parser are proved against them, and
//! a round trip through the canonical encoding is proved to give back the
//! value that went in.

use vstd::prelude::*;

use crate::text::is_space;
use crate::text::space;
use crate::text::string_of;

verus! {

/// A value of the wire format: a string, a boolean, or null.
pub enum Json {
    Str(String),
    Bool(bool),
    Null,
}

/// The mathematical value of a `Json`.
pub enum JsonV {
    Str(Seq<char>),
    Bool(bool),
    Null,
}

impl View for Json {
    type V = JsonV;

    open spec fn view(&self) -> JsonV {
        match self {
            Json::Str(s) => JsonV::Str(s@),
            Json::Bool(b) => JsonV::Bool(*b),
            Json::Null => JsonV::Null,
        }
    }
}

/// The mathematical value of a parsed key/value list.
pub open spec fn pairs_view(p: Seq<(String, Json)>) -> Seq<(Seq<char>, JsonV)> {
    p.map_values(|kv: (String, Json)| (kv.0@, kv.1@))
}

/// How one character is written inside a quoted string: the quote, the
/// backslash and the three line-control characters are escaped, everything
/// else stands as itself.
pub open spec fn esc_char(c: char) -> Seq<char> {
    if c == '"' {
        seq!['\\', '"']
    } else if c == '\\' {
        seq!['\\', '\\']
    } else if c == '\n' {
        seq!['\\', 'n']
    } else if c == '\r' {
        seq!['\\', 'r']
    } else if c == '\t' {
        seq!['\\', 't']
    } else {
        seq![c]
    }
}

/// The escaped spelling of a whole string body.
pub open spec fn escape(s: Seq<char>) -> Seq<char>
    decreases s.len(),
{
    if s.len() == 0 {
        seq![]
    } else {
        esc_char(s[0]) + escape(s.drop_first())
    }
}

/// The character an escape code stands for.
pub open spec fn unesc(c: char) -> Option<char> {
    if c == '"' {
        Some('"')
    } else if c == '\\' {
        Some('\\')
    } else if c == '/' {
        Some('/')
    } else if c == 'n' {
        Some('\n')
    } else if c == 'r' {
        Some('\r')
    } else if c == 't' {
        Some('\t')
    } else {
        None
    }
}

/// A quoted string, escaped.
pub open spec fn enc_string(s: Seq<char>) -> Seq<char> {
    seq!['"'] + escape(s) + seq!['"']
}

/// Leading whitespace dropped.
pub open spec fn sp_ws(s: Seq<char>) -> Seq<char>
    decreases s.len(),
{
    if s.len() > 0 && is_space(s[0]) {
        sp_ws(s.drop_first())
    } else {
        s
    }
}

/// Parse a string body: the input starts right after the opening quote; the
/// result is the unescaped content and what follows the closing quote.
pub open spec fn sp_string_body(s: Seq<char>) -> Option<(Seq<char>, Seq<char>)>
    decreases s.len(),
{
    if s.len() == 0 {
        None
    } else if s[0] == '"' {
        Some((seq![], s.drop_first()))
    } else if s[0] == '\\' {
        if s.len() < 2 {
            None
        } else {
            match unesc(s[1]) {
                Some(u) => match sp_string_body(s.skip(2)) {
                    Some(cr) => Some((seq![u] + cr.0, cr.1)),
                    None => None,
                },
                None => None,
            }
        }
    } else {
        match sp_string_body(s.drop_first()) {
            Some(cr) => Some((seq![s[0]] + cr.0, cr.1)),
            None => None,
        }
    }
}

/// Parse one value: a quoted string, `true`, `false` or `null`.
pub open spec fn sp_value(s: Seq<char>) -> Option<(JsonV, Seq<char>)> {
    if s.len() == 0 {
        None
    } else if s[0] == '"' {
        match sp_string_body(s.drop_first()) {
            Some(cr) => Some((JsonV::Str(cr.0), cr.1)),
            None => None,
        }
    } else if crate::text::starts_with(s, seq!['t', 'r', 'u', 'e']) {
        Some((JsonV::Bool(true), s.skip(4)))
    } else if crate::text::starts_with(s, seq!['f', 'a', 'l', 's', 'e']) {
        Some((JsonV::Bool(false), s.skip(5)))
    } else if crate::text::starts_with(s, seq!['n', 'u', 'l', 'l']) {
        Some((JsonV::Null, s.skip(4)))
    } else {
        None
    }
}

/// The most members an object of the wire format may hold.
pub const MAX_MEMBERS: usize = 8;

/// Parse `n` or fewer `key: value` members separated by commas, ending right
/// before the closing brace.
pub open spec fn sp_members(s: Seq<char>, n: nat) -> Option<(Seq<(Seq<char>, JsonV)>, Seq<char>)>
    decreases n,
{
    if n == 0 {
        None
    } else {
        let s1 = sp_ws(s);
        if s1.len() == 0 || s1[0] != '"' {
            None
        } else {
            match sp_string_body(s1.drop_first()) {
                None => None,
                Some(kr) => {
                    let r2 = sp_ws(kr.1);
                    if r2.len() == 0 || r2[0] != ':' {
                        None
                    } else {
                        match sp_value(sp_ws(r2.drop_first())) {
                            None => None,
                            Some(vr) => {
                                let r5 = sp_ws(vr.1);
                                if r5.len() > 0 && r5[0] == ',' {
                                    match sp_members(r5.drop_first(), (n - 1) as nat) {
                                        None => None,
                                        Some(mr) => Some(
                                            (seq![(kr.0, vr.0)] + mr.0, mr.1),
                                        ),
                                    }
                                } else {
                                    Some((seq![(kr.0, vr.0)], r5))
                                }
                            },
                        }
                    }
                },
            }
        }
    }
}

/// Parse a whole line as one flat object, with nothing but whitespace
/// around it.
pub open spec fn sp_object(s: Seq<char>) -> Option<Seq<(Seq<char>, JsonV)>> {
    let s1 = sp_ws(s);
    if s1.len() == 0 || s1[0] != '{' {
        None
    } else {
        let s2 = sp_ws(s1.drop_first());
        if s2.len() > 0 && s2[0] == '}' {
            if sp_ws(s2.drop_first()).len() == 0 {
                Some(seq![])
            } else {
                None
            }
        } else {
            match sp_members(s1.drop_first(), MAX_MEMBERS as nat) {
                None => None,
                Some(mr) => {
                    let r1 = sp_ws(mr.1);
                    if r1.len() > 0 && r1[0] == '}' && sp_ws(r1.drop_first()).len() == 0 {
                        Some(mr.0)
                    } else {
                        None
                    }
                },
            }
        }
    }
}

/// The value of the first member named `key`.
pub open spec fn lookup(pairs: Seq<(Seq<char>, JsonV)>, key: Seq<char>) -> Option<JsonV>
    decreases pairs.len(),
{
    if pairs.len() == 0 {
        None
    } else if pairs[0].0 == key {
        Some(pairs[0].1)
    } else {
        lookup(pairs.drop_first(), key)
    }
}

/// The canonical spelling of one member.
pub open spec fn enc_member(kv: (Seq<char>, JsonV)) -> Seq<char> {
    enc_string(kv.0) + seq![':'] + enc_value(kv.1)
}

/// The canonical spelling of one value.
pub open spec fn enc_value(v: JsonV) -> Seq<char> {
    match v {
        JsonV::Str(s) => enc_string(s),
        JsonV::Bool(b) => if b {
            seq!['t', 'r', 'u', 'e']
        } else {
            seq!['f', 'a', 'l', 's', 'e']
        },
        JsonV::Null => seq!['n', 'u', 'l', 'l'],
    }
}

/// The canonical spelling of a member list, comma-separated.
pub open spec fn enc_members(pairs: Seq<(Seq<char>, JsonV)>) -> Seq<char>
    decreases pairs.len(),
{
    if pairs.len() == 0 {
        seq![]
    } else if pairs.len() == 1 {
        enc_member(pairs[0])
    } else {
        enc_member(pairs[0]) + seq![','] + enc_members(pairs.drop_first())
    }
}

/// The canonical spelling of a whole object: no whitespace anywhere.
pub open spec fn enc_object(pairs: Seq<(Seq<char>, JsonV)>) -> Seq<char> {
    seq!['{'] + enc_members(pairs) + seq!['}']
}

/// Unescaping undoes escaping: a string body written by `escape` and closed
/// with a quote parses back to exactly the original content, leaving the
/// rest untouched.
pub proof fn lemma_sbody_roundtrip(q: Seq<char>, rest: Seq<char>)
    ensures
        sp_string_body(escape(q) + seq!['"'] + rest) == Some((q, rest)),
    decreases q.len(),
{
    let s = escape(q) + seq!['"'] + rest;
    if q.len() == 0 {
        assert(escape(q) =~= Seq::<char>::empty());
        assert(s =~= seq!['"'] + rest);
        assert(s[0] == '"');
        assert(s.drop_first() =~= rest);
    } else {
        let c = q[0];
        let q1 = q.drop_first();
        assert(escape(q) == esc_char(c) + escape(q1));
        lemma_sbody_roundtrip(q1, rest);
        let tail = escape(q1) + seq!['"'] + rest;
        if c == '"' || c == '\\' || c == '\n' || c == '\r' || c == '\t' {
            let code = if c == '"' {
                '"'
            } else if c == '\\' {
                '\\'
            } else if c == '\n' {
                'n'
            } else if c == '\r' {
                'r'
            } else {
                't'
            };
            assert(esc_char(c) =~= seq!['\\', code]);
            assert(s =~= seq!['\\', code] + tail);
            assert(s[0] == '\\');
            assert(s[1] == code);
            assert(unesc(code) == Some(c));
            assert(s.skip(2) =~= tail);
            assert(seq![c] + q1 =~= q);
        } else {
            assert(esc_char(c) =~= seq![c]);
            assert(s =~= seq![c] + tail);
            assert(s[0] == c);
            assert(s.drop_first() =~= tail);
            assert(seq![c] + q1 =~= q);
        }
    }
}

/// A canonically written value parses back to itself.
proof fn lemma_value_roundtrip(v: JsonV, rest: Seq<char>)
    ensures
        sp_value(enc_value(v) + rest) == Some((v, rest)),
{
    let s = enc_value(v) + rest;
    match v {
        JsonV::Str(q) => {
            assert(s =~= seq!['"'] + (escape(q) + seq!['"'] + rest));
            assert(s[0] == '"');
            assert(s.drop_first() =~= escape(q) + seq!['"'] + rest);
            lemma_sbody_roundtrip(q, rest);
        },
        JsonV::Bool(b) => {
            if b {
                assert(s =~= seq!['t', 'r', 'u', 'e'] + rest);
                assert(s[0] == 't');
                assert(s.subrange(0, 4) =~= seq!['t', 'r', 'u', 'e']);
                assert(crate::text::match_at(s, seq!['t', 'r', 'u', 'e'], 0));
                assert(s.skip(4) =~= rest);
            } else {
                assert(s =~= seq!['f', 'a', 'l', 's', 'e'] + rest);
                assert(s[0] == 'f');
                assert(!crate::text::starts_with(s, seq!['t', 'r', 'u', 'e'])) by {
                    if crate::text::match_at(s, seq!['t', 'r', 'u', 'e'], 0) {
                        assert(s.subrange(0, 4)[0] == 't');
                    }
                }
                assert(s.subrange(0, 5) =~= seq!['f', 'a', 'l', 's', 'e']);
                assert(crate::text::match_at(s, seq!['f', 'a', 'l', 's', 'e'], 0));
                assert(s.skip(5) =~= rest);
            }
        },
        JsonV::Null => {
            assert(s =~= seq!['n', 'u', 'l', 'l'] + rest);
            assert(s[0] == 'n');
            assert(!crate::text::starts_with(s, seq!['t', 'r', 'u', 'e'])) by {
                if crate::text::match_at(s, seq!['t', 'r', 'u', 'e'], 0) {
                    assert(s.subrange(0, 4)[0] == 't');
                }
            }
            assert(!crate::text::starts_with(s, seq!['f', 'a', 'l', 's', 'e'])) by {
                if crate::text::match_at(s, seq!['f', 'a', 'l', 's', 'e'], 0) {
                    assert(s.subrange(0, 5)[0] == 'f');
                }
            }
            assert(s.subrange(0, 4) =~= seq!['n', 'u', 'l', 'l']);
            assert(crate::text::match_at(s, seq!['n', 'u', 'l', 'l'], 0));
            assert(s.skip(4) =~= rest);
        },
    }
}

/// A canonically written member list parses back to itself, up to the
/// closing brace that follows it.
proof fn lemma_members_roundtrip(pairs: Seq<(Seq<char>, JsonV)>, rest: Seq<char>, n: nat)
    requires
        1 <= pairs.len() <= n,
        rest.len() > 0,
        rest[0] == '}',
    ensures
        sp_members(enc_members(pairs) + rest, n) == Some((pairs, rest)),
    decreases pairs.len(),
{
    let kv = pairs[0];
    let tail: Seq<char> = if pairs.len() == 1 {
        rest
    } else {
        seq![','] + enc_members(pairs.drop_first()) + rest
    };
    let s = enc_members(pairs) + rest;
    assert(s =~= enc_member(kv) + tail);
    assert(s =~= seq!['"'] + (escape(kv.0) + seq!['"'] + (seq![':'] + enc_value(kv.1) + tail)));
    assert(s[0] == '"');
    assert(sp_ws(s) == s);
    assert(s.drop_first() =~= escape(kv.0) + seq!['"'] + (seq![':'] + enc_value(kv.1) + tail));
    lemma_sbody_roundtrip(kv.0, seq![':'] + enc_value(kv.1) + tail);
    let r1 = seq![':'] + enc_value(kv.1) + tail;
    assert(r1[0] == ':');
    assert(sp_ws(r1) == r1);
    assert(r1.drop_first() =~= enc_value(kv.1) + tail);
    let r3 = enc_value(kv.1) + tail;
    assert(r3[0] == '"' || r3[0] == 't' || r3[0] == 'f' || r3[0] == 'n') by {
        match kv.1 {
            JsonV::Str(q) => {
                assert(r3 =~= seq!['"'] + (escape(q) + seq!['"'] + tail));
            },
            JsonV::Bool(b) => {
                if b {
                    assert(r3 =~= seq!['t', 'r', 'u', 'e'] + tail);
                } else {
                    assert(r3 =~= seq!['f', 'a', 'l', 's', 'e'] + tail);
                }
            },
            JsonV::Null => {
                assert(r3 =~= seq!['n', 'u', 'l', 'l'] + tail);
            },
        }
    }
    assert(sp_ws(r3) == r3);
    lemma_value_roundtrip(kv.1, tail);
    if pairs.len() == 1 {
        assert(tail[0] == '}');
        assert(sp_ws(tail) == tail);
        assert(seq![(kv.0, kv.1)] =~= pairs);
        assert(seq![kv] =~= pairs);
    } else {
        assert(tail[0] == ',');
        assert(sp_ws(tail) == tail);
        assert(tail.drop_first() =~= enc_members(pairs.drop_first()) + rest);
        lemma_members_roundtrip(pairs.drop_first(), rest, (n - 1) as nat);
        assert(seq![kv] + pairs.drop_first() =~= pairs);
    }
}

/// A canonically written object parses back to exactly the member list that
/// was written.
pub proof fn lemma_object_roundtrip(pairs: Seq<(Seq<char>, JsonV)>)
    requires
        pairs.len() <= MAX_MEMBERS,
    ensures
        sp_object(enc_object(pairs)) == Some(pairs),
{
    let s = enc_object(pairs);
    assert(s =~= seq!['{'] + (enc_members(pairs) + seq!['}']));
    assert(s[0] == '{');
    assert(sp_ws(s) == s);
    assert(s.drop_first() =~= enc_members(pairs) + seq!['}']);
    let body = enc_members(pairs) + seq!['}'];
    if pairs.len() == 0 {
        assert(body =~= seq!['}']);
        assert(sp_ws(body) == body);
        assert(body[0] == '}');
        assert(body.drop_first() =~= Seq::<char>::empty());
    } else {
        let kv = pairs[0];
        assert(body[0] == '"') by {
            if pairs.len() == 1 {
                assert(body =~= seq!['"'] + (escape(kv.0) + seq!['"'] + (seq![':'] + enc_value(
                    kv.1,
                ) + seq!['}'])));
            } else {
                assert(body =~= seq!['"'] + (escape(kv.0) + seq!['"'] + (seq![':'] + enc_value(
                    kv.1,
                ) + (seq![','] + enc_members(pairs.drop_first()) + seq!['}']))));
            }
        }
        assert(sp_ws(body) == body);
        lemma_members_roundtrip(pairs, seq!['}'], MAX_MEMBERS as nat);
        let after = seq!['}'];
        assert(sp_ws(after) == after);
        assert(after.drop_first() =~= Seq::<char>::empty());
    }
}

impl Json {
    /// A copy equal to `self`.
    pub fn dup(&self) -> (r: Json)
        ensures
            r@ == self@,
    {
        match self {
            Json::Str(s) => Json::Str(s.clone()),
            Json::Bool(b) => Json::Bool(*b),
            Json::Null => Json::Null,
        }
    }
}

/// The character an escape code stands for, if any.
fn unesc_char(c: char) -> (r: Option<char>)
    ensures
        r == unesc(c),
{
    if c == '"' {
        Some('"')
    } else if c == '\\' {
        Some('\\')
    } else if c == '/' {
        Some('/')
    } else if c == 'n' {
        Some('\n')
    } else if c == 'r' {
        Some('\r')
    } else if c == 't' {
        Some('\t')
    } else {
        None
    }
}

/// Prepending to the content of a string-body parse.
pub open spec fn sbody_ext(prefix: Seq<char>, o: Option<(Seq<char>, Seq<char>)>) -> Option<(
    Seq<char>,
    Seq<char>,
)> {
    match o {
        Some(cr) => Some((prefix + cr.0, cr.1)),
        None => None,
    }
}

/// The index after the whitespace that starts at `from`.
fn scan_ws(v: &Vec<char>, from: usize) -> (r: usize)
    requires
        from <= v@.len(),
    ensures
        from <= r <= v@.len(),
        sp_ws(v@.skip(from as int)) == v@.skip(r as int),
        r < v@.len() ==> !is_space(v@[r as int]),
{
    let n = v.len();
    let mut i: usize = from;
    while i < n && space(v[i])
        invariant
            n == v@.len(),
            from <= i <= n,
            sp_ws(v@.skip(from as int)) == sp_ws(v@.skip(i as int)),
        decreases n - i,
    {
        proof {
            let t = v@.skip(i as int);
            assert(t[0] == v@[i as int]);
            assert(t.drop_first() =~= v@.skip(i + 1));
        }
        i += 1;
    }
    proof {
        let t = v@.skip(i as int);
        if i < n {
            assert(t[0] == v@[i as int]);
        } else {
            assert(t =~= Seq::<char>::empty());
        }
    }
    i
}

/// Scan a string body from right after the opening quote; give back the
/// unescaped content and the index after the closing quote.
fn scan_string_body(v: &Vec<char>, from: usize) -> (r: Option<(Vec<char>, usize)>)
    requires
        from <= v@.len(),
    ensures
        match r {
            Some(cj) => from <= cj.1 <= v@.len() && sp_string_body(v@.skip(from as int)) == Some(
                (cj.0@, v@.skip(cj.1 as int)),
            ),
            None => sp_string_body(v@.skip(from as int)) is None,
        },
{
    let n = v.len();
    let mut acc: Vec<char> = Vec::new();
    let mut i: usize = from;
    proof {
        match sp_string_body(v@.skip(from as int)) {
            Some(cr) => {
                assert(Seq::<char>::empty() + cr.0 =~= cr.0);
            },
            None => {},
        }
    }
    while i < n
        invariant
            n == v@.len(),
            from <= i <= n,
            sp_string_body(v@.skip(from as int)) == sbody_ext(
                acc@,
                sp_string_body(v@.skip(i as int)),
            ),
        decreases n - i,
    {
        let ghost t = v@.skip(i as int);
        proof {
            assert(t[0] == v@[i as int]);
            assert(t.drop_first() =~= v@.skip(i + 1));
        }
        let c = v[i];
        if c == '"' {
            proof {
                assert(sp_string_body(t) == Some((Seq::<char>::empty(), v@.skip(i + 1))));
                assert(acc@ + Seq::<char>::empty() =~= acc@);
            }
            return Some((acc, i + 1));
        } else if c == '\\' {
            if i + 1 == n {
                proof {
                    assert(t.len() < 2);
                    assert(sp_string_body(t) is None);
                }
                return None;
            }
            proof {
                assert(t.len() >= 2);
                assert(t[1] == v@[i + 1]);
                assert(t.skip(2) =~= v@.skip(i + 2));
            }
            match unesc_char(v[i + 1]) {
                Some(u) => {
                    proof {
                        match sp_string_body(v@.skip(i + 2)) {
                            Some(cr) => {
                                assert(sp_string_body(t) == Some((seq![u] + cr.0, cr.1)));
                                assert(acc@ + (seq![u] + cr.0) =~= acc@.push(u) + cr.0);
                            },
                            None => {
                                assert(sp_string_body(t) is None);
                            },
                        }
                    }
                    acc.push(u);
                    i += 2;
                },
                None => {
                    proof {
                        assert(sp_string_body(t) is None);
                    }
                    return None;
                },
            }
        } else {
            proof {
                match sp_string_body(v@.skip(i + 1)) {
                    Some(cr) => {
                        assert(sp_string_body(t) == Some((seq![v@[i as int]] + cr.0, cr.1)));
                        assert(acc@ + (seq![v@[i as int]] + cr.0) =~= acc@.push(v@[i as int])
                            + cr.0);
                    },
                    None => {
                        assert(sp_string_body(t) is None);
                    },
                }
            }
            acc.push(c);
            i += 1;
        }
    }
    proof {
        assert(v@.skip(i as int) =~= Seq::<char>::empty());
        assert(sp_string_body(v@.skip(i as int)) is None);
    }
    None
}

/// Whether the four given characters stand at `from`.
fn kw_at4(v: &Vec<char>, from: usize, a: char, b: char, c: char, d: char) -> (r: bool)
    requires
        from <= v@.len(),
    ensures
        r == crate::text::starts_with(v@.skip(from as int), seq![a, b, c, d]),
{
    let n = v.len();
    let ghost t = v@.skip(from as int);
    let ghost kw = seq![a, b, c, d];
    if n - from < 4 {
        proof {
            assert(t.len() < 4);
        }
        return false;
    }
    let r = v[from] == a && v[from + 1] == b && v[from + 2] == c && v[from + 3] == d;
    proof {
        assert(t[0] == v@[from as int]);
        assert(t[1] == v@[from + 1]);
        assert(t[2] == v@[from + 2]);
        assert(t[3] == v@[from + 3]);
        if r {
            assert(t.subrange(0, 4) =~= kw);
        } else {
            if crate::text::match_at(t, kw, 0) {
                assert(t.subrange(0, 4)[0] == t[0]);
                assert(t.subrange(0, 4)[1] == t[1]);
                assert(t.subrange(0, 4)[2] == t[2]);
                assert(t.subrange(0, 4)[3] == t[3]);
            }
        }
    }
    r
}

/// Whether the five given characters stand at `from`.
fn kw_at5(v: &Vec<char>, from: usize, a: char, b: char, c: char, d: char, e: char) -> (r: bool)
    requires
        from <= v@.len(),
    ensures
        r == crate::text::starts_with(v@.skip(from as int), seq![a, b, c, d, e]),
{
    let n = v.len();
    let ghost t = v@.skip(from as int);
    let ghost kw = seq![a, b, c, d, e];
    if n - from < 5 {
        proof {
            assert(t.len() < 5);
        }
        return false;
    }
    let r = v[from] == a && v[from + 1] == b && v[from + 2] == c && v[from + 3] == d && v[from
        + 4] == e;
    proof {
        assert(t[0] == v@[from as int]);
        assert(t[1] == v@[from + 1]);
        assert(t[2] == v@[from + 2]);
        assert(t[3] == v@[from + 3]);
        assert(t[4] == v@[from + 4]);
        if r {
            assert(t.subrange(0, 5) =~= kw);
        } else {
            if crate::text::match_at(t, kw, 0) {
                assert(t.subrange(0, 5)[0] == t[0]);
                assert(t.subrange(0, 5)[1] == t[1]);
                assert(t.subrange(0, 5)[2] == t[2]);
                assert(t.subrange(0, 5)[3] == t[3]);
                assert(t.subrange(0, 5)[4] == t[4]);
            }
        }
    }
    r
}

/// Scan one value at `from`; give back the value and the index after it.
fn scan_value(v: &Vec<char>, from: usize) -> (r: Option<(Json, usize)>)
    requires
        from <= v@.len(),
    ensures
        match r {
            Some(jp) => from <= jp.1 <= v@.len() && sp_value(v@.skip(from as int)) == Some(
                (jp.0@, v@.skip(jp.1 as int)),
            ),
            None => sp_value(v@.skip(from as int)) is None,
        },
{
    let n = v.len();
    let ghost t = v@.skip(from as int);
    if from == n {
        proof {
            assert(t.len() == 0);
        }
        return None;
    }
    proof {
        assert(t[0] == v@[from as int]);
        assert(t.drop_first() =~= v@.skip(from + 1));
    }
    if v[from] == '"' {
        match scan_string_body(v, from + 1) {
            Some((content, j)) => {
                let s = string_of(&content);
                return Some((Json::Str(s), j));
            },
            None => {
                return None;
            },
        }
    }
    if kw_at4(v, from, 't', 'r', 'u', 'e') {
        proof {
            assert(t.skip(4) =~= v@.skip(from + 4));
        }
        return Some((Json::Bool(true), from + 4));
    }
    if kw_at5(v, from, 'f', 'a', 'l', 's', 'e') {
        proof {
            assert(t.skip(5) =~= v@.skip(from + 5));
        }
        return Some((Json::Bool(false), from + 5));
    }
    if kw_at4(v, from, 'n', 'u', 'l', 'l') {
        proof {
            assert(t.skip(4) =~= v@.skip(from + 4));
        }
        return Some((Json::Null, from + 4));
    }
    None
}

/// Scan at most `budget` members from `from`, as `sp_members` reads them.
fn scan_members(v: &Vec<char>, from: usize, budget: usize) -> (r: Option<
    (Vec<(Vec<char>, Json)>, usize),
>)
    requires
        from <= v@.len(),
    ensures
        match r {
            Some(pj) => from <= pj.1 <= v@.len() && sp_members(
                v@.skip(from as int),
                budget as nat,
            ) == Some((pairs_view2(pj.0@), v@.skip(pj.1 as int))),
            None => sp_members(v@.skip(from as int), budget as nat) is None,
        },
    decreases budget,
{
    if budget == 0 {
        return None;
    }
    let n = v.len();
    let s1 = scan_ws(v, from);
    if s1 == n {
        return None;
    }
    proof {
        assert(v@.skip(s1 as int)[0] == v@[s1 as int]);
        assert(v@.skip(s1 as int).drop_first() =~= v@.skip(s1 + 1));
    }
    if v[s1] != '"' {
        return None;
    }
    let key = match scan_string_body(v, s1 + 1) {
        Some(kj) => kj,
        None => {
            return None;
        },
    };
    let r1 = key.1;
    let r2 = scan_ws(v, r1);
    if r2 == n {
        return None;
    }
    proof {
        assert(v@.skip(r2 as int)[0] == v@[r2 as int]);
        assert(v@.skip(r2 as int).drop_first() =~= v@.skip(r2 + 1));
    }
    if v[r2] != ':' {
        return None;
    }
    let r3 = scan_ws(v, r2 + 1);
    let val = match scan_value(v, r3) {
        Some(vj) => vj,
        None => {
            return None;
        },
    };
    let r4 = val.1;
    let r5 = scan_ws(v, r4);
    let ghost t5 = v@.skip(r5 as int);
    proof {
        if r5 < n {
            assert(t5[0] == v@[r5 as int]);
            assert(t5.drop_first() =~= v@.skip(r5 + 1));
        }
    }
    if r5 < n && v[r5] == ',' {
        match scan_members(v, r5 + 1, budget - 1) {
            Some((rest, r6)) => {
                let mut out: Vec<(Vec<char>, Json)> = rest;
                let ghost old_out = out@;
                out.insert(0, (key.0, val.0));
                proof {
                    assert(pairs_view2(out@) =~= seq![(key.0@, val.0@)] + pairs_view2(old_out));
                }
                Some((out, r6))
            },
            None => None,
        }
    } else {
        let mut out: Vec<(Vec<char>, Json)> = Vec::new();
        out.push((key.0, val.0));
        proof {
            assert(pairs_view2(out@) =~= seq![(key.0@, val.0@)]);
            if r5 == n {
                assert(t5.len() == 0);
            }
        }
        Some((out, r5))
    }
}

/// The mathematical value of a scanned key/value list.
pub open spec fn pairs_view2(p: Seq<(Vec<char>, Json)>) -> Seq<(Seq<char>, JsonV)> {
    p.map_values(|kv: (Vec<char>, Json)| (kv.0@, kv.1@))
}

/// Parse a whole line as one flat object of the wire format.
pub fn parse_object(v: &Vec<char>) -> (r: Option<Vec<(Vec<char>, Json)>>)
    ensures
        match r {
            Some(p) => sp_object(v@) == Some(pairs_view2(p@)),
            None => sp_object(v@) is None,
        },
{
    let n = v.len();
    proof {
        assert(v@.skip(0) =~= v@);
    }
    let s1 = scan_ws(v, 0);
    if s1 == n {
        return None;
    }
    proof {
        assert(v@.skip(s1 as int)[0] == v@[s1 as int]);
        assert(v@.skip(s1 as int).drop_first() =~= v@.skip(s1 + 1));
    }
    if v[s1] != '{' {
        return None;
    }
    let s2 = scan_ws(v, s1 + 1);
    proof {
        if s2 < n {
            assert(v@.skip(s2 as int)[0] == v@[s2 as int]);
            assert(v@.skip(s2 as int).drop_first() =~= v@.skip(s2 + 1));
        } else {
            assert(v@.skip(s2 as int).len() == 0);
        }
    }
    if s2 < n && v[s2] == '}' {
        let s3 = scan_ws(v, s2 + 1);
        if s3 == n {
            proof {
                assert(v@.skip(s3 as int).len() == 0);
            }
            return Some(Vec::new());
        } else {
            proof {
                assert(v@.skip(s3 as int).len() > 0);
            }
            return None;
        }
    }
    match scan_members(v, s1 + 1, MAX_MEMBERS) {
        None => None,
        Some((pairs, r)) => {
            let r1 = scan_ws(v, r);
            proof {
                if r1 < n {
                    assert(v@.skip(r1 as int)[0] == v@[r1 as int]);
                    assert(v@.skip(r1 as int).drop_first() =~= v@.skip(r1 + 1));
                } else {
                    assert(v@.skip(r1 as int).len() == 0);
                }
            }
            if r1 == n {
                return None;
            }
            if v[r1] != '}' {
                return None;
            }
            let r2 = scan_ws(v, r1 + 1);
            if r2 == n {
                proof {
                    assert(v@.skip(r2 as int).len() == 0);
                }
                Some(pairs)
            } else {
                proof {
                    assert(v@.skip(r2 as int).len() > 0);
                }
                None
            }
        },
    }
}

/// The value of the first member named `key`, if any.
pub fn lookup_key(pairs: &Vec<(Vec<char>, Json)>, key: &Vec<char>) -> (r: Option<Json>)
    ensures
        match r {
            Some(j) => lookup(pairs_view2(pairs@), key@) == Some(j@),
            None => lookup(pairs_view2(pairs@), key@) is None,
        },
{
    let n = pairs.len();
    let mut i: usize = 0;
    proof {
        assert(pairs_view2(pairs@).skip(0) =~= pairs_view2(pairs@));
    }
    while i < n
        invariant
            n == pairs@.len(),
            i <= n,
            lookup(pairs_view2(pairs@), key@) == lookup(
                pairs_view2(pairs@).skip(i as int),
                key@,
            ),
        decreases n - i,
    {
        let ghost pv = pairs_view2(pairs@);
        proof {
            assert(pv.skip(i as int)[0] == pv[i as int]);
            assert(pv.skip(i as int).drop_first() =~= pv.skip(i + 1));
        }
        let hit = crate::text::eq_chars(&pairs[i].0, key);
        if hit {
            return Some(pairs[i].1.dup());
        }
        i += 1;
    }
    proof {
        assert(pairs_view2(pairs@).skip(i as int) =~= Seq::<(Seq<char>, JsonV)>::empty());
    }
    None
}

/// Append the escaped spelling of `s`.
pub fn escape_into(out: &mut Vec<char>, s: &Vec<char>)
    ensures
        final(out)@ == old(out)@ + escape(s@),
{
    let n = s.len();
    let mut i: usize = 0;
    proof {
        assert(s@.skip(0) =~= s@);
    }
    while i < n
        invariant
            n == s@.len(),
            i <= n,
            old(out)@ + escape(s@) == out@ + escape(s@.skip(i as int)),
        decreases n - i,
    {
        let ghost t = s@.skip(i as int);
        proof {
            assert(t[0] == s@[i as int]);
            assert(t.drop_first() =~= s@.skip(i + 1));
        }
        let ghost before = out@;
        let c = s[i];
        if c == '"' {
            out.push('\\');
            out.push('"');
        } else if c == '\\' {
            out.push('\\');
            out.push('\\');
        } else if c == '\n' {
            out.push('\\');
            out.push('n');
        } else if c == '\r' {
            out.push('\\');
            out.push('r');
        } else if c == '\t' {
            out.push('\\');
            out.push('t');
        } else {
            out.push(c);
        }
        proof {
            assert(out@ =~= before + esc_char(s@[i as int]));
            assert(before + (esc_char(s@[i as int]) + escape(s@.skip(i + 1))) =~= (before
                + esc_char(s@[i as int])) + escape(s@.skip(i + 1)));
        }
        i += 1;
    }
    proof {
        assert(s@.skip(n as int) =~= Seq::<char>::empty());
        assert(out@ + Seq::<char>::empty() =~= out@);
    }
}

/// Append the quoted, escaped spelling of `s`.
pub fn push_enc_string(out: &mut Vec<char>, s: &Vec<char>)
    ensures
        final(out)@ == old(out)@ + enc_string(s@),
{
    let ghost before = out@;
    out.push('"');
    escape_into(out, s);
    out.push('"');
    proof {
        assert(out@ =~= before + enc_string(s@));
    }
}

/// Append the canonical spelling of `v`.
pub fn push_enc_value(out: &mut Vec<char>, v: &Json)
    ensures
        final(out)@ == old(out)@ + enc_value(v@),
{
    let ghost before = out@;
    match v {
        Json::Str(s) => {
            let cs = crate::text::chars_of(s.as_str());
            push_enc_string(out, &cs);
        },
        Json::Bool(b) => {
            if *b {
                out.push('t');
                out.push('r');
                out.push('u');
                out.push('e');
            } else {
                out.push('f');
                out.push('a');
                out.push('l');
                out.push('s');
                out.push('e');
            }
        },
        Json::Null => {
            out.push('n');
            out.push('u');
            out.push('l');
            out.push('l');
        },
    }
    proof {
        assert(out@ =~= before + enc_value(v@));
    }
}

/// Write `pairs` as one canonical object line: no whitespace, members in
/// the given order.
pub fn encode_object(pairs: &Vec<(Vec<char>, Json)>) -> (r: Vec<char>)
    ensures
        r@ == enc_object(pairs_view2(pairs@)),
{
    let ghost pv = pairs_view2(pairs@);
    let n = pairs.len();
    let mut out: Vec<char> = Vec::new();
    out.push('{');
    proof {
        assert(pv.skip(0) =~= pv);
        assert(out@ + enc_members(pv) + seq!['}'] =~= enc_object(pv));
    }
    let mut i: usize = 0;
    while i < n
        invariant
            n == pairs@.len(),
            pv == pairs_view2(pairs@),
            i <= n,
            out@ + enc_members(pv.skip(i as int)) + seq!['}'] =~= enc_object(pv),
        decreases n - i,
    {
        let ghost t = pv.skip(i as int);
        proof {
            assert(t[0] == pv[i as int]);
            assert(t.drop_first() =~= pv.skip(i + 1));
        }
        let ghost before = out@;
        push_enc_string(&mut out, &pairs[i].0);
        out.push(':');
        push_enc_value(&mut out, &pairs[i].1);
        proof {
            assert(out@ =~= before + enc_member(pv[i as int]));
        }
        if i + 1 < n {
            out.push(',');
            proof {
                assert(t.len() >= 2);
                assert(enc_members(t) == enc_member(t[0]) + seq![','] + enc_members(
                    pv.skip(i + 1),
                ));
                assert(out@ + enc_members(pv.skip(i + 1)) + seq!['}'] =~= enc_object(pv));
            }
        } else {
            proof {
                assert(t.len() == 1);
                assert(enc_members(t) == enc_member(t[0]));
                assert(pv.skip(i + 1) =~= Seq::<(Seq<char>, JsonV)>::empty());
                assert(out@ + enc_members(pv.skip(i + 1)) + seq!['}'] =~= enc_object(pv));
            }
        }
        i += 1;
    }
    out.push('}');
    proof {
        assert(pv.skip(n as int) =~= Seq::<(Seq<char>, JsonV)>::empty());
        assert(out@ =~= enc_object(pv));
    }
    out
}

} // verus!
