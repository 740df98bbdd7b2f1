//! ANSI syntax highlighting for the explanation's pseudo-code.
//!
//! An explanation carries at most one fenced code block in one of three
//! pseudo-code dialects; the block is coloured token by token — keywords,
//! numbers, strings and comments — and the prose lines around it get a
//! coloured safety-tag prefix. Everything here is plain text in, plain text
//! with ANSI codes out.

use vstd::prelude::*;

use crate::ipc::ExplainStyle;
use crate::text::alphanumeric;
use crate::text::chars_of;
use crate::text::ends_with;
use crate::text::eq_chars;
use crate::text::find_char;
use crate::text::find_from;
use crate::text::has_prefix;
use crate::text::lemma_find_char_bounds;
use crate::text::seq_contains;
use crate::text::spec_lines;
use crate::text::spec_trim_end;
use crate::text::spec_trim_start;
use crate::text::split_lines;
use crate::text::starts_with;
use crate::text::string_of;
use crate::text::subvec;
use crate::text::trim_end_exec;
use crate::text::trim_start_exec;
use crate::text::views_of;

verus! {

/// The ANSI reset code.
pub open spec fn ansi_reset() -> Seq<char> {
    "\u{1b}[0m"@
}

/// The keyword colour.
pub open spec fn ansi_keyword() -> Seq<char> {
    "\u{1b}[38;5;198m"@
}

/// The string-literal colour.
pub open spec fn ansi_string() -> Seq<char> {
    "\u{1b}[38;5;114m"@
}

/// The comment colour.
pub open spec fn ansi_comment() -> Seq<char> {
    "\u{1b}[38;5;245m"@
}

/// The function-name colour.
pub open spec fn ansi_function() -> Seq<char> {
    "\u{1b}[38;5;81m"@
}

/// The number colour.
pub open spec fn ansi_number() -> Seq<char> {
    "\u{1b}[38;5;208m"@
}

/// The dim code for secondary text.
pub open spec fn ansi_dim() -> Seq<char> {
    "\u{1b}[2m"@
}

/// The keywords of the TypeScript dialect.
pub open spec fn ts_keywords() -> Seq<Seq<char>> {
    seq![
        "const"@, "let"@, "var"@, "function"@, "return"@, "if"@, "else"@, "for"@,
        "while"@, "of"@, "in"@, "async"@, "await"@, "import"@, "export"@, "from"@,
        "class"@, "new"@, "try"@, "catch"@, "throw"@, "true"@, "false"@, "null"@,
        "undefined"@,
    ]
}

/// The keywords of the Python dialect.
pub open spec fn py_keywords() -> Seq<Seq<char>> {
    seq![
        "def"@, "return"@, "if"@, "else"@, "elif"@, "for"@, "while"@, "in"@,
        "import"@, "from"@, "class"@, "try"@, "except"@, "raise"@, "True"@,
        "False"@, "None"@, "with"@, "as"@, "pass"@, "break"@, "continue"@, "and"@,
        "or"@, "not"@,
    ]
}

/// The keywords of the Ruby dialect.
pub open spec fn rb_keywords() -> Seq<Seq<char>> {
    seq![
        "def"@, "end"@, "return"@, "if"@, "else"@, "elsif"@, "unless"@, "case"@,
        "when"@, "for"@, "while"@, "do"@, "class"@, "module"@, "begin"@, "rescue"@,
        "raise"@, "true"@, "false"@, "nil"@, "require"@, "include"@,
        "attr_accessor"@,
    ]
}

/// The TypeScript keyword list, executably.
pub fn ts_keyword_list() -> (r: Vec<Vec<char>>)
    ensures
        views_of(r@) == ts_keywords(),
{
    let mut r: Vec<Vec<char>> = Vec::new();
    r.push(chars_of("const"));
    r.push(chars_of("let"));
    r.push(chars_of("var"));
    r.push(chars_of("function"));
    r.push(chars_of("return"));
    r.push(chars_of("if"));
    r.push(chars_of("else"));
    r.push(chars_of("for"));
    r.push(chars_of("while"));
    r.push(chars_of("of"));
    r.push(chars_of("in"));
    r.push(chars_of("async"));
    r.push(chars_of("await"));
    r.push(chars_of("import"));
    r.push(chars_of("export"));
    r.push(chars_of("from"));
    r.push(chars_of("class"));
    r.push(chars_of("new"));
    r.push(chars_of("try"));
    r.push(chars_of("catch"));
    r.push(chars_of("throw"));
    r.push(chars_of("true"));
    r.push(chars_of("false"));
    r.push(chars_of("null"));
    r.push(chars_of("undefined"));
    proof {
        assert(views_of(r@) =~= ts_keywords());
    }
    r
}

/// The Python keyword list, executably.
pub fn py_keyword_list() -> (r: Vec<Vec<char>>)
    ensures
        views_of(r@) == py_keywords(),
{
    let mut r: Vec<Vec<char>> = Vec::new();
    r.push(chars_of("def"));
    r.push(chars_of("return"));
    r.push(chars_of("if"));
    r.push(chars_of("else"));
    r.push(chars_of("elif"));
    r.push(chars_of("for"));
    r.push(chars_of("while"));
    r.push(chars_of("in"));
    r.push(chars_of("import"));
    r.push(chars_of("from"));
    r.push(chars_of("class"));
    r.push(chars_of("try"));
    r.push(chars_of("except"));
    r.push(chars_of("raise"));
    r.push(chars_of("True"));
    r.push(chars_of("False"));
    r.push(chars_of("None"));
    r.push(chars_of("with"));
    r.push(chars_of("as"));
    r.push(chars_of("pass"));
    r.push(chars_of("break"));
    r.push(chars_of("continue"));
    r.push(chars_of("and"));
    r.push(chars_of("or"));
    r.push(chars_of("not"));
    proof {
        assert(views_of(r@) =~= py_keywords());
    }
    r
}

/// The Ruby keyword list, executably.
pub fn rb_keyword_list() -> (r: Vec<Vec<char>>)
    ensures
        views_of(r@) == rb_keywords(),
{
    let mut r: Vec<Vec<char>> = Vec::new();
    r.push(chars_of("def"));
    r.push(chars_of("end"));
    r.push(chars_of("return"));
    r.push(chars_of("if"));
    r.push(chars_of("else"));
    r.push(chars_of("elsif"));
    r.push(chars_of("unless"));
    r.push(chars_of("case"));
    r.push(chars_of("when"));
    r.push(chars_of("for"));
    r.push(chars_of("while"));
    r.push(chars_of("do"));
    r.push(chars_of("class"));
    r.push(chars_of("module"));
    r.push(chars_of("begin"));
    r.push(chars_of("rescue"));
    r.push(chars_of("raise"));
    r.push(chars_of("true"));
    r.push(chars_of("false"));
    r.push(chars_of("nil"));
    r.push(chars_of("require"));
    r.push(chars_of("include"));
    r.push(chars_of("attr_accessor"));
    proof {
        assert(views_of(r@) =~= rb_keywords());
    }
    r
}

/// Whether `w` is one of the words in `kws`.
pub fn contains_word(kws: &Vec<Vec<char>>, w: &Vec<char>) -> (r: bool)
    ensures
        r == views_of(kws@).contains(w@),
{
    let n = kws.len();
    let mut i: usize = 0;
    while i < n
        invariant
            n == kws@.len(),
            i <= n,
            forall|j: int| 0 <= j < i ==> views_of(kws@)[j] != w@,
        decreases n - i,
    {
        if eq_chars(&kws[i], w) {
            proof {
                assert(views_of(kws@)[i as int] == w@);
            }
            return true;
        }
        i += 1;
    }
    proof {
        assert(!views_of(kws@).contains(w@)) by {
            if views_of(kws@).contains(w@) {
                let j = choose|j: int| 0 <= j < views_of(kws@).len() && views_of(kws@)[j] == w@;
                assert(views_of(kws@)[j] != w@);
            }
        }
    }
    false
}

/// A word character: alphanumeric or an underscore.
pub open spec fn is_word_char(c: char) -> bool {
    alphanumeric(c) || c == '_'
}

/// Whether `c` is a word character.
pub fn word_char(c: char) -> (r: bool)
    ensures
        r == is_word_char(c),
{
    c.is_alphanumeric() || c == '_'
}

/// An ASCII digit.
pub open spec fn is_digit(c: char) -> bool {
    '0' <= c && c <= '9'
}

/// How one word of code is coloured: keywords, numbers and function-like
/// spellings each get their colour; anything else stands as itself.
pub open spec fn spec_colorize_word(w: Seq<char>, kws: Seq<Seq<char>>) -> Seq<char> {
    if kws.contains(w) {
        ansi_keyword() + w + ansi_reset()
    } else if forall|i: int| 0 <= i < w.len() ==> is_digit(w[i]) {
        ansi_number() + w + ansi_reset()
    } else if seq_contains(w, "("@) || ends_with(w, "()"@) {
        ansi_function() + w + ansi_reset()
    } else {
        w
    }
}

/// Colour one word of code.
pub fn colorize_word(word: &Vec<char>, kws: &Vec<Vec<char>>) -> (r: Vec<char>)
    ensures
        r@ == spec_colorize_word(word@, views_of(kws@)),
{
    if contains_word(kws, word) {
        let mut out = chars_of("\u{1b}[38;5;198m");
        crate::text::append_chars(&mut out, word);
        crate::text::append_chars(&mut out, &chars_of("\u{1b}[0m"));
        return out;
    }
    let mut all_digits = true;
    let n = word.len();
    let mut i: usize = 0;
    while i < n
        invariant
            n == word@.len(),
            i <= n,
            all_digits == (forall|j: int| 0 <= j < i ==> is_digit(word@[j])),
        decreases n - i,
    {
        let c = word[i];
        if !('0' <= c && c <= '9') {
            all_digits = false;
            proof {
                assert(!is_digit(word@[i as int]));
            }
            i = n;
            proof {
                assert(!(forall|j: int| 0 <= j < n ==> is_digit(word@[j])));
            }
        } else {
            i += 1;
        }
    }
    if all_digits {
        let mut out = chars_of("\u{1b}[38;5;208m");
        crate::text::append_chars(&mut out, word);
        crate::text::append_chars(&mut out, &chars_of("\u{1b}[0m"));
        return out;
    }
    let paren = chars_of("(");
    let call = chars_of("()");
    if crate::text::contains_seq(word, &paren) || crate::text::has_suffix(word, &call) {
        let mut out = chars_of("\u{1b}[38;5;81m");
        crate::text::append_chars(&mut out, word);
        crate::text::append_chars(&mut out, &chars_of("\u{1b}[0m"));
        return out;
    }
    let mut out: Vec<char> = Vec::new();
    crate::text::append_chars(&mut out, word);
    out
}

/// A safety tag at the head of a line gets its colour: green for SAFE,
/// yellow for CAUTION, red for DANGER; a line without one is unchanged.
pub open spec fn spec_format_safety(t: Seq<char>) -> Seq<char> {
    if starts_with(t, "[SAFE]"@) {
        "\u{1b}[32m[SAFE]\u{1b}[0m"@ + t.skip("[SAFE]"@.len() as int)
    } else if starts_with(t, "[CAUTION]"@) {
        "\u{1b}[33m[CAUTION]\u{1b}[0m"@ + t.skip("[CAUTION]"@.len() as int)
    } else if starts_with(t, "[DANGER]"@) {
        "\u{1b}[31m[DANGER]\u{1b}[0m"@ + t.skip("[DANGER]"@.len() as int)
    } else {
        t
    }
}

/// Colour the safety tag at the head of `text`, if one stands there.
pub fn format_safety(text: &str) -> (r: String)
    ensures
        r@ == spec_format_safety(text@),
{
    let cs = chars_of(text);
    let out = format_safety_chars(&cs);
    string_of(&out)
}

/// Colour the safety tag at the head of a line, on character lists.
pub fn format_safety_chars(cs: &Vec<char>) -> (r: Vec<char>)
    ensures
        r@ == spec_format_safety(cs@),
{
    let n = cs.len();
    let safe = chars_of("[SAFE]");
    let caution = chars_of("[CAUTION]");
    let danger = chars_of("[DANGER]");
    if has_prefix(cs, &safe) {
        let mut out = chars_of("\u{1b}[32m[SAFE]\u{1b}[0m");
        crate::text::append_chars(&mut out, &subvec(cs, safe.len(), n));
        out
    } else if has_prefix(cs, &caution) {
        let mut out = chars_of("\u{1b}[33m[CAUTION]\u{1b}[0m");
        crate::text::append_chars(&mut out, &subvec(cs, caution.len(), n));
        out
    } else if has_prefix(cs, &danger) {
        let mut out = chars_of("\u{1b}[31m[DANGER]\u{1b}[0m");
        crate::text::append_chars(&mut out, &subvec(cs, danger.len(), n));
        out
    } else {
        let mut out: Vec<char> = Vec::new();
        crate::text::append_chars(&mut out, cs);
        out
    }
}

/// The length of the word at the head of `s`.
pub open spec fn word_len(s: Seq<char>) -> int
    decreases s.len(),
{
    if s.len() > 0 && is_word_char(s[0]) {
        1 + word_len(s.drop_first())
    } else {
        0
    }
}

pub proof fn lemma_word_len_bounds(s: Seq<char>)
    ensures
        0 <= word_len(s) <= s.len(),
        forall|i: int| 0 <= i < word_len(s) ==> is_word_char(s[i]),
        word_len(s) < s.len() ==> !is_word_char(s[word_len(s)]),
    decreases s.len(),
{
    if s.len() > 0 && is_word_char(s[0]) {
        lemma_word_len_bounds(s.drop_first());
        assert forall|i: int| 0 <= i < word_len(s) implies is_word_char(s[i]) by {
            if i > 0 {
                assert(s.drop_first()[i - 1] == s[i]);
            }
        }
        if word_len(s) < s.len() {
            assert(s.drop_first()[word_len(s) - 1] == s[word_len(s)]);
        }
    }
}

/// How the body of one code line is coloured, token by token: words through
/// `spec_colorize_word`, quoted spans and comments in their colours, and
/// every other character as itself.
pub open spec fn hl_rest(s: Seq<char>, kws: Seq<Seq<char>>, hash_comment: bool) -> Seq<char>
    decreases s.len(),
    via hl_rest_dec
{
    if s.len() == 0 {
        Seq::<char>::empty()
    } else if is_word_char(s[0]) {
        let k = word_len(s);
        spec_colorize_word(s.take(k), kws) + hl_rest(s.skip(k), kws, hash_comment)
    } else if s[0] == '"' || s[0] == '\'' {
        let e = 1 + find_char(s.drop_first(), s[0]);
        let stop = if e + 1 <= s.len() {
            e + 1
        } else {
            s.len() as int
        };
        ansi_string() + s.take(stop) + ansi_reset() + hl_rest(s.skip(stop), kws, hash_comment)
    } else if s[0] == '/' && s.len() >= 2 && s[1] == '/' {
        ansi_comment() + s + ansi_reset()
    } else if s[0] == '#' && hash_comment {
        ansi_comment() + s + ansi_reset()
    } else {
        seq![s[0]] + hl_rest(s.drop_first(), kws, hash_comment)
    }
}

#[via_fn]
proof fn hl_rest_dec(s: Seq<char>, kws: Seq<Seq<char>>, hash_comment: bool) {
    if s.len() > 0 {
        if is_word_char(s[0]) {
            lemma_word_len_bounds(s);
        } else if s[0] == '"' || s[0] == '\'' {
            lemma_find_char_bounds(s.drop_first(), s[0]);
        }
    }
}

/// How one code line is coloured: a line whose first non-blank text is the
/// dialect's comment mark is all comment, anything else goes token by token.
pub open spec fn spec_highlight_line(
    line: Seq<char>,
    kws: Seq<Seq<char>>,
    comment_prefix: Seq<char>,
) -> Seq<char> {
    if starts_with(spec_trim_start(line), comment_prefix) {
        ansi_comment() + line + ansi_reset()
    } else {
        hl_rest(line, kws, comment_prefix == "#"@)
    }
}

/// Colour one code line.
pub fn highlight_line(line: &Vec<char>, kws: &Vec<Vec<char>>, comment_prefix: &Vec<char>) -> (r:
    Vec<char>)
    ensures
        r@ == spec_highlight_line(line@, views_of(kws@), comment_prefix@),
{
    let trimmed = trim_start_exec(line);
    if has_prefix(&trimmed, comment_prefix) {
        let mut out = chars_of("\u{1b}[38;5;245m");
        crate::text::append_chars(&mut out, line);
        crate::text::append_chars(&mut out, &chars_of("\u{1b}[0m"));
        return out;
    }
    let hash = eq_chars(comment_prefix, &chars_of("#"));
    let ghost kv = views_of(kws@);
    let ghost whole = hl_rest(line@, kv, comment_prefix@ == "#"@);
    let n = line.len();
    let mut out: Vec<char> = Vec::new();
    let mut i: usize = 0;
    proof {
        assert(line@.skip(0) =~= line@);
        assert(out@ + hl_rest(line@.skip(0), kv, hash) =~= whole);
    }
    while i < n
        invariant
            n == line@.len(),
            kv == views_of(kws@),
            hash == (comment_prefix@ == "#"@),
            whole == hl_rest(line@, kv, hash),
            i <= n,
            out@ + hl_rest(line@.skip(i as int), kv, hash) =~= whole,
        decreases n - i,
    {
        let ghost t = line@.skip(i as int);
        proof {
            assert(t[0] == line@[i as int]);
            assert(t.drop_first() =~= line@.skip(i + 1));
        }
        let ghost before = out@;
        let c = line[i];
        if word_char(c) {
            let mut j: usize = i + 1;
            while j < n && word_char(line[j])
                invariant
                    n == line@.len(),
                    i < j <= n,
                    forall|m: int| i <= m < j ==> is_word_char(line@[m]),
                decreases n - j,
            {
                j += 1;
            }
            proof {
                lemma_word_len_bounds(t);
                assert forall|m: int| 0 <= m < j - i implies is_word_char(t[m]) by {
                    assert(t[m] == line@[i + m]);
                }
                if j < n {
                    assert(t[j - i] == line@[j as int]);
                }
                assert(word_len(t) == j - i) by {
                    if word_len(t) < j - i {
                        assert(is_word_char(t[word_len(t)]));
                    }
                    if word_len(t) > j - i {
                        assert(is_word_char(t[j - i]));
                    }
                }
            }
            let w = subvec(line, i, j);
            proof {
                assert(w@ =~= t.take(j - i));
            }
            let cw = colorize_word(&w, kws);
            crate::text::append_chars(&mut out, &cw);
            proof {
                assert(t.skip(j - i) =~= line@.skip(j as int));
                assert(before + (spec_colorize_word(t.take(j - i), kv) + hl_rest(
                    t.skip(j - i),
                    kv,
                    hash,
                )) =~= out@ + hl_rest(line@.skip(j as int), kv, hash));
            }
            i = j;
        } else if c == '"' || c == '\'' {
            let e = find_from(line, i + 1, c);
            let stop = if e < n {
                e + 1
            } else {
                n
            };
            proof {
                assert(e - (i + 1) == find_char(line@.skip(i + 1), c));
                assert(1 + find_char(t.drop_first(), t[0]) == e - i);
                assert(t.take(stop - i) =~= line@.subrange(i as int, stop as int));
                assert(t.skip(stop - i) =~= line@.skip(stop as int));
            }
            let span = subvec(line, i, stop);
            crate::text::append_chars(&mut out, &chars_of("\u{1b}[38;5;114m"));
            crate::text::append_chars(&mut out, &span);
            crate::text::append_chars(&mut out, &chars_of("\u{1b}[0m"));
            proof {
                assert(before + (ansi_string() + t.take(stop - i) + ansi_reset() + hl_rest(
                    t.skip(stop - i),
                    kv,
                    hash,
                )) =~= out@ + hl_rest(line@.skip(stop as int), kv, hash));
            }
            i = stop;
        } else if c == '/' && i + 1 < n && line[i + 1] == '/' {
            proof {
                assert(t.len() >= 2);
                assert(t[1] == line@[i + 1]);
            }
            let rest = subvec(line, i, n);
            crate::text::append_chars(&mut out, &chars_of("\u{1b}[38;5;245m"));
            crate::text::append_chars(&mut out, &rest);
            crate::text::append_chars(&mut out, &chars_of("\u{1b}[0m"));
            proof {
                assert(rest@ =~= t);
                assert(line@.skip(n as int) =~= Seq::<char>::empty());
                assert(before + (ansi_comment() + t + ansi_reset()) =~= out@ + hl_rest(
                    line@.skip(n as int),
                    kv,
                    hash,
                ));
            }
            i = n;
        } else if c == '#' && hash {
            proof {
                if t.len() >= 2 {
                    assert(t[1] == line@[i + 1]);
                }
            }
            let rest = subvec(line, i, n);
            crate::text::append_chars(&mut out, &chars_of("\u{1b}[38;5;245m"));
            crate::text::append_chars(&mut out, &rest);
            crate::text::append_chars(&mut out, &chars_of("\u{1b}[0m"));
            proof {
                assert(rest@ =~= t);
                assert(line@.skip(n as int) =~= Seq::<char>::empty());
                assert(before + (ansi_comment() + t + ansi_reset()) =~= out@ + hl_rest(
                    line@.skip(n as int),
                    kv,
                    hash,
                ));
            }
            i = n;
        } else {
            out.push(c);
            proof {
                if t.len() >= 2 {
                    assert(t[1] == line@[i + 1]);
                }
                assert(before + (seq![t[0]] + hl_rest(t.drop_first(), kv, hash)) =~= out@
                    + hl_rest(line@.skip(i + 1), kv, hash));
            }
            i += 1;
        }
    }
    proof {
        assert(line@.skip(n as int) =~= Seq::<char>::empty());
        assert(out@ =~= whole);
    }
    out
}

/// How a whole code block is coloured: each line through
/// `spec_highlight_line`, newline-joined, trailing whitespace trimmed.
pub open spec fn hl_lines_spec(
    ls: Seq<Seq<char>>,
    kws: Seq<Seq<char>>,
    comment_prefix: Seq<char>,
) -> Seq<char>
    decreases ls.len(),
{
    if ls.len() == 0 {
        Seq::<char>::empty()
    } else {
        spec_highlight_line(ls[0], kws, comment_prefix) + seq!['\n'] + hl_lines_spec(
            ls.drop_first(),
            kws,
            comment_prefix,
        )
    }
}

/// The colouring of a whole block.
pub open spec fn spec_highlight_block(
    code: Seq<char>,
    kws: Seq<Seq<char>>,
    comment_prefix: Seq<char>,
) -> Seq<char> {
    spec_trim_end(hl_lines_spec(spec_lines(code), kws, comment_prefix))
}

/// The colouring a style gives a code block: the matching dialect, or the
/// text unchanged for the plain-English style.
pub open spec fn spec_highlight(code: Seq<char>, style: ExplainStyle) -> Seq<char> {
    match style {
        ExplainStyle::Typescript => spec_highlight_block(code, ts_keywords(), "//"@),
        ExplainStyle::Python => spec_highlight_block(code, py_keywords(), "#"@),
        ExplainStyle::Ruby => spec_highlight_block(code, rb_keywords(), "#"@),
        ExplainStyle::Human => code,
    }
}

/// Colour a block line by line.
fn highlight_block(code: &str, kws: &Vec<Vec<char>>, comment_prefix: &Vec<char>) -> (r: String)
    ensures
        r@ == spec_highlight_block(code@, views_of(kws@), comment_prefix@),
{
    let cs = chars_of(code);
    let lines = split_lines(&cs);
    let ghost lsv = spec_lines(cs@);
    let n = lines.len();
    let mut out: Vec<char> = Vec::new();
    let mut i: usize = 0;
    proof {
        assert(lsv.skip(0) =~= lsv);
        assert(out@ + hl_lines_spec(lsv.skip(0), views_of(kws@), comment_prefix@) =~= hl_lines_spec(
            lsv,
            views_of(kws@),
            comment_prefix@,
        ));
    }
    while i < n
        invariant
            n == lines@.len(),
            n == lsv.len(),
            forall|j: int| 0 <= j < n ==> lines@[j]@ == lsv[j],
            i <= n,
            out@ + hl_lines_spec(lsv.skip(i as int), views_of(kws@), comment_prefix@)
                =~= hl_lines_spec(lsv, views_of(kws@), comment_prefix@),
        decreases n - i,
    {
        let ghost t = lsv.skip(i as int);
        proof {
            assert(t[0] == lsv[i as int]);
            assert(t.drop_first() =~= lsv.skip(i + 1));
        }
        let hl = highlight_line(&lines[i], kws, comment_prefix);
        crate::text::append_chars(&mut out, &hl);
        out.push('\n');
        i += 1;
    }
    proof {
        assert(lsv.skip(n as int) =~= Seq::<Seq<char>>::empty());
        assert(out@ =~= hl_lines_spec(lsv, views_of(kws@), comment_prefix@));
    }
    let trimmed = trim_end_exec(&out);
    string_of(&trimmed)
}

/// Colour `code` in the dialect `style` names; the plain-English style
/// leaves it untouched.
pub fn highlight(code: &str, style: ExplainStyle) -> (r: String)
    ensures
        r@ == spec_highlight(code@, style),
{
    match style {
        ExplainStyle::Typescript => highlight_typescript(code),
        ExplainStyle::Python => highlight_python(code),
        ExplainStyle::Ruby => highlight_ruby(code),
        ExplainStyle::Human => String::from_str(code),
    }
}

/// Colour `code` as the TypeScript dialect.
pub fn highlight_typescript(code: &str) -> (r: String)
    ensures
        r@ == spec_highlight_block(code@, ts_keywords(), "//"@),
{
    let kws = ts_keyword_list();
    highlight_block(code, &kws, &chars_of("//"))
}

/// Colour `code` as the Python dialect.
pub fn highlight_python(code: &str) -> (r: String)
    ensures
        r@ == spec_highlight_block(code@, py_keywords(), "#"@),
{
    let kws = py_keyword_list();
    highlight_block(code, &kws, &chars_of("#"))
}

/// Colour `code` as the Ruby dialect.
pub fn highlight_ruby(code: &str) -> (r: String)
    ensures
        r@ == spec_highlight_block(code@, rb_keywords(), "#"@),
{
    let kws = rb_keyword_list();
    highlight_block(code, &kws, &chars_of("#"))
}

/// How a whole explanation is coloured, line by line: lines between fences
/// gather into the code buffer, a closing fence emits the buffer through
/// `spec_highlight`, and prose lines get their safety tag coloured. The
/// fence lines themselves are dropped, and an unclosed buffer is, too.
pub open spec fn he_lines(
    ls: Seq<Seq<char>>,
    in_block: bool,
    buf: Seq<char>,
    style: ExplainStyle,
) -> Seq<char>
    decreases ls.len(),
{
    if ls.len() == 0 {
        Seq::<char>::empty()
    } else {
        let l = ls[0];
        let rest = ls.drop_first();
        if starts_with(l, "```"@) {
            if in_block {
                spec_highlight(buf, style) + seq!['\n'] + he_lines(
                    rest,
                    false,
                    Seq::<char>::empty(),
                    style,
                )
            } else {
                he_lines(rest, true, buf, style)
            }
        } else if in_block {
            he_lines(rest, true, buf + l + seq!['\n'], style)
        } else {
            spec_format_safety(l) + seq!['\n'] + he_lines(rest, false, buf, style)
        }
    }
}

/// The colouring of a whole explanation.
pub open spec fn spec_highlight_explanation(e: Seq<char>, style: ExplainStyle) -> Seq<char> {
    spec_trim_end(he_lines(spec_lines(e), false, Seq::<char>::empty(), style))
}

/// Colour a whole explanation: the safety line and the fenced code block.
pub fn highlight_explanation(explanation: &str, style: ExplainStyle) -> (r: String)
    ensures
        r@ == spec_highlight_explanation(explanation@, style),
{
    let cs = chars_of(explanation);
    let lines = split_lines(&cs);
    let ghost lsv = spec_lines(cs@);
    let n = lines.len();
    let fence = chars_of("```");
    let mut out: Vec<char> = Vec::new();
    let mut buf: Vec<char> = Vec::new();
    let mut in_block = false;
    let mut i: usize = 0;
    proof {
        assert(lsv.skip(0) =~= lsv);
        assert(out@ + he_lines(lsv.skip(0), in_block, buf@, style) =~= he_lines(
            lsv,
            false,
            Seq::<char>::empty(),
            style,
        ));
    }
    while i < n
        invariant
            n == lines@.len(),
            n == lsv.len(),
            forall|j: int| 0 <= j < n ==> lines@[j]@ == lsv[j],
            fence@ == "```"@,
            i <= n,
            out@ + he_lines(lsv.skip(i as int), in_block, buf@, style) =~= he_lines(
                lsv,
                false,
                Seq::<char>::empty(),
                style,
            ),
        decreases n - i,
    {
        let ghost t = lsv.skip(i as int);
        proof {
            assert(t[0] == lsv[i as int]);
            assert(t.drop_first() =~= lsv.skip(i + 1));
        }
        let ghost before = out@;
        let ghost before_buf = buf@;
        let ghost was_in_block = in_block;
        if has_prefix(&lines[i], &fence) {
            if in_block {
                let hl = highlight(string_of(&buf).as_str(), style);
                crate::text::append_chars(&mut out, &chars_of(hl.as_str()));
                out.push('\n');
                buf = Vec::new();
                in_block = false;
                proof {
                    assert(he_lines(t, true, before_buf, style) == spec_highlight(
                        before_buf,
                        style,
                    ) + seq!['\n'] + he_lines(t.drop_first(), false, Seq::<char>::empty(), style));
                    assert(out@ =~= before + spec_highlight(before_buf, style) + seq!['\n']);
                    assert(out@ + he_lines(lsv.skip(i + 1), in_block, buf@, style) =~= before
                        + he_lines(t, was_in_block, before_buf, style));
                }
            } else {
                in_block = true;
                proof {
                    assert(out@ + he_lines(lsv.skip(i + 1), in_block, buf@, style) =~= before
                        + he_lines(t, was_in_block, before_buf, style));
                }
            }
        } else if in_block {
            crate::text::append_chars(&mut buf, &lines[i]);
            buf.push('\n');
            proof {
                assert(buf@ =~= before_buf + t[0] + seq!['\n']);
                assert(out@ + he_lines(lsv.skip(i + 1), in_block, buf@, style) =~= before
                    + he_lines(t, was_in_block, before_buf, style));
            }
        } else {
            let fs = format_safety_chars(&lines[i]);
            crate::text::append_chars(&mut out, &fs);
            out.push('\n');
            proof {
                assert(out@ =~= before + spec_format_safety(t[0]) + seq!['\n']);
                assert(out@ + he_lines(lsv.skip(i + 1), in_block, buf@, style) =~= before
                    + he_lines(t, was_in_block, before_buf, style));
            }
        }
        i += 1;
    }
    proof {
        assert(lsv.skip(n as int) =~= Seq::<Seq<char>>::empty());
        assert(out@ =~= he_lines(lsv, false, Seq::<char>::empty(), style));
    }
    let trimmed = trim_end_exec(&out);
    string_of(&trimmed)
}

/// Dim secondary text.
pub fn dim(text: &str) -> (r: String)
    ensures
        r@ == ansi_dim() + text@ + ansi_reset(),
{
    let mut out = chars_of("\u{1b}[2m");
    crate::text::append_chars(&mut out, &chars_of(text));
    crate::text::append_chars(&mut out, &chars_of("\u{1b}[0m"));
    string_of(&out)
}

/// Bold cyan, for the command line itself.
pub fn command_style(text: &str) -> (r: String)
    ensures
        r@ == "\u{1b}[1;36m"@ + text@ + "\u{1b}[0m"@,
{
    let mut out = chars_of("\u{1b}[1;36m");
    crate::text::append_chars(&mut out, &chars_of(text));
    crate::text::append_chars(&mut out, &chars_of("\u{1b}[0m"));
    string_of(&out)
}

} // verus!
