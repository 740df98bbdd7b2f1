//! Log entries for executed commands.
//!
//! An entry records the query, the command, the explanation if one was
//! shown, and the style. The entry and its file name — the timestamp
//! followed by a slug of the query's first words — are built here; reading
//! the clock is the one trusted step, and writing the file is I/O outside
//! the crate.

use vstd::prelude::*;

use crate::ipc::spec_style_name;
use crate::ipc::style_name;
use crate::ipc::ExplainStyle;
use crate::text::alphanumeric;
use crate::text::chars_of;
use crate::text::is_space;
use crate::text::spec_trim_start;
use crate::text::string_of;
use crate::text::subvec;

verus! {

/// One log entry.
pub struct LogEntry {
    pub timestamp: u64,
    pub query: String,
    pub command: String,
    pub explanation: Option<String>,
    pub style: String,
    pub executed: bool,
    pub exit_code: Option<i32>,
}

/// The mathematical value of a log entry.
pub struct LogEntryV {
    pub timestamp: u64,
    pub query: Seq<char>,
    pub command: Seq<char>,
    pub explanation: Option<Seq<char>>,
    pub style: Seq<char>,
    pub executed: bool,
    pub exit_code: Option<i32>,
}

impl View for LogEntry {
    type V = LogEntryV;

    open spec fn view(&self) -> LogEntryV {
        LogEntryV {
            timestamp: self.timestamp,
            query: self.query@,
            command: self.command@,
            explanation: match &self.explanation {
                Some(e) => Some(e@),
                None => None,
            },
            style: self.style@,
            executed: self.executed,
            exit_code: self.exit_code,
        }
    }
}

/// Relies on `std::time::SystemTime::now` and `duration_since(UNIX_EPOCH)`:
/// the seconds of the system clock past the Unix epoch, or zero for a clock
/// before it. Nothing is promised of the value: it depends on the clock.
#[verifier::external_body]
pub fn now() -> u64 {
    std::time::SystemTime::now()
        .duration_since(std::time::UNIX_EPOCH)
        .map(|d| d.as_secs())
        .unwrap_or(0)
}

/// Build the entry for one session: stamped with the clock, not yet
/// executed.
pub fn create_entry(
    query: &str,
    command: &str,
    explanation: Option<String>,
    style: ExplainStyle,
) -> (r: LogEntry)
    ensures
        r@.query == query@,
        r@.command == command@,
        r@.explanation == match explanation {
            Some(e) => Some(e@),
            None => None,
        },
        r@.style == spec_style_name(style),
        !r@.executed,
        r@.exit_code is None,
{
    LogEntry {
        timestamp: now(),
        query: String::from_str(query),
        command: String::from_str(command),
        explanation,
        style: String::from_str(style_name(style)),
        executed: false,
        exit_code: None,
    }
}

/// One decimal digit.
pub open spec fn spec_dec_digit(d: int) -> char {
    if d == 0 {
        '0'
    } else if d == 1 {
        '1'
    } else if d == 2 {
        '2'
    } else if d == 3 {
        '3'
    } else if d == 4 {
        '4'
    } else if d == 5 {
        '5'
    } else if d == 6 {
        '6'
    } else if d == 7 {
        '7'
    } else if d == 8 {
        '8'
    } else {
        '9'
    }
}

/// The decimal spelling of a non-negative number.
pub open spec fn spec_u64_dec(n: int) -> Seq<char>
    decreases n,
{
    if n < 10 {
        seq![spec_dec_digit(n)]
    } else {
        spec_u64_dec(n / 10) + seq![spec_dec_digit(n % 10)]
    }
}

/// One decimal digit, executably.
fn dec_digit(d: u64) -> (r: char)
    requires
        d < 10,
    ensures
        r == spec_dec_digit(d as int),
{
    if d == 0 {
        '0'
    } else if d == 1 {
        '1'
    } else if d == 2 {
        '2'
    } else if d == 3 {
        '3'
    } else if d == 4 {
        '4'
    } else if d == 5 {
        '5'
    } else if d == 6 {
        '6'
    } else if d == 7 {
        '7'
    } else if d == 8 {
        '8'
    } else {
        '9'
    }
}

/// The decimal spelling of `n`.
pub fn u64_to_dec(n: u64) -> (r: Vec<char>)
    ensures
        r@ == spec_u64_dec(n as int),
    decreases n,
{
    if n < 10 {
        let mut r: Vec<char> = Vec::new();
        r.push(dec_digit(n));
        proof {
            assert(r@ =~= seq![spec_dec_digit(n as int)]);
        }
        r
    } else {
        let mut r = u64_to_dec(n / 10);
        r.push(dec_digit(n % 10));
        proof {
            assert(r@ =~= spec_u64_dec(n as int / 10) + seq![spec_dec_digit(n as int % 10)]);
        }
        r
    }
}

/// The length of the run of non-whitespace at the head of `s`.
pub open spec fn nonspace_len(s: Seq<char>) -> int
    decreases s.len(),
{
    if s.len() > 0 && !is_space(s[0]) {
        1 + nonspace_len(s.drop_first())
    } else {
        0
    }
}

proof fn lemma_nonspace_len_bounds(s: Seq<char>)
    ensures
        0 <= nonspace_len(s) <= s.len(),
        forall|i: int| 0 <= i < nonspace_len(s) ==> !is_space(s[i]),
        nonspace_len(s) < s.len() ==> is_space(s[nonspace_len(s)]),
    decreases s.len(),
{
    if s.len() > 0 && !is_space(s[0]) {
        lemma_nonspace_len_bounds(s.drop_first());
        assert forall|i: int| 0 <= i < nonspace_len(s) implies !is_space(s[i]) by {
            if i > 0 {
                assert(s.drop_first()[i - 1] == s[i]);
            }
        }
        if nonspace_len(s) < s.len() {
            assert(s.drop_first()[nonspace_len(s) - 1] == s[nonspace_len(s)]);
        }
    }
}

proof fn lemma_trim_start_len(s: Seq<char>)
    ensures
        spec_trim_start(s).len() <= s.len(),
        spec_trim_start(s).len() > 0 ==> !is_space(spec_trim_start(s)[0]),
    decreases s.len(),
{
    if s.len() > 0 && is_space(s[0]) {
        lemma_trim_start_len(s.drop_first());
    }
}

/// The whitespace-separated words of `s`, in order, without empties.
pub open spec fn spec_words(s: Seq<char>) -> Seq<Seq<char>>
    decreases s.len(),
    via spec_words_decreases
{
    let t = spec_trim_start(s);
    if t.len() == 0 {
        seq![]
    } else {
        let k = nonspace_len(t);
        seq![t.take(k)] + spec_words(t.skip(k))
    }
}

#[via_fn]
proof fn spec_words_decreases(s: Seq<char>) {
    let t = spec_trim_start(s);
    lemma_trim_start_len(s);
    lemma_nonspace_len_bounds(t);
}

/// The first `limit` words of `parts`, joined by a dash.
pub open spec fn spec_join_dash(parts: Seq<Seq<char>>) -> Seq<char>
    decreases parts.len(),
{
    if parts.len() == 0 {
        Seq::<char>::empty()
    } else if parts.len() == 1 {
        parts[0]
    } else {
        parts[0] + seq!['-'] + spec_join_dash(parts.drop_first())
    }
}

/// The alphanumeric and dash characters of `s`, in order, at most `budget`
/// of them.
pub open spec fn spec_slug_take(s: Seq<char>, budget: nat) -> Seq<char>
    decreases s.len(),
{
    if s.len() == 0 || budget == 0 {
        Seq::<char>::empty()
    } else if alphanumeric(s[0]) || s[0] == '-' {
        seq![s[0]] + spec_slug_take(s.drop_first(), (budget - 1) as nat)
    } else {
        spec_slug_take(s.drop_first(), budget)
    }
}

/// How many words of the query go into the slug.
pub const SLUG_WORDS: usize = 3;

/// How many characters the slug may hold.
pub const SLUG_CHARS: usize = 30;

/// The slug of a query: its first three words dash-joined, kept to
/// alphanumeric characters and dashes, at most thirty of them.
pub open spec fn spec_slug(query: Seq<char>) -> Seq<char> {
    let ws = spec_words(query);
    let wn = if ws.len() < SLUG_WORDS {
        ws.len() as int
    } else {
        SLUG_WORDS as int
    };
    spec_slug_take(spec_join_dash(ws.take(wn)), SLUG_CHARS as nat)
}

/// The file name an entry is kept under: the timestamp, an underscore, the
/// query's slug, and the `.json` suffix.
pub open spec fn spec_log_filename(e: LogEntryV) -> Seq<char> {
    spec_u64_dec(e.timestamp as int) + seq!['_'] + spec_slug(e.query) + ".json"@
}

/// The whitespace-separated words of `v`.
fn words_of(v: &Vec<char>) -> (r: Vec<Vec<char>>)
    ensures
        crate::text::views_of(r@) == spec_words(v@),
{
    let n = v.len();
    let mut out: Vec<Vec<char>> = Vec::new();
    let mut i: usize = 0;
    proof {
        assert(v@.skip(0) =~= v@);
        assert(crate::text::views_of(out@) + spec_words(v@.skip(0)) =~= spec_words(v@));
    }
    while i < n
        invariant
            n == v@.len(),
            i <= n,
            crate::text::views_of(out@) + spec_words(v@.skip(i as int)) =~= spec_words(v@),
        decreases n - i,
    {
        let ghost t0 = v@.skip(i as int);
        if crate::text::space(v[i]) {
            proof {
                assert(t0[0] == v@[i as int]);
                assert(t0.drop_first() =~= v@.skip(i + 1));
                assert(spec_trim_start(t0) == spec_trim_start(v@.skip(i + 1)));
                assert(spec_words(t0) == spec_words(v@.skip(i + 1)));
            }
            i += 1;
        } else {
            let mut j: usize = i + 1;
            while j < n && !crate::text::space(v[j])
                invariant
                    n == v@.len(),
                    i < j <= n,
                    forall|m: int| i <= m < j ==> !is_space(v@[m]),
                    !is_space(v@[i as int]),
                decreases n - j,
            {
                j += 1;
            }
            proof {
                assert(t0[0] == v@[i as int]);
                assert(spec_trim_start(t0) == t0);
                lemma_nonspace_len_bounds(t0);
                assert forall|m: int| 0 <= m < j - i implies !is_space(t0[m]) by {
                    assert(t0[m] == v@[i + m]);
                }
                if j < n {
                    assert(t0[j - i] == v@[j as int]);
                }
                assert(nonspace_len(t0) == j - i) by {
                    if nonspace_len(t0) < j - i {
                        assert(!is_space(t0[nonspace_len(t0)]));
                    }
                    if nonspace_len(t0) > j - i {
                        assert(!is_space(t0[j - i]));
                    }
                }
            }
            let w = subvec(v, i, j);
            let ghost old_out = out@;
            out.push(w);
            proof {
                assert(w@ =~= t0.take(j - i));
                assert(t0.skip(j - i) =~= v@.skip(j as int));
                assert(crate::text::views_of(out@) =~= crate::text::views_of(old_out) + seq![w@]);
                assert(crate::text::views_of(out@) + spec_words(v@.skip(j as int)) =~= spec_words(
                    v@,
                ));
            }
            i = j;
        }
    }
    proof {
        assert(v@.skip(n as int) =~= Seq::<char>::empty());
        assert(spec_trim_start(Seq::<char>::empty()) == Seq::<char>::empty());
        assert(spec_words(v@.skip(n as int)) =~= Seq::<Seq<char>>::empty());
        assert(crate::text::views_of(out@) =~= spec_words(v@));
    }
    out
}

/// The file name for `entry`.
pub fn log_filename(entry: &LogEntry) -> (r: String)
    ensures
        r@ == spec_log_filename(entry@),
{
    let q = chars_of(entry.query.as_str());
    let ws = words_of(&q);
    let wn = if ws.len() < SLUG_WORDS {
        ws.len()
    } else {
        SLUG_WORDS
    };
    let ghost taken = spec_words(q@).take(wn as int);
    proof {
        assert(taken =~= crate::text::views_of(ws@).take(wn as int));
    }
    let mut joined: Vec<char> = Vec::new();
    let mut i: usize = 0;
    proof {
        assert(taken.skip(0) =~= taken);
    }
    while i < wn
        invariant
            wn <= ws@.len(),
            taken == spec_words(q@).take(wn as int),
            taken.len() == wn,
            forall|j: int| 0 <= j < wn ==> ws@[j]@ == taken[j],
            i <= wn,
            spec_join_dash(taken) =~= joined@ + spec_join_dash(taken.skip(i as int)),
        decreases wn - i,
    {
        let ghost t = taken.skip(i as int);
        proof {
            assert(t[0] == taken[i as int]);
            assert(t.drop_first() =~= taken.skip(i + 1));
        }
        let ghost before = joined@;
        crate::text::append_chars(&mut joined, &ws[i]);
        if i + 1 < wn {
            joined.push('-');
            proof {
                assert(t.len() >= 2);
                assert(joined@ =~= before + t[0] + seq!['-']);
                assert(spec_join_dash(t) == t[0] + seq!['-'] + spec_join_dash(taken.skip(i + 1)));
                assert(spec_join_dash(taken) =~= joined@ + spec_join_dash(taken.skip(i + 1)));
            }
        } else {
            proof {
                assert(t.len() == 1);
                assert(spec_join_dash(t) == t[0]);
                assert(taken.skip(i + 1) =~= Seq::<Seq<char>>::empty());
                assert(spec_join_dash(taken) =~= joined@ + spec_join_dash(taken.skip(i + 1)));
            }
        }
        i += 1;
    }
    proof {
        assert(taken.skip(wn as int) =~= Seq::<Seq<char>>::empty());
        assert(joined@ =~= spec_join_dash(taken));
    }
    let jn = joined.len();
    let mut slug: Vec<char> = Vec::new();
    let mut k: usize = 0;
    proof {
        assert(joined@.skip(0) =~= joined@);
        assert(spec_slug_take(joined@, SLUG_CHARS as nat) =~= slug@ + spec_slug_take(
            joined@.skip(0),
            (SLUG_CHARS - slug@.len()) as nat,
        ));
    }
    while k < jn && slug.len() < SLUG_CHARS
        invariant
            jn == joined@.len(),
            k <= jn,
            slug@.len() <= SLUG_CHARS,
            spec_slug_take(joined@, SLUG_CHARS as nat) =~= slug@ + spec_slug_take(
                joined@.skip(k as int),
                (SLUG_CHARS - slug@.len()) as nat,
            ),
        decreases jn - k,
    {
        let ghost t = joined@.skip(k as int);
        proof {
            assert(t[0] == joined@[k as int]);
            assert(t.drop_first() =~= joined@.skip(k + 1));
        }
        let ghost before = slug@;
        let c = joined[k];
        if c.is_alphanumeric() || c == '-' {
            slug.push(c);
            proof {
                assert(spec_slug_take(t, (SLUG_CHARS - before.len()) as nat) == seq![t[0]]
                    + spec_slug_take(t.drop_first(), (SLUG_CHARS - before.len() - 1) as nat));
                assert(spec_slug_take(joined@, SLUG_CHARS as nat) =~= slug@ + spec_slug_take(
                    joined@.skip(k + 1),
                    (SLUG_CHARS - slug@.len()) as nat,
                ));
            }
        } else {
            proof {
                assert(spec_slug_take(t, (SLUG_CHARS - before.len()) as nat) == spec_slug_take(
                    t.drop_first(),
                    (SLUG_CHARS - before.len()) as nat,
                ));
            }
        }
        k += 1;
    }
    proof {
        let left = joined@.skip(k as int);
        if k == jn {
            assert(left =~= Seq::<char>::empty());
            assert(spec_slug_take(left, (SLUG_CHARS - slug@.len()) as nat)
                =~= Seq::<char>::empty());
        } else {
            assert(slug@.len() == SLUG_CHARS);
            assert(spec_slug_take(left, 0) =~= Seq::<char>::empty());
        }
        assert(slug@ =~= spec_slug_take(joined@, SLUG_CHARS as nat));
        assert(slug@ =~= spec_slug(entry@.query));
    }
    let mut name = u64_to_dec(entry.timestamp);
    name.push('_');
    crate::text::append_chars(&mut name, &slug);
    crate::text::append_chars(&mut name, &chars_of(".json"));
    proof {
        assert(name@ =~= spec_log_filename(entry@));
    }
    string_of(&name)
}

} // verus!
