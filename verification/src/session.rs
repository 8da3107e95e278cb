//! The interactive session: classifying one line of input and deciding what
//! the loop does next.
//!
//! The controller owns the current advertisement set and the request ceiling.
//! Each line of input is trimmed and classified: a number selects a rank, `q`
//! or `quit` ends the session, `r` or `reload` discards the set and asks for a
//! fresh fetch, anything else earns a usage hint. The decision function only
//! decides; the embedding application performs the chosen action and, on a
//! reload, hands the freshly decoded set back.

use vstd::prelude::*;
use vstd::string::StringExecFns;
use crate::adverts::{AdView, AmsData};
use crate::decode::{digits_val, digits_value_x, is_digit, is_digit_seq};

verus! {

/// A blank character, as line trimming understands it: the Unicode
/// `White_Space` set.
pub open spec fn is_blank(c: char) -> bool {
    let u = c as u32;
    (0x09 <= u <= 0x0D) || u == 0x20 || u == 0x85 || u == 0xA0 || u == 0x1680 || (0x2000 <= u
        <= 0x200A) || u == 0x2028 || u == 0x2029 || u == 0x202F || u == 0x205F || u == 0x3000
}

/// The first position at or after `i` that holds no blank.
pub open spec fn blank_run_end(s: Seq<char>, i: int) -> int
    decreases s.len() - i,
{
    if 0 <= i < s.len() && is_blank(s[i]) {
        blank_run_end(s, i + 1)
    } else {
        i
    }
}

/// The position after the last non-blank before `j`.
pub open spec fn blank_run_start(s: Seq<char>, j: int) -> int
    decreases j,
{
    if 0 < j <= s.len() && is_blank(s[j - 1]) {
        blank_run_start(s, j - 1)
    } else {
        j
    }
}

/// A line with its leading and trailing blanks removed.
pub open spec fn spec_trim(s: Seq<char>) -> Seq<char> {
    let a = blank_run_end(s, 0);
    let b = blank_run_start(s, s.len() as int);
    if a <= b {
        s.subrange(a, b)
    } else {
        Seq::empty()
    }
}

/// The number a trimmed token denotes: an optional plus sign, then one or
/// more digits, with a value that fits a `usize`.
pub open spec fn spec_parse_usize(t: Seq<char>) -> Option<usize> {
    let d = if t.len() > 0 && t[0] == '+' {
        t.drop_first()
    } else {
        t
    };
    if is_digit_seq(d) && digits_val(d, 0, d.len() as int) <= usize::MAX {
        Some(digits_val(d, 0, d.len() as int) as usize)
    } else {
        None
    }
}

/// One classified line of input.
#[derive(Debug, PartialEq, Eq, Structural)]
pub enum Command {
    /// A number: the 1-based rank of the advertisement to open.
    Select(usize),
    /// `q` or `quit`.
    Quit,
    /// `r` or `reload`.
    Reload,
    /// Anything else: answered with a usage hint.
    Other,
}

/// What a line of input means: a number selects, the quit and reload words do
/// what they say, and anything else is unrecognized.
pub open spec fn spec_classify(line: Seq<char>) -> Command {
    let t = spec_trim(line);
    match spec_parse_usize(t) {
        Some(n) => Command::Select(n),
        None => if t == "q"@ || t == "quit"@ {
            Command::Quit
        } else if t == "r"@ || t == "reload"@ {
            Command::Reload
        } else {
            Command::Other
        },
    }
}

fn is_blank_x(c: char) -> (r: bool)
    ensures
        r == is_blank(c),
{
    let u = c as u32;
    (0x09 <= u && u <= 0x0D) || u == 0x20 || u == 0x85 || u == 0xA0 || u == 0x1680 || (0x2000 <= u
        && u <= 0x200A) || u == 0x2028 || u == 0x2029 || u == 0x202F || u == 0x205F || u == 0x3000
}

proof fn lemma_blank_run_start_bounds(s: Seq<char>, j: int)
    requires
        0 <= j <= s.len(),
    ensures
        0 <= blank_run_start(s, j) <= j,
    decreases j,
{
    if 0 < j <= s.len() && is_blank(s[j - 1]) {
        lemma_blank_run_start_bounds(s, j - 1);
    }
}

/// The trimmed characters of a line.
fn trim_chars(v: &Vec<char>) -> (t: Vec<char>)
    ensures
        t@ == spec_trim(v@),
{
    let n = v.len();
    let mut a: usize = 0;
    while a < n && is_blank_x(v[a])
        invariant
            a <= n,
            n == v@.len(),
            blank_run_end(v@, 0) == blank_run_end(v@, a as int),
        decreases n - a,
    {
        a = a + 1;
    }
    let mut b: usize = n;
    while b > a && is_blank_x(v[b - 1])
        invariant
            a <= b <= n,
            n == v@.len(),
            blank_run_start(v@, n as int) == blank_run_start(v@, b as int),
        decreases b,
    {
        b = b - 1;
    }
    proof {
        assert(blank_run_end(v@, 0) == a as int);
        lemma_blank_run_start_bounds(v@, b as int);
    }
    let mut t: Vec<char> = Vec::new();
    let mut i: usize = a;
    while i < b
        invariant
            a <= i <= b <= v@.len(),
            t@ == v@.subrange(a as int, i as int),
        decreases b - i,
    {
        t.push(v[i]);
        proof {
            assert(t@ =~= v@.subrange(a as int, i + 1));
        }
        i = i + 1;
    }
    proof {
        let sa = blank_run_end(v@, 0);
        let sb = blank_run_start(v@, v@.len() as int);
        if b > a {
            assert(sb == b as int);
            assert(t@ =~= v@.subrange(sa, sb));
        } else {
            assert(sb <= a as int);
            if sa <= sb {
                assert(t@ =~= v@.subrange(sa, sb));
            } else {
                assert(t@ =~= Seq::<char>::empty());
            }
        }
    }
    t
}

proof fn lemma_digits_val_shift(s: Seq<char>, i: int, j: int)
    requires
        0 <= i <= j <= s.len(),
    ensures
        digits_val(s, i, j) == digits_val(s.subrange(i, s.len() as int), 0, j - i),
    decreases j - i,
{
    if i < j {
        lemma_digits_val_shift(s, i, j - 1);
        assert(s.subrange(i, s.len() as int)[j - i - 1] == s[j - 1]);
    }
}

/// Classifies one line of input.
pub fn classify(line: &str) -> (c: Command)
    ensures
        c == spec_classify(line@),
{
    let v = crate::decode::chars_of(line);
    let t = trim_chars(&v);
    let ghost d = if t@.len() > 0 && t@[0] == '+' {
        t@.drop_first()
    } else {
        t@
    };
    let d_start: usize = if t.len() > 0 && t[0] == '+' {
        1
    } else {
        0
    };
    proof {
        assert(d =~= t@.subrange(d_start as int, t@.len() as int));
    }
    let mut all_digits: bool = t.len() > d_start;
    let mut i: usize = d_start;
    while i < t.len() && all_digits
        invariant
            d_start <= i <= t@.len(),
            all_digits ==> t@.len() > d_start,
            all_digits ==> forall|k: int| d_start <= k < i ==> is_digit(#[trigger] t@[k]),
            !all_digits ==> t@.len() == d_start || exists|k: int|
                d_start <= k < t@.len() && !is_digit(#[trigger] t@[k]),
        decreases t@.len() - i,
    {
        let u = t[i] as u32;
        if !(48 <= u && u <= 57) {
            all_digits = false;
        }
        i = i + 1;
    }
    let sel: Option<usize> = if all_digits {
        proof {
            assert(forall|k: int| 0 <= k < d.len() ==> d[k] == t@[k + d_start]);
            assert(is_digit_seq(d));
            lemma_digits_val_shift(t@, d_start as int, t@.len() as int);
        }
        let tn = t.len();
        digits_value_x(&t, d_start, tn)
    } else {
        proof {
            if t@.len() == d_start {
                assert(d.len() == 0);
            } else {
                let k0 = choose|k: int|
                    d_start <= k < t@.len() && !is_digit(#[trigger] t@[k]);
                assert(d[k0 - d_start] == t@[k0]);
                assert(!is_digit(d[k0 - d_start]));
            }
            assert(!is_digit_seq(d));
        }
        None
    };
    proof {
        assert(sel == spec_parse_usize(t@));
    }
    match sel {
        Some(n) => Command::Select(n),
        None => {
            if crate::decode::chars_eq_str(&t, "q") || crate::decode::chars_eq_str(&t, "quit") {
                Command::Quit
            } else if crate::decode::chars_eq_str(&t, "r") || crate::decode::chars_eq_str(
                &t,
                "reload",
            ) {
                Command::Reload
            } else {
                Command::Other
            }
        },
    }
}

/// What the loop does next with one line of input.
pub enum Action {
    /// Open this detail URL in the browser, then keep reading input.
    OpenUrl(String),
    /// Report that no advertisement has the given rank, then keep reading.
    NoMatch,
    /// Print the usage hint, then keep reading.
    Usage,
    /// Discard the set, fetch afresh with a newly captured instant, render,
    /// then keep reading.
    Reload,
    /// Stop: read no further input and fetch nothing more.
    Quit,
}

/// The detail page of the advertisement with this external identifier.
pub open spec fn spec_detail_url(id: Seq<char>) -> Seq<char> {
    "https://arbetsformedlingen.se/platsbanken/annonser/"@ + id
}

/// Builds the detail URL of an advertisement from its external identifier.
pub fn detail_url(id: &str) -> (r: String)
    ensures
        r@ == spec_detail_url(id@),
{
    let mut s = "https://arbetsformedlingen.se/platsbanken/annonser/".to_owned();
    s.append(id);
    s
}

/// The state the controller owns: the current advertisement set, the record
/// ceiling the requests carry, and whether the loop still runs.
pub struct SessionState {
    pub ads: AmsData,
    pub max_records: String,
    pub running: bool,
}

impl SessionState {
    /// A session before its first fetch: an empty set, ready to run.
    pub fn new(max_records: String) -> (r: SessionState)
        ensures
            r.ads@ == Seq::<AdView>::empty(),
            r.max_records == max_records,
            r.running,
    {
        SessionState { ads: AmsData::empty(), max_records, running: true }
    }

    /// Replaces the advertisement set wholesale, as a finished fetch does;
    /// nothing of the old set survives and nothing else changes.
    pub fn replace_ads(&mut self, new_ads: AmsData)
        ensures
            final(self).ads == new_ads,
            final(self).max_records == old(self).max_records,
            final(self).running == old(self).running,
    {
        self.ads = new_ads;
    }

    /// Ends the session; the set and the ceiling stay as they were.
    pub fn quit(&mut self)
        ensures
            final(self).ads == old(self).ads,
            final(self).max_records == old(self).max_records,
            !final(self).running,
    {
        self.running = false;
    }

    /// Decides what one line of input does.
    ///
    /// A rank within the set opens exactly the detail URL of the record at
    /// that rank; rank 0, a rank past the set, or an unrecognized token
    /// changes nothing and opens nothing; the quit words end the session and
    /// the reload words ask for exactly one fresh fetch. The set itself is
    /// never touched here.
    pub fn handle_line(&self, line: &str) -> (a: Action)
        ensures
            ({
                let cmd = spec_classify(line@);
                let k = self.ads@.len();
                &&& (cmd matches Command::Select(n) ==> (if 1 <= n <= k {
                    a matches Action::OpenUrl(u) && u@ == spec_detail_url(self.ads@[n - 1].id)
                } else {
                    a is NoMatch
                }))
                &&& (cmd is Quit ==> a is Quit)
                &&& (cmd is Reload ==> a is Reload)
                &&& (cmd is Other ==> a is Usage)
                &&& (a is OpenUrl ==> (cmd matches Command::Select(n) && 1 <= n <= k))
            }),
    {
        match classify(line) {
            Command::Select(n) => {
                if 1 <= n && n <= self.ads.ads.len() {
                    proof {
                        assert(self.ads@[n - 1] == self.ads.ads@[n - 1]@);
                    }
                    let url = detail_url(self.ads.ads[n - 1].id.as_str());
                    Action::OpenUrl(url)
                } else {
                    Action::NoMatch
                }
            },
            Command::Quit => Action::Quit,
            Command::Reload => Action::Reload,
            Command::Other => Action::Usage,
        }
    }
}

} // verus!
