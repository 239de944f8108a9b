//! Parsing of the download tool's progress lines, such as
//! `[download]  45.2% of 280.00MiB at 2.50MiB/s ETA 00:52`.
//!
//! A progress line holds the tag `[download]`, whitespace, a percentage
//! (`digits`, optionally `.` and more digits) followed by `%`, the word `of`
//! between whitespace, and a size token (digits and dots, then word
//! characters). Two optional parts may follow: the word `at` between whitespace
//! and a rate token (digits and dots, word characters, `/s`), and the word `ETA`
//! between whitespace and a clock token (digits and colons). The first tag from
//! which the rest matches is the one that counts. Whitespace is Unicode's
//! (`White_Space`); digits (`0`-`9`) and word characters (`A`-`Z`, `a`-`z`,
//! digits, `_`) are those of ASCII.

use vstd::prelude::*;
use crate::digits::{is_digit, digit_value, digit_char, digits_value, decimal, digit_char_exec, digit_value_exec, digits_value_capped};
use crate::text::{chars_of, string_of_range, occurs_at, occurs_at_exec, push_char, contains_text};

verus! {

/// The marker for a missing rate or time estimate.
pub const NOT_AVAILABLE: &'static str = "N/A";

/// The character classes of the progress-line grammar.
#[derive(Clone, Copy, PartialEq, Eq, Structural)]
pub enum CharClass {
    Space,
    Digit,
    NumDot,
    Word,
    Clock,
}

/// Whether `c` is a whitespace character: one with Unicode's `White_Space`
/// property (tab to carriage return, space, next line, no-break space, and
/// the wider spaces and separators).
pub open spec fn is_space(c: char) -> bool {
    c == ' ' || ('\t' <= c && c <= '\r') || c == '\u{85}' || c == '\u{A0}' || c == '\u{1680}'
        || ('\u{2000}' <= c && c <= '\u{200A}') || c == '\u{2028}' || c == '\u{2029}' || c
        == '\u{202F}' || c == '\u{205F}' || c == '\u{3000}'
}

/// Whether `c` is an ASCII word character: a letter, a digit or `_`.
pub open spec fn is_word(c: char) -> bool {
    is_digit(c) || ('a' <= c && c <= 'z') || ('A' <= c && c <= 'Z') || c == '_'
}

/// Whether `c` belongs to the class `k`.
pub open spec fn in_class(k: CharClass, c: char) -> bool {
    match k {
        CharClass::Space => is_space(c),
        CharClass::Digit => is_digit(c),
        CharClass::NumDot => is_digit(c) || c == '.',
        CharClass::Word => is_word(c),
        CharClass::Clock => is_digit(c) || c == ':',
    }
}

/// The number of leading characters of `s` in class `k`.
pub open spec fn lead(s: Seq<char>, k: CharClass) -> nat
    decreases s.len(),
{
    if s.len() > 0 && in_class(k, s[0]) {
        1 + lead(s.skip(1), k)
    } else {
        0
    }
}

/// The number of characters in class `k` from position `i` of `s` on.
pub open spec fn lead_at(s: Seq<char>, i: int, k: CharClass) -> int {
    lead(s.skip(i), k) as int
}

/// The tag that marks a progress line.
pub open spec fn tag() -> Seq<char> {
    "[download]"@
}

/// Whitespace, the keyword `kw`, and whitespace, from position `i`: where they end.
pub open spec fn keyword_gap(s: Seq<char>, i: int, kw: Seq<char>) -> Option<int> {
    let a = i + lead_at(s, i, CharClass::Space);
    if a == i || !occurs_at(s, kw, a) {
        None
    } else {
        let b = a + kw.len();
        let c = b + lead_at(s, b, CharClass::Space);
        if c == b {
            None
        } else {
            Some(c)
        }
    }
}

/// A number (digits, optionally a dot and digits) from position `i`,
/// followed by `%`: the position of the `%`.
pub open spec fn percent_end(s: Seq<char>, i: int) -> Option<int> {
    let a = i + lead_at(s, i, CharClass::Digit);
    if a == i {
        None
    } else {
        let b = if a < s.len() && s[a] == '.' {
            a + 1 + lead_at(s, a + 1, CharClass::Digit)
        } else {
            a
        };
        if b < s.len() && s[b] == '%' {
            Some(b)
        } else {
            None
        }
    }
}

/// The largest `e` in `lo + 1 ..= hi` with a digit at `e - 1`, or `lo` when none.
pub open spec fn last_digit_end(s: Seq<char>, lo: int, hi: int) -> int
    decreases hi - lo,
{
    if hi <= lo {
        lo
    } else if is_digit(s[hi - 1]) {
        hi
    } else {
        last_digit_end(s, lo, hi - 1)
    }
}

/// A size token (digits and dots, then word characters) from position `i`:
/// where it ends.
pub open spec fn size_end(s: Seq<char>, i: int) -> Option<int> {
    let a = i + lead_at(s, i, CharClass::NumDot);
    if a == i {
        None
    } else if a < s.len() && is_word(s[a]) {
        Some(a + lead_at(s, a, CharClass::Word))
    } else {
        let e = last_digit_end(s, i + 1, a);
        if e > i + 1 {
            Some(e)
        } else {
            None
        }
    }
}

/// A rate token (digits and dots, word characters, `/s`) from position `i`:
/// where it ends.
pub open spec fn rate_end(s: Seq<char>, i: int) -> Option<int> {
    let a = i + lead_at(s, i, CharClass::NumDot);
    if a == i {
        None
    } else if a < s.len() && is_word(s[a]) {
        let e = a + lead_at(s, a, CharClass::Word);
        if occurs_at(s, "/s"@, e) {
            Some(e + 2)
        } else {
            None
        }
    } else if a >= i + 2 && is_digit(s[a - 1]) && occurs_at(s, "/s"@, a) {
        Some(a + 2)
    } else {
        None
    }
}

/// What a progress line holds: the percentage, size, rate and time tokens.
pub struct ProgressMatch {
    pub percent: Seq<char>,
    pub total: Seq<char>,
    pub speed: Option<Seq<char>>,
    pub eta: Option<Seq<char>>,
}

/// The optional rate part from position `i`: the rate and where the part ends.
pub open spec fn rate_part(s: Seq<char>, i: int) -> (Option<Seq<char>>, int) {
    match keyword_gap(s, i, "at"@) {
        Some(r) => match rate_end(s, r) {
            Some(e) => (Some(s.subrange(r, e)), e),
            None => (None, i),
        },
        None => (None, i),
    }
}

/// The optional time-estimate part from position `i`.
pub open spec fn eta_part(s: Seq<char>, i: int) -> Option<Seq<char>> {
    match keyword_gap(s, i, "ETA"@) {
        Some(u) => {
            let v = u + lead_at(s, u, CharClass::Clock);
            if v > u {
                Some(s.subrange(u, v))
            } else {
                None
            }
        },
        None => None,
    }
}

/// What follows a tag that ends at position `i`, when it matches the grammar.
pub open spec fn match_after_tag(s: Seq<char>, i: int) -> Option<ProgressMatch> {
    let a = i + lead_at(s, i, CharClass::Space);
    if a == i {
        None
    } else {
        match percent_end(s, a) {
            None => None,
            Some(p) => match keyword_gap(s, p + 1, "of"@) {
                None => None,
                Some(t) => match size_end(s, t) {
                    None => None,
                    Some(te) => {
                        let (speed, q) = rate_part(s, te);
                        Some(
                            ProgressMatch {
                                percent: s.subrange(a, p),
                                total: s.subrange(t, te),
                                speed,
                                eta: eta_part(s, q),
                            },
                        )
                    },
                },
            },
        }
    }
}

/// The match from the first tag at or after position `i` from which the rest matches.
pub open spec fn match_from(s: Seq<char>, i: int) -> Option<ProgressMatch>
    decreases s.len() - i,
{
    if i < 0 || i >= s.len() || i + tag().len() > s.len() {
        None
    } else if occurs_at(s, tag(), i) && match_after_tag(s, i + tag().len()) is Some {
        match_after_tag(s, i + tag().len())
    } else {
        match_from(s, i + 1)
    }
}

/// The integer digits of a percentage token.
pub open spec fn int_part(p: Seq<char>) -> Seq<char> {
    p.take(lead(p, CharClass::Digit) as int)
}

/// The fraction digits of a percentage token (after its dot, if any).
pub open spec fn frac_part(p: Seq<char>) -> Seq<char> {
    let d = lead(p, CharClass::Digit) as int;
    if d < p.len() {
        p.skip(d + 1)
    } else {
        Seq::empty()
    }
}

/// The percentage in tenths, rounded half up.
pub open spec fn percent_tenths(p: Seq<char>) -> nat {
    let f = frac_part(p);
    let first = if f.len() >= 1 && is_digit(f[0]) {
        digit_value(f[0])
    } else {
        0
    };
    let up: nat = if f.len() >= 2 && is_digit(f[1]) && digit_value(f[1]) >= 5 {
        1
    } else {
        0
    };
    digits_value(int_part(p)) * 10 + first + up
}

/// The transferred amount shown for a percentage and a size: the size once
/// the percentage reaches a hundred, else the percentage to one decimal place
/// followed by `%`.
pub open spec fn downloaded_text(percent: Seq<char>, total: Seq<char>) -> Seq<char> {
    if digits_value(int_part(percent)) >= 100 {
        total
    } else {
        let t = percent_tenths(percent);
        decimal(t / 10) + seq!['.', digit_char(t % 10), '%']
    }
}

/// The fields of a progress record, as character sequences.
pub struct ProgressView {
    pub task_id: Seq<char>,
    pub percent: Seq<char>,
    pub speed: Seq<char>,
    pub downloaded: Seq<char>,
    pub total: Seq<char>,
    pub eta: Seq<char>,
}

/// The record for task `task_id` that a line yields, if any.
pub open spec fn progress_of(task_id: Seq<char>, line: Seq<char>) -> Option<ProgressView> {
    match match_from(line, 0) {
        None => None,
        Some(m) => Some(
            ProgressView {
                task_id,
                percent: m.percent,
                speed: match m.speed {
                    Some(r) => r,
                    None => NOT_AVAILABLE@,
                },
                downloaded: downloaded_text(m.percent, m.total),
                total: m.total,
                eta: match m.eta {
                    Some(e) => e,
                    None => NOT_AVAILABLE@,
                },
            },
        ),
    }
}

/// A progress record of one task, taken from one line of the tool's output.
///
/// `percent` holds the percentage as the tool wrote it (`45.2`).
pub struct ProgressData {
    pub task_id: String,
    pub percent: String,
    pub speed: String,
    pub downloaded: String,
    pub total: String,
    pub eta: String,
}

impl View for ProgressData {
    type V = ProgressView;

    open spec fn view(&self) -> ProgressView {
        ProgressView {
            task_id: self.task_id@,
            percent: self.percent@,
            speed: self.speed@,
            downloaded: self.downloaded@,
            total: self.total@,
            eta: self.eta@,
        }
    }
}

fn class_has(k: CharClass, c: char) -> (r: bool)
    ensures
        r == in_class(k, c),
{
    match k {
        CharClass::Space => c == ' ' || ('\t' <= c && c <= '\r') || c == '\u{85}' || c
            == '\u{A0}' || c == '\u{1680}' || ('\u{2000}' <= c && c <= '\u{200A}') || c
            == '\u{2028}' || c == '\u{2029}' || c == '\u{202F}' || c == '\u{205F}' || c
            == '\u{3000}',
        CharClass::Digit => '0' <= c && c <= '9',
        CharClass::NumDot => ('0' <= c && c <= '9') || c == '.',
        CharClass::Word => ('0' <= c && c <= '9') || ('a' <= c && c <= 'z') || ('A' <= c && c
            <= 'Z') || c == '_',
        CharClass::Clock => ('0' <= c && c <= '9') || c == ':',
    }
}

/// Where the run of class `k` that starts at position `i` ends.
fn run_end(s: &Vec<char>, i: usize, k: CharClass) -> (j: usize)
    requires
        i <= s@.len(),
    ensures
        j as int == i + lead_at(s@, i as int, k),
        j <= s@.len(),
{
    let _len = s.len();
    let mut j: usize = i;
    while j < s.len() && class_has(k, s[j])
        invariant
            i <= j <= s@.len(),
            lead_at(s@, i as int, k) == (j - i) + lead_at(s@, j as int, k),
        decreases s.len() - j,
    {
        assert(s@.skip(j as int).skip(1) =~= s@.skip(j + 1));
        j = j + 1;
    }
    j
}

fn keyword_gap_exec(s: &Vec<char>, i: usize, kw: &Vec<char>) -> (r: Option<usize>)
    requires
        i <= s@.len(),
    ensures
        r matches Some(e) ==> e <= s@.len(),
        r == (match keyword_gap(s@, i as int, kw@) {
            Some(e) => Some(e as usize),
            None => None::<usize>,
        }),
        keyword_gap(s@, i as int, kw@) matches Some(e) ==> i <= e <= s@.len(),
{
    let _len = s.len();
    let a = run_end(s, i, CharClass::Space);
    if a == i || !occurs_at_exec(s, kw, a) {
        return None;
    }
    let b = a + kw.len();
    let c = run_end(s, b, CharClass::Space);
    if c == b {
        None
    } else {
        Some(c)
    }
}

fn percent_end_exec(s: &Vec<char>, i: usize) -> (r: Option<usize>)
    requires
        i <= s@.len(),
    ensures
        r == (match percent_end(s@, i as int) {
            Some(e) => Some(e as usize),
            None => None::<usize>,
        }),
        percent_end(s@, i as int) matches Some(e) ==> i <= e < s@.len(),
{
    let _len = s.len();
    let a = run_end(s, i, CharClass::Digit);
    if a == i {
        return None;
    }
    let b = if a < s.len() && s[a] == '.' {
        run_end(s, a + 1, CharClass::Digit)
    } else {
        a
    };
    if b < s.len() && s[b] == '%' {
        Some(b)
    } else {
        None
    }
}

fn last_digit_end_exec(s: &Vec<char>, lo: usize, hi: usize) -> (e: usize)
    requires
        lo <= hi <= s@.len(),
    ensures
        e as int == last_digit_end(s@, lo as int, hi as int),
        lo <= e <= hi,
{
    let _len = s.len();
    let mut h: usize = hi;
    while h > lo && !('0' <= s[h - 1] && s[h - 1] <= '9')
        invariant
            lo <= h <= hi <= s@.len(),
            last_digit_end(s@, lo as int, hi as int) == last_digit_end(s@, lo as int, h as int),
        decreases h - lo,
    {
        h = h - 1;
    }
    h
}

fn size_end_exec(s: &Vec<char>, i: usize) -> (r: Option<usize>)
    requires
        i <= s@.len(),
    ensures
        r == (match size_end(s@, i as int) {
            Some(e) => Some(e as usize),
            None => None::<usize>,
        }),
        size_end(s@, i as int) matches Some(e) ==> i <= e <= s@.len(),
{
    let _len = s.len();
    let a = run_end(s, i, CharClass::NumDot);
    if a == i {
        None
    } else if a < s.len() && class_has(CharClass::Word, s[a]) {
        Some(run_end(s, a, CharClass::Word))
    } else {
        let e = last_digit_end_exec(s, i + 1, a);
        if e > i + 1 {
            Some(e)
        } else {
            None
        }
    }
}

fn rate_end_exec(s: &Vec<char>, i: usize, per_second: &Vec<char>) -> (r: Option<usize>)
    requires
        i <= s@.len(),
        per_second@ == "/s"@,
    ensures
        r == (match rate_end(s@, i as int) {
            Some(e) => Some(e as usize),
            None => None::<usize>,
        }),
        rate_end(s@, i as int) matches Some(e) ==> i <= e <= s@.len(),
{
    let _len = s.len();
    proof {
        reveal_strlit("/s");
    }
    let a = run_end(s, i, CharClass::NumDot);
    if a == i {
        None
    } else if a < s.len() && class_has(CharClass::Word, s[a]) {
        let e = run_end(s, a, CharClass::Word);
        if occurs_at_exec(s, per_second, e) {
            Some(e + 2)
        } else {
            None
        }
    } else if a - i >= 2 && '0' <= s[a - 1] && s[a - 1] <= '9' && occurs_at_exec(s, per_second, a) {
        Some(a + 2)
    } else {
        None
    }
}

/// The keywords and markers of the grammar, as characters.
struct Words {
    tag: Vec<char>,
    of: Vec<char>,
    at: Vec<char>,
    eta: Vec<char>,
    per_second: Vec<char>,
}

impl Words {
    fn new() -> (w: Words)
        ensures
            w.wf(),
    {
        Words {
            tag: chars_of("[download]"),
            of: chars_of("of"),
            at: chars_of("at"),
            eta: chars_of("ETA"),
            per_second: chars_of("/s"),
        }
    }

    spec fn wf(&self) -> bool {
        &&& self.tag@ == tag()
        &&& self.of@ == "of"@
        &&& self.at@ == "at"@
        &&& self.eta@ == "ETA"@
        &&& self.per_second@ == "/s"@
    }
}

/// Positions of the tokens of a matching line.
struct Spans {
    percent: (usize, usize),
    total: (usize, usize),
    speed: Option<(usize, usize)>,
    eta: Option<(usize, usize)>,
}

impl Spans {
    spec fn matches(&self, s: Seq<char>, m: ProgressMatch) -> bool {
        &&& self.percent.0 <= self.percent.1 <= s.len()
        &&& self.total.0 <= self.total.1 <= s.len()
        &&& m.percent == s.subrange(self.percent.0 as int, self.percent.1 as int)
        &&& m.total == s.subrange(self.total.0 as int, self.total.1 as int)
        &&& match self.speed {
            Some((x, y)) => x <= y <= s.len() && m.speed == Some(s.subrange(x as int, y as int)),
            None => m.speed is None,
        }
        &&& match self.eta {
            Some((x, y)) => x <= y <= s.len() && m.eta == Some(s.subrange(x as int, y as int)),
            None => m.eta is None,
        }
    }
}

fn match_after_tag_exec(s: &Vec<char>, i: usize, w: &Words) -> (r: Option<Spans>)
    requires
        i <= s@.len(),
        w.wf(),
    ensures
        r is Some <==> match_after_tag(s@, i as int) is Some,
        r matches Some(sp) ==> sp.matches(s@, match_after_tag(s@, i as int).unwrap()),
{
    let _len = s.len();
    let a = run_end(s, i, CharClass::Space);
    if a == i {
        return None;
    }
    let p = match percent_end_exec(s, a) {
        Some(p) => p,
        None => return None,
    };
    let t = match keyword_gap_exec(s, p + 1, &w.of) {
        Some(t) => t,
        None => return None,
    };
    let te = match size_end_exec(s, t) {
        Some(te) => te,
        None => return None,
    };
    let mut q = te;
    let mut speed: Option<(usize, usize)> = None;
    match keyword_gap_exec(s, te, &w.at) {
        Some(r) => match rate_end_exec(s, r, &w.per_second) {
            Some(e) => {
                speed = Some((r, e));
                q = e;
            },
            None => {},
        },
        None => {},
    }
    assert(rate_part(s@, te as int).1 == q as int);
    let eta = match keyword_gap_exec(s, q, &w.eta) {
        Some(u) => {
            let v = run_end(s, u, CharClass::Clock);
            if v > u {
                Some((u, v))
            } else {
                None
            }
        },
        None => None,
    };
    Some(Spans { percent: (a, p), total: (t, te), speed, eta })
}

/// The tokens of the first tag from which a line matches.
fn match_line(s: &Vec<char>, w: &Words) -> (r: Option<Spans>)
    requires
        w.wf(),
    ensures
        r is Some <==> match_from(s@, 0) is Some,
        r matches Some(sp) ==> sp.matches(s@, match_from(s@, 0).unwrap()),
{
    let n = w.tag.len();
    let mut i: usize = 0;
    while i < s.len() && n <= s.len() - i
        invariant
            w.wf(),
            n == tag().len(),
            i <= s@.len(),
            match_from(s@, 0) == match_from(s@, i as int),
        decreases s.len() + 1 - i,
    {
        if occurs_at_exec(s, &w.tag, i) {
            let r = match_after_tag_exec(s, i + n, w);
            if r.is_some() {
                return r;
            }
        }
        i = i + 1;
    }
    None
}

/// Every character of the leading run of class `k` is in that class.
pub proof fn lemma_lead_all(s: Seq<char>, k: CharClass)
    ensures
        lead(s, k) <= s.len(),
        forall|i: int| 0 <= i < lead(s, k) ==> in_class(k, #[trigger] s[i]),
        lead(s, k) < s.len() ==> !in_class(k, s[lead(s, k) as int]),
    decreases s.len(),
{
    if s.len() > 0 && in_class(k, s[0]) {
        lemma_lead_all(s.skip(1), k);
        assert forall|i: int| 0 <= i < lead(s, k) implies in_class(k, #[trigger] s[i]) by {
            if i > 0 {
                assert(s[i] == s.skip(1)[i - 1]);
            }
        }
        if lead(s, k) < s.len() {
            assert(s[lead(s, k) as int] == s.skip(1)[lead(s.skip(1), k) as int]);
        }
    }
}

/// The transferred amount shown for a percentage token and a size.
fn downloaded_for(percent: &Vec<char>, total: &Vec<char>, from: usize, to: usize) -> (r: String)
    requires
        from <= to <= total@.len(),
    ensures
        r@ == downloaded_text(percent@, total@.subrange(from as int, to as int)),
{
    let d = run_end(percent, 0, CharClass::Digit);
    proof {
        assert(percent@.skip(0) =~= percent@);
        lemma_lead_all(percent@, CharClass::Digit);
        assert(percent@.subrange(0, d as int) =~= int_part(percent@));
        assert forall|i: int| 0 <= i < d implies is_digit(#[trigger] percent@.subrange(0, d as int)[i]) by {
            assert(in_class(CharClass::Digit, percent@[i]));
        }
    }
    let whole = digits_value_capped(percent, 0, d, 100);
    if whole >= 100 {
        return string_of_range(total, from, to);
    }
    let ghost f = frac_part(percent@);
    let mut first: u64 = 0;
    let mut up: u64 = 0;
    if d < percent.len() {
        assert(f =~= percent@.skip(d + 1));
        if d + 1 < percent.len() && '0' <= percent[d + 1] && percent[d + 1] <= '9' {
            first = digit_value_exec(percent[d + 1]);
        }
        if percent.len() - d > 2 && '0' <= percent[d + 2] && percent[d + 2] <= '9' {
            if digit_value_exec(percent[d + 2]) >= 5 {
                up = 1;
            }
        }
    }
    let t = whole * 10 + first + up;
    assert(t as nat == percent_tenths(percent@));
    let mut out = String::new();
    crate::digits::push_decimal(&mut out, t / 10);
    push_char(&mut out, '.');
    push_char(&mut out, digit_char_exec(t % 10));
    push_char(&mut out, '%');
    out
}

/// The record for task `task_id` that one line of the tool's output yields:
/// nothing unless the line is a progress line (see the module documentation).
/// A missing rate or time estimate reads `N/A`.
pub fn parse_progress(task_id: &str, line: &str) -> (r: Option<ProgressData>)
    ensures
        r is Some <==> progress_of(task_id@, line@) is Some,
        r matches Some(p) ==> progress_of(task_id@, line@) == Some(p@),
{
    let s = chars_of(line);
    let w = Words::new();
    let sp = match match_line(&s, &w) {
        Some(sp) => sp,
        None => return None,
    };
    let ghost m = match_from(s@, 0).unwrap();
    let percent_chars = {
        let mut v: Vec<char> = Vec::new();
        let mut k: usize = sp.percent.0;
        while k < sp.percent.1
            invariant
                sp.percent.0 <= k <= sp.percent.1 <= s@.len(),
                v@ == s@.subrange(sp.percent.0 as int, k as int),
            decreases sp.percent.1 - k,
        {
            v.push(s[k]);
            k = k + 1;
            assert(v@ =~= s@.subrange(sp.percent.0 as int, k as int));
        }
        v
    };
    let percent = string_of_range(&s, sp.percent.0, sp.percent.1);
    let total = string_of_range(&s, sp.total.0, sp.total.1);
    let downloaded = downloaded_for(&percent_chars, &s, sp.total.0, sp.total.1);
    let speed = match sp.speed {
        Some((x, y)) => string_of_range(&s, x, y),
        None => NOT_AVAILABLE.to_owned(),
    };
    let eta = match sp.eta {
        Some((x, y)) => string_of_range(&s, x, y),
        None => NOT_AVAILABLE.to_owned(),
    };
    let r = ProgressData { task_id: task_id.to_owned(), percent, speed, downloaded, total, eta };
    assert(r@.speed == progress_of(task_id@, line@).unwrap().speed);
    Some(r)
}

proof fn lemma_no_tag_no_match(s: Seq<char>, i: int)
    requires
        !contains_text(s, tag()),
    ensures
        match_from(s, i) is None,
    decreases s.len() - i,
{
    if !(i < 0 || i >= s.len() || i + tag().len() > s.len()) {
        assert(!occurs_at(s, tag(), i));
        lemma_no_tag_no_match(s, i + 1);
    }
}

/// A line without the progress tag yields no record.
pub proof fn lemma_untagged_line_yields_nothing(task_id: Seq<char>, line: Seq<char>)
    requires
        !contains_text(line, tag()),
    ensures
        progress_of(task_id, line) is None,
{
    lemma_no_tag_no_match(line, 0);
}

/// Whether `c` is a letter or `_`: a word character that is not a digit.
pub open spec fn is_unit_char(c: char) -> bool {
    ('a' <= c && c <= 'z') || ('A' <= c && c <= 'Z') || c == '_'
}

/// Whether every character of `x` is in class `k`.
pub open spec fn all_in(x: Seq<char>, k: CharClass) -> bool {
    forall|j: int| 0 <= j < x.len() ==> in_class(k, #[trigger] x[j])
}

/// A percentage token: digits, optionally followed by a dot and digits.
pub open spec fn is_number(p: Seq<char>) -> bool {
    let d = lead(p, CharClass::Digit) as int;
    d >= 1 && (d == p.len() || (p[d] == '.' && all_in(p.skip(d + 1), CharClass::Digit)))
}

/// A size token: digits and dots, then letters (`280.00MiB`).
pub open spec fn is_size(t: Seq<char>) -> bool {
    let n = lead(t, CharClass::NumDot) as int;
    n >= 1 && n < t.len() && forall|j: int| n <= j < t.len() ==> is_unit_char(#[trigger] t[j])
}

/// A rate token: a size token followed by `/s` (`2.50MiB/s`).
pub open spec fn is_rate(r: Seq<char>) -> bool {
    r.len() >= 2 && r.subrange(r.len() - 2, r.len() as int) == "/s"@ && is_size(
        r.subrange(0, r.len() - 2),
    )
}

/// A clock token: digits and colons (`00:52`).
pub open spec fn is_clock(e: Seq<char>) -> bool {
    e.len() >= 1 && all_in(e, CharClass::Clock)
}

/// The progress line written from its parts: the tag, the whitespace `gap`,
/// the percentage and `% of`, the size, and the optional rate and time parts.
pub open spec fn progress_line(
    gap: Seq<char>,
    percent: Seq<char>,
    total: Seq<char>,
    rate: Option<Seq<char>>,
    eta: Option<Seq<char>>,
) -> Seq<char> {
    tag() + gap + percent + "% of "@ + total + match rate {
        Some(r) => " at "@ + r,
        None => Seq::empty(),
    } + match eta {
        Some(e) => " ETA "@ + e,
        None => Seq::empty(),
    }
}

proof fn lemma_lead_exact(t: Seq<char>, n: int, k: CharClass)
    requires
        0 <= n <= t.len(),
        forall|j: int| 0 <= j < n ==> in_class(k, #[trigger] t[j]),
        n == t.len() || !in_class(k, t[n]),
    ensures
        lead(t, k) == n,
    decreases n,
{
    if n > 0 {
        assert forall|j: int| 0 <= j < n - 1 implies in_class(k, #[trigger] t.skip(1)[j]) by {
            assert(t.skip(1)[j] == t[j + 1]);
        }
        lemma_lead_exact(t.skip(1), n - 1, k);
    }
}

proof fn lemma_lead_seg(s: Seq<char>, i: int, x: Seq<char>, k: CharClass)
    requires
        0 <= i,
        i + x.len() <= s.len(),
        s.subrange(i, i + x.len()) == x,
        all_in(x, k),
        i + x.len() == s.len() || !in_class(k, s[i + x.len()]),
    ensures
        lead_at(s, i, k) == x.len(),
{
    let t = s.skip(i);
    assert forall|j: int| 0 <= j < x.len() implies in_class(k, #[trigger] t[j]) by {
        assert(t[j] == s.subrange(i, i + x.len())[j]);
    }
    lemma_lead_exact(t, x.len() as int, k);
}

proof fn lemma_head_parses(
    s: Seq<char>,
    gap: Seq<char>,
    percent: Seq<char>,
    total: Seq<char>,
    a: int,
    p: int,
    t: int,
    te: int,
)
    requires
        gap.len() >= 1,
        all_in(gap, CharClass::Space),
        is_number(percent),
        is_size(total),
        a == 10 + gap.len(),
        p == a + percent.len(),
        t == p + 5,
        te == t + total.len(),
        te <= s.len(),
        s.subrange(10, a) == gap,
        s.subrange(a, p) == percent,
        s.subrange(p, t) == "% of "@,
        s.subrange(t, te) == total,
        te == s.len() || s[te] == ' ',
    ensures
        lead_at(s, 10, CharClass::Space) == gap.len(),
        percent_end(s, a) == Some(p),
        keyword_gap(s, p + 1, "of"@) == Some(t),
        size_end(s, t) == Some(te),
{
    reveal_strlit("% of ");
    reveal_strlit("of");
    assert(s[a] == s.subrange(a, p)[0]);
    lemma_lead_seg(s, 10, gap, CharClass::Space);
    let d = lead(percent, CharClass::Digit) as int;
    lemma_lead_all(percent, CharClass::Digit);
    assert(all_in(percent.take(d), CharClass::Digit));
    assert(s.subrange(a, a + d) =~= percent.take(d));
    assert(s[p] == s.subrange(p, t)[0]);
    if d == percent.len() {
        lemma_lead_seg(s, a, percent.take(d), CharClass::Digit);
    } else {
        assert(s[a + d] == s.subrange(a, p)[d]);
        lemma_lead_seg(s, a, percent.take(d), CharClass::Digit);
        let f = percent.skip(d + 1);
        assert(s.subrange(a + d + 1, p) =~= f);
        lemma_lead_seg(s, a + d + 1, f, CharClass::Digit);
    }
    assert(percent_end(s, a) == Some(p));
    assert(s[p + 1] == s.subrange(p, t)[1]);
    assert(s[p + 3] == s.subrange(p, t)[3]);
    assert(s[p + 4] == s.subrange(p, t)[4]);
    assert("% of "@[1] == ' ' && "% of "@[2] == 'o' && "% of "@[3] == 'f' && "% of "@[4] == ' ');
    assert(s.subrange(p + 1, p + 2) =~= seq![' ']);
    assert(s.subrange(p + 4, p + 5) =~= seq![' ']);
    assert(s[p + 2] == s.subrange(p, t)[2]);
    assert(s[t] == s.subrange(t, te)[0]);
    lemma_lead_seg(s, p + 1, seq![' '], CharClass::Space);
    lemma_lead_seg(s, p + 4, seq![' '], CharClass::Space);
    assert(s.subrange(p + 2, p + 4) =~= "of"@);
    assert(keyword_gap(s, p + 1, "of"@) == Some(t));
    let n = lead(total, CharClass::NumDot) as int;
    lemma_lead_all(total, CharClass::NumDot);
    assert(s.subrange(t, t + n) =~= total.take(n));
    assert(all_in(total.take(n), CharClass::NumDot));
    assert(s[t + n] == s.subrange(t, te)[n]);
    lemma_lead_seg(s, t, total.take(n), CharClass::NumDot);
    assert(s.subrange(t + n, te) =~= total.skip(n));
    assert(all_in(total.skip(n), CharClass::Word)) by {
        assert forall|j: int| 0 <= j < total.skip(n).len() implies in_class(
            CharClass::Word,
            #[trigger] total.skip(n)[j],
        ) by {
            assert(is_unit_char(total[n + j]));
        }
    }
    lemma_lead_seg(s, t + n, total.skip(n), CharClass::Word);
}

proof fn lemma_rate_parses(s: Seq<char>, te: int, rate: Option<Seq<char>>, eta: Option<Seq<char>>)
    requires
        0 <= te <= s.len(),
        rate matches Some(r) ==> is_rate(r),
        eta matches Some(e) ==> is_clock(e),
        s.skip(te) == (match rate {
            Some(r) => " at "@ + r,
            None => Seq::empty(),
        }) + (match eta {
            Some(e) => " ETA "@ + e,
            None => Seq::empty(),
        }),
    ensures
        rate_part(s, te) == (match rate {
            Some(r) => (Some(r), te + 4 + r.len()),
            None => (None, te),
        }),
{
    reveal_strlit(" at ");
    reveal_strlit(" ETA ");
    reveal_strlit("at");
    reveal_strlit("/s");
    let rest = s.skip(te);
    match rate {
        Some(r) => {
            let q = te + 4 + r.len();
            let r0 = r.subrange(0, r.len() - 2);
            let n2 = lead(r0, CharClass::NumDot) as int;
            lemma_lead_all(r0, CharClass::NumDot);
            assert(s.subrange(te + 4, q) =~= r) by {
                assert forall|j: int| 0 <= j < r.len() implies s.subrange(te + 4, q)[j] == r[j] by {
                    assert(s[te + 4 + j] == rest[4 + j]);
                }
            }
            assert(" at "@[0] == ' ' && " at "@[1] == 'a' && " at "@[2] == 't' && " at "@[3] == ' ');
            assert(s[te] == rest[0] && s[te + 1] == rest[1] && s[te + 3] == rest[3]);
            assert(s[te + 4] == r0[0]);
            assert(s.subrange(te, te + 1) =~= seq![' ']);
            assert(s.subrange(te + 3, te + 4) =~= seq![' ']);
            lemma_lead_seg(s, te, seq![' '], CharClass::Space);
            lemma_lead_seg(s, te + 3, seq![' '], CharClass::Space);
            assert(s.subrange(te + 1, te + 3) =~= "at"@) by {
                assert(s[te + 2] == rest[2]);
            }
            assert(keyword_gap(s, te, "at"@) == Some(te + 4));
            let ri = te + 4;
            assert(s.subrange(ri, ri + n2) =~= r0.take(n2));
            assert(all_in(r0.take(n2), CharClass::NumDot));
            assert(s[ri + n2] == r0[n2]);
            lemma_lead_seg(s, ri, r0.take(n2), CharClass::NumDot);
            let e = ri + r0.len();
            assert(s.subrange(ri + n2, e) =~= r0.skip(n2));
            assert(all_in(r0.skip(n2), CharClass::Word)) by {
                assert forall|j: int| 0 <= j < r0.skip(n2).len() implies in_class(
                    CharClass::Word,
                    #[trigger] r0.skip(n2)[j],
                ) by {
                    assert(is_unit_char(r0[n2 + j]));
                }
            }
            assert(r[r.len() - 2] == r.subrange(r.len() - 2, r.len() as int)[0]);
            assert(s[e] == '/');
            lemma_lead_seg(s, ri + n2, r0.skip(n2), CharClass::Word);
            assert(s.subrange(e, e + 2) =~= "/s"@) by {
                assert(s[e + 1] == r[r.len() - 1]);
                assert(r[r.len() - 1] == r.subrange(r.len() - 2, r.len() as int)[1]);
            }
            assert(rate_end(s, ri) == Some(q));
        },
        None => {
            match eta {
                Some(_) => {
                    assert(" ETA "@[0] == ' ' && " ETA "@[1] == 'E');
                    assert(s[te] == rest[0] && s[te + 1] == rest[1]);
                    assert(s.subrange(te, te + 1) =~= seq![' ']);
                    lemma_lead_seg(s, te, seq![' '], CharClass::Space);
                    assert(!occurs_at(s, "at"@, te + 1)) by {
                        assert(s.subrange(te + 1, te + 3)[0] == 'E');
                    }
                },
                None => {
                    assert(te == s.len());
                    assert(lead_at(s, te, CharClass::Space) == 0);
                },
            }
            assert(keyword_gap(s, te, "at"@) is None);
        },
    }
}

proof fn lemma_eta_parses(s: Seq<char>, q: int, eta: Option<Seq<char>>)
    requires
        0 <= q <= s.len(),
        eta matches Some(e) ==> is_clock(e),
        s.skip(q) == (match eta {
            Some(e) => " ETA "@ + e,
            None => Seq::empty(),
        }),
    ensures
        eta_part(s, q) == eta,
{
    reveal_strlit(" ETA ");
    reveal_strlit("ETA");
    let rest = s.skip(q);
    match eta {
        Some(e) => {
            assert(s.subrange(q + 5, s.len() as int) =~= e) by {
                assert forall|j: int| 0 <= j < e.len() implies s.subrange(q + 5, s.len() as int)[j]
                    == e[j] by {
                    assert(s[q + 5 + j] == rest[5 + j]);
                }
            }
            assert(" ETA "@[0] == ' ' && " ETA "@[1] == 'E' && " ETA "@[2] == 'T' && " ETA "@[3]
                == 'A' && " ETA "@[4] == ' ');
            assert(s[q] == rest[0] && s[q + 1] == rest[1] && s[q + 4] == rest[4]);
            assert(s[q + 5] == e[0]);
            assert(s.subrange(q, q + 1) =~= seq![' ']);
            assert(s.subrange(q + 4, q + 5) =~= seq![' ']);
            lemma_lead_seg(s, q, seq![' '], CharClass::Space);
            lemma_lead_seg(s, q + 4, seq![' '], CharClass::Space);
            assert(s.subrange(q + 1, q + 4) =~= "ETA"@) by {
                assert(s[q + 1] == rest[1] && s[q + 2] == rest[2] && s[q + 3] == rest[3]);
            }
            assert(keyword_gap(s, q, "ETA"@) == Some(q + 5));
            lemma_lead_seg(s, q + 5, e, CharClass::Clock);
        },
        None => {
            assert(lead_at(s, q, CharClass::Space) == 0);
        },
    }
}

proof fn lemma_line_layout(gap: Seq<char>, percent: Seq<char>, total: Seq<char>, rest: Seq<char>)
    ensures
        ({
            let s = tag() + gap + percent + "% of "@ + total + rest;
            let a = 10 + gap.len() as int;
            let p = a + percent.len() as int;
            let t = p + 5;
            let te = t + total.len() as int;
            &&& s.len() == te + rest.len()
            &&& s.subrange(0, 10) == tag()
            &&& s.subrange(10, a) == gap
            &&& s.subrange(a, p) == percent
            &&& s.subrange(p, t) == "% of "@
            &&& s.subrange(t, te) == total
            &&& s.skip(te) == rest
            &&& (te < s.len() ==> s[te] == rest[0])
        }),
{
    reveal_strlit("[download]");
    reveal_strlit("% of ");
    let s = tag() + gap + percent + "% of "@ + total + rest;
    let a = 10 + gap.len() as int;
    let p = a + percent.len() as int;
    let t = p + 5;
    let te = t + total.len() as int;
    assert(s.subrange(0, 10) =~= tag());
    assert(s.subrange(10, a) =~= gap);
    assert(s.subrange(a, p) =~= percent);
    assert(s.subrange(p, t) =~= "% of "@);
    assert(s.subrange(t, te) =~= total);
    assert(s.skip(te) =~= rest);
}

/// A well-formed progress line yields a record with exactly the percentage,
/// size, rate and time tokens it was written from; the rate and the time
/// estimate read `N/A` exactly when their part was left out.
#[verifier::rlimit(60)]
pub proof fn lemma_progress_line_parses(
    task_id: Seq<char>,
    gap: Seq<char>,
    percent: Seq<char>,
    total: Seq<char>,
    rate: Option<Seq<char>>,
    eta: Option<Seq<char>>,
)
    requires
        gap.len() >= 1,
        all_in(gap, CharClass::Space),
        is_number(percent),
        is_size(total),
        rate matches Some(r) ==> is_rate(r),
        eta matches Some(e) ==> is_clock(e),
    ensures
        progress_of(task_id, progress_line(gap, percent, total, rate, eta)) == Some(
            ProgressView {
                task_id,
                percent,
                speed: match rate {
                    Some(r) => r,
                    None => NOT_AVAILABLE@,
                },
                downloaded: downloaded_text(percent, total),
                total,
                eta: match eta {
                    Some(e) => e,
                    None => NOT_AVAILABLE@,
                },
            },
        ),
{
    reveal_strlit("[download]");
    reveal_strlit("% of ");
    reveal_strlit(" at ");
    reveal_strlit(" ETA ");
    let rt: Seq<char> = match rate {
        Some(r) => " at "@ + r,
        None => Seq::empty(),
    };
    let et: Seq<char> = match eta {
        Some(e) => " ETA "@ + e,
        None => Seq::empty(),
    };
    let s = tag() + gap + percent + "% of "@ + total + (rt + et);
    assert(s =~= progress_line(gap, percent, total, rate, eta));
    let a = 10 + gap.len() as int;
    let p = a + percent.len() as int;
    let t = p + 5;
    let te = t + total.len() as int;
    lemma_line_layout(gap, percent, total, rt + et);
    lemma_head_parses(s, gap, percent, total, a, p, t, te);
    lemma_rate_parses(s, te, rate, eta);
    let q = te + rt.len() as int;
    assert(s.skip(q) =~= et);
    lemma_eta_parses(s, q, eta);
    assert(match_after_tag(s, 10) is Some);
    assert(occurs_at(s, tag(), 0));
    assert(match_from(s, 0) == match_after_tag(s, 10));
}

} // verus!
