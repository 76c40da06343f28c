//! Merge-time logic: the commit-message sanitizer and the bounded polling
//! state machine that guards the final merge call.

use vstd::prelude::*;
use vstd::string::StringExecFns;
use crate::context::MergeMethod;
use crate::strutil::{
    chars_of, dec_digits, extend_chars, matches_at, matches_at_spec, string_from_chars, subvec,
    u64_chars,
};

verus! {

/// The characters opening an HTML comment.
pub open spec fn open_marker() -> Seq<char> {
    seq!['<', '!', '-', '-']
}

/// The characters closing an HTML comment.
pub open spec fn close_marker() -> Seq<char> {
    seq!['-', '-', '>']
}

fn open_marker_vec() -> (r: Vec<char>)
    ensures
        r@ == open_marker(),
{
    let mut v: Vec<char> = Vec::new();
    v.push('<');
    v.push('!');
    v.push('-');
    v.push('-');
    proof {
        assert(v@ =~= open_marker());
    }
    v
}

fn close_marker_vec() -> (r: Vec<char>)
    ensures
        r@ == close_marker(),
{
    let mut v: Vec<char> = Vec::new();
    v.push('-');
    v.push('-');
    v.push('>');
    proof {
        assert(v@ =~= close_marker());
    }
    v
}

/// The first position at or after `from` where `pat` occurs in `h`.
pub open spec fn find_from(h: Seq<char>, pat: Seq<char>, from: int) -> Option<int>
    decreases h.len() - from,
{
    if from < 0 || pat.len() == 0 || from + pat.len() > h.len() {
        None
    } else if matches_at_spec(h, pat, from) {
        Some(from)
    } else {
        find_from(h, pat, from + 1)
    }
}

pub proof fn lemma_find_from_some(h: Seq<char>, pat: Seq<char>, from: int)
    requires
        find_from(h, pat, from) is Some,
    ensures
        ({
            let i = find_from(h, pat, from)->Some_0;
            from <= i && matches_at_spec(h, pat, i) && forall|j: int|
                from <= j < i ==> !matches_at_spec(h, pat, j)
        }),
    decreases h.len() - from,
{
    if !matches_at_spec(h, pat, from) {
        lemma_find_from_some(h, pat, from + 1);
    }
}

/// Find `pat` in `h`, starting the search at `from`.
pub fn find_pat(h: &Vec<char>, pat: &Vec<char>, from: usize) -> (r: Option<usize>)
    requires
        pat@.len() >= 1,
    ensures
        match r {
            Some(i) => from <= i && find_from(h@, pat@, from as int) == Some(i as int),
            None => find_from(h@, pat@, from as int) is None,
        },
{
    let hl = h.len();
    if from > hl || pat.len() > hl - from {
        return None;
    }
    let last = hl - pat.len();
    let mut i = from;
    while i <= last
        invariant
            hl == h@.len(),
            pat@.len() >= 1,
            from <= i,
            i <= last + 1,
            last == hl - pat@.len(),
            find_from(h@, pat@, from as int) == find_from(h@, pat@, i as int),
        decreases last + 1 - i,
    {
        if matches_at(h, pat, i) {
            return Some(i);
        }
        proof {
            assert(find_from(h@, pat@, i as int) == find_from(h@, pat@, i + 1));
        }
        i += 1;
    }
    None
}

/// Whether a comment opener occurs wholly inside `h[lo..hi]`.
pub open spec fn has_open_within(h: Seq<char>, lo: int, hi: int) -> bool {
    exists|i: int| lo <= i && i + 4 <= hi && matches_at_spec(h, open_marker(), i)
}

fn has_open_between(h: &Vec<char>, open_pat: &Vec<char>, lo: usize, hi: usize) -> (r: bool)
    requires
        open_pat@ == open_marker(),
        lo <= hi <= h@.len(),
    ensures
        r == has_open_within(h@, lo as int, hi as int),
{
    if hi < 4 || lo > hi - 4 {
        return false;
    }
    let lastp = hi - 4;
    let mut i = lo;
    while i <= lastp
        invariant
            lo <= i <= lastp + 1,
            lastp == hi - 4,
            4 <= hi <= h@.len(),
            open_pat@ == open_marker(),
            forall|j: int|
                lo <= j < i ==> !(j + 4 <= hi && matches_at_spec(h@, open_marker(), j)),
        decreases lastp + 1 - i,
    {
        if matches_at(h, open_pat, i) {
            assert(i + 4 <= hi && matches_at_spec(h@, open_marker(), i as int));
            return true;
        }
        i += 1;
    }
    false
}

/// Strip every complete comment span from `h[from..]`. `None` reports a
/// nested opener inside a span, in which case the caller keeps the whole
/// original text. A span that never closes drops the rest of the text.
pub open spec fn strip_from(h: Seq<char>, from: int) -> Option<Seq<char>>
    decreases h.len() - from,
    when 0 <= from
    via strip_from_dec
{
    match find_from(h, open_marker(), from) {
        None => Some(h.subrange(from, h.len() as int)),
        Some(start) => match find_from(h, close_marker(), start + 4) {
            None => Some(h.subrange(from, start)),
            Some(end) => {
                if has_open_within(h, start + 4, end) {
                    None
                } else {
                    match strip_from(h, end + 3) {
                        None => None,
                        Some(t) => Some(h.subrange(from, start) + t),
                    }
                }
            }
        },
    }
}

#[via_fn]
proof fn strip_from_dec(h: Seq<char>, from: int) {
    match find_from(h, open_marker(), from) {
        None => {}
        Some(start) => {
            lemma_find_from_some(h, open_marker(), from);
            match find_from(h, close_marker(), start + 4) {
                None => {}
                Some(end) => {
                    lemma_find_from_some(h, close_marker(), start + 4);
                }
            }
        }
    }
}

fn strip_chars_from(h: &Vec<char>, from: usize, open_pat: &Vec<char>, close_pat: &Vec<char>) -> (r:
    Option<Vec<char>>)
    requires
        open_pat@ == open_marker(),
        close_pat@ == close_marker(),
        from <= h@.len(),
    ensures
        match r {
            Some(v) => strip_from(h@, from as int) == Some(v@),
            None => strip_from(h@, from as int) is None,
        },
    decreases h@.len() - from,
{
    let hl = h.len();
    match find_pat(h, open_pat, from) {
        None => Some(subvec(h, from, hl)),
        Some(start) => {
            proof {
                lemma_find_from_some(h@, open_marker(), from as int);
                assert(start + 4 <= hl);
            }
            match find_pat(h, close_pat, start + 4) {
                None => Some(subvec(h, from, start)),
                Some(end) => {
                    proof {
                        lemma_find_from_some(h@, close_marker(), start + 4);
                        assert(end + 3 <= hl);
                    }
                    if has_open_between(h, open_pat, start + 4, end) {
                        None
                    } else {
                        match strip_chars_from(h, end + 3, open_pat, close_pat) {
                            None => None,
                            Some(t) => {
                                let mut pre = subvec(h, from, start);
                                extend_chars(&mut pre, &t);
                                Some(pre)
                            }
                        }
                    }
                }
            }
        }
    }
}

/// The characters with the Unicode `White_Space` property.
pub open spec fn is_ws(c: char) -> bool {
    c == '\u{9}' || c == '\u{a}' || c == '\u{b}' || c == '\u{c}' || c == '\u{d}' || c == ' '
        || c == '\u{85}' || c == '\u{a0}' || c == '\u{1680}' || c == '\u{2000}' || c == '\u{2001}'
        || c == '\u{2002}' || c == '\u{2003}' || c == '\u{2004}' || c == '\u{2005}'
        || c == '\u{2006}' || c == '\u{2007}' || c == '\u{2008}' || c == '\u{2009}'
        || c == '\u{200a}' || c == '\u{2028}' || c == '\u{2029}' || c == '\u{202f}'
        || c == '\u{205f}' || c == '\u{3000}'
}

fn is_ws_char(c: char) -> (r: bool)
    ensures
        r == is_ws(c),
{
    c == '\u{9}' || c == '\u{a}' || c == '\u{b}' || c == '\u{c}' || c == '\u{d}' || c == ' '
        || c == '\u{85}' || c == '\u{a0}' || c == '\u{1680}' || c == '\u{2000}' || c == '\u{2001}'
        || c == '\u{2002}' || c == '\u{2003}' || c == '\u{2004}' || c == '\u{2005}'
        || c == '\u{2006}' || c == '\u{2007}' || c == '\u{2008}' || c == '\u{2009}'
        || c == '\u{200a}' || c == '\u{2028}' || c == '\u{2029}' || c == '\u{202f}'
        || c == '\u{205f}' || c == '\u{3000}'
}

/// First position at or after `from` that holds a non-blank character, or
/// the length of `s`.
pub open spec fn first_non_ws(s: Seq<char>, from: int) -> int
    decreases s.len() - from,
    when 0 <= from
{
    if from >= s.len() {
        s.len() as int
    } else if is_ws(s[from]) {
        first_non_ws(s, from + 1)
    } else {
        from
    }
}

/// End of the text once trailing blanks before `upto` are dropped.
pub open spec fn last_non_ws_end(s: Seq<char>, upto: int) -> int
    decreases upto,
    when 0 <= upto <= s.len()
{
    if upto <= 0 {
        0
    } else if is_ws(s[upto - 1]) {
        last_non_ws_end(s, upto - 1)
    } else {
        upto
    }
}

/// `s` without leading and trailing blank characters.
pub open spec fn trim_seq(s: Seq<char>) -> Seq<char> {
    let lo = first_non_ws(s, 0);
    let hi = last_non_ws_end(s, s.len() as int);
    if lo < hi {
        s.subrange(lo, hi)
    } else {
        Seq::empty()
    }
}

fn first_non_ws_exec(v: &Vec<char>, from: usize) -> (r: usize)
    requires
        from <= v@.len(),
    ensures
        r == first_non_ws(v@, from as int),
        from <= r <= v@.len(),
    decreases v@.len() - from,
{
    if from >= v.len() {
        v.len()
    } else if is_ws_char(v[from]) {
        first_non_ws_exec(v, from + 1)
    } else {
        from
    }
}

fn last_non_ws_end_exec(v: &Vec<char>, upto: usize) -> (r: usize)
    requires
        upto <= v@.len(),
    ensures
        r == last_non_ws_end(v@, upto as int),
        r <= upto,
    decreases upto,
{
    if upto == 0 {
        0
    } else if is_ws_char(v[upto - 1]) {
        last_non_ws_end_exec(v, upto - 1)
    } else {
        upto
    }
}

fn trim_chars(v: &Vec<char>) -> (r: Vec<char>)
    ensures
        r@ == trim_seq(v@),
{
    let lo = first_non_ws_exec(v, 0);
    let hi = last_non_ws_end_exec(v, v.len());
    if lo < hi {
        subvec(v, lo, hi)
    } else {
        Vec::new()
    }
}

/// The line separator.
pub open spec fn nl_marker() -> Seq<char> {
    seq!['\n']
}

fn nl_marker_vec() -> (r: Vec<char>)
    ensures
        r@ == nl_marker(),
{
    let mut v: Vec<char> = Vec::new();
    v.push('\n');
    proof {
        assert(v@ =~= nl_marker());
    }
    v
}

/// `s` cut at every line separator; a separator at the end still yields a
/// final empty line.
pub open spec fn split_lines(s: Seq<char>) -> Seq<Seq<char>>
    decreases s.len(),
    via split_lines_dec
{
    match find_from(s, nl_marker(), 0) {
        None => seq![s],
        Some(i) => seq![s.subrange(0, i)] + split_lines(s.subrange(i + 1, s.len() as int)),
    }
}

#[via_fn]
proof fn split_lines_dec(s: Seq<char>) {
    match find_from(s, nl_marker(), 0) {
        None => {}
        Some(i) => {
            lemma_find_from_some(s, nl_marker(), 0);
        }
    }
}

/// The views of a vector of character vectors.
pub open spec fn views_of(vv: Seq<Vec<char>>) -> Seq<Seq<char>> {
    vv.map_values(|v: Vec<char>| v@)
}

fn split_lines_chars(v: &Vec<char>) -> (r: Vec<Vec<char>>)
    ensures
        views_of(r@) == split_lines(v@),
    decreases v@.len(),
{
    let nl = nl_marker_vec();
    match find_pat(v, &nl, 0) {
        None => {
            let mut out: Vec<Vec<char>> = Vec::new();
            out.push(subvec(v, 0, v.len()));
            proof {
                assert(views_of(out@) =~~= split_lines(v@));
            }
            out
        }
        Some(i) => {
            proof {
                lemma_find_from_some(v@, nl_marker(), 0);
            }
            let vl = v.len();
            assert(i + 1 <= vl);
            let first = subvec(v, 0, i);
            let tail = subvec(v, i + 1, vl);
            let mut rest = split_lines_chars(&tail);
            let mut out: Vec<Vec<char>> = Vec::new();
            out.push(first);
            out.append(&mut rest);
            proof {
                assert(views_of(out@) =~~= split_lines(v@));
            }
            out
        }
    }
}

/// First position at or after `from` that holds a blank character, or the
/// length of `s`.
pub open spec fn first_ws(s: Seq<char>, from: int) -> int
    decreases s.len() - from,
    when 0 <= from
{
    if from >= s.len() {
        s.len() as int
    } else if is_ws(s[from]) {
        from
    } else {
        first_ws(s, from + 1)
    }
}

proof fn lemma_first_ws_bounds(s: Seq<char>, from: int)
    requires
        0 <= from <= s.len(),
    ensures
        from <= first_ws(s, from),
        first_ws(s, from) <= s.len(),
    decreases s.len() - from,
{
    if from < s.len() && !is_ws(s[from]) {
        lemma_first_ws_bounds(s, from + 1);
    }
}

/// The maximal blank-free runs of `s` at or after `from`.
pub open spec fn words_from(s: Seq<char>, from: int) -> Seq<Seq<char>>
    decreases s.len() - from,
    when 0 <= from
    via words_from_dec
{
    if from >= s.len() {
        Seq::empty()
    } else if is_ws(s[from]) {
        words_from(s, from + 1)
    } else {
        let e = first_ws(s, from + 1);
        seq![s.subrange(from, e)] + words_from(s, e)
    }
}

#[via_fn]
proof fn words_from_dec(s: Seq<char>, from: int) {
    if 0 <= from < s.len() && !is_ws(s[from]) {
        lemma_first_ws_bounds(s, from + 1);
    }
}

fn first_ws_exec(v: &Vec<char>, from: usize) -> (r: usize)
    requires
        from <= v@.len(),
    ensures
        r == first_ws(v@, from as int),
        from <= r <= v@.len(),
    decreases v@.len() - from,
{
    if from >= v.len() {
        v.len()
    } else if is_ws_char(v[from]) {
        from
    } else {
        first_ws_exec(v, from + 1)
    }
}

fn words_chars(v: &Vec<char>, from: usize) -> (r: Vec<Vec<char>>)
    requires
        from <= v@.len(),
    ensures
        views_of(r@) == words_from(v@, from as int),
    decreases v@.len() - from,
{
    if from >= v.len() {
        let out: Vec<Vec<char>> = Vec::new();
        proof {
            assert(views_of(out@) =~~= words_from(v@, from as int));
        }
        out
    } else if is_ws_char(v[from]) {
        words_chars(v, from + 1)
    } else {
        let e = first_ws_exec(v, from + 1);
        let word = subvec(v, from, e);
        let mut rest = words_chars(v, e);
        let mut out: Vec<Vec<char>> = Vec::new();
        out.push(word);
        out.append(&mut rest);
        proof {
            assert(views_of(out@) =~~= words_from(v@, from as int));
        }
        out
    }
}

/// The parts at or after `from`, joined with `sep` between them.
pub open spec fn join_from(parts: Seq<Seq<char>>, sep: char, from: int) -> Seq<char>
    decreases parts.len() - from,
    when 0 <= from
{
    if from >= parts.len() {
        Seq::empty()
    } else if from == parts.len() - 1 {
        parts[from]
    } else {
        parts[from] + seq![sep] + join_from(parts, sep, from + 1)
    }
}

fn join_chars(parts: &Vec<Vec<char>>, sep: char, from: usize) -> (r: Vec<char>)
    requires
        from <= parts@.len(),
    ensures
        r@ == join_from(views_of(parts@), sep, from as int),
    decreases parts@.len() - from,
{
    if from >= parts.len() {
        let out: Vec<char> = Vec::new();
        proof {
            assert(out@ =~= join_from(views_of(parts@), sep, from as int));
        }
        out
    } else if from == parts.len() - 1 {
        let e = &parts[from];
        let out = subvec(e, 0, e.len());
        proof {
            assert(out@ =~= views_of(parts@)[from as int]);
        }
        out
    } else {
        let e = &parts[from];
        let mut out = subvec(e, 0, e.len());
        out.push(sep);
        let rest = join_chars(parts, sep, from + 1);
        extend_chars(&mut out, &rest);
        proof {
            assert(out@ =~= join_from(views_of(parts@), sep, from as int));
        }
        out
    }
}

/// A line with blank runs squashed to single spaces and no blanks at
/// either end.
pub open spec fn squash_line(l: Seq<char>) -> Seq<char> {
    join_from(words_from(l, 0), ' ', 0)
}

fn squash_words(l: &Vec<char>) -> (r: Vec<char>)
    ensures
        r@ == squash_line(l@),
{
    let w = words_chars(l, 0);
    join_chars(&w, ' ', 0)
}

/// The lines at or after `from` with runs of two or more empty lines cut
/// down to one; `prev_empty` tells whether the line just before `from` was
/// kept as an empty one.
pub open spec fn collapse_from(lines: Seq<Seq<char>>, from: int, prev_empty: bool) -> Seq<
    Seq<char>,
>
    decreases lines.len() - from,
    when 0 <= from
{
    if from >= lines.len() {
        Seq::empty()
    } else if lines[from].len() == 0 {
        if prev_empty {
            collapse_from(lines, from + 1, true)
        } else {
            seq![lines[from]] + collapse_from(lines, from + 1, true)
        }
    } else {
        seq![lines[from]] + collapse_from(lines, from + 1, false)
    }
}

fn collapse_lines(lines: &Vec<Vec<char>>, from: usize, prev_empty: bool) -> (r: Vec<Vec<char>>)
    requires
        from <= lines@.len(),
    ensures
        views_of(r@) == collapse_from(views_of(lines@), from as int, prev_empty),
    decreases lines@.len() - from,
{
    if from >= lines.len() {
        let out: Vec<Vec<char>> = Vec::new();
        proof {
            assert(views_of(out@) =~~= collapse_from(views_of(lines@), from as int, prev_empty));
        }
        out
    } else if lines[from].len() == 0 {
        if prev_empty {
            collapse_lines(lines, from + 1, true)
        } else {
            let e = &lines[from];
            let kept = subvec(e, 0, e.len());
            let mut rest = collapse_lines(lines, from + 1, true);
            let mut out: Vec<Vec<char>> = Vec::new();
            out.push(kept);
            out.append(&mut rest);
            proof {
                assert(views_of(out@) =~~= collapse_from(views_of(lines@), from as int, prev_empty));
            }
            out
        }
    } else {
        let e = &lines[from];
        let kept = subvec(e, 0, e.len());
        let mut rest = collapse_lines(lines, from + 1, false);
        let mut out: Vec<Vec<char>> = Vec::new();
        out.push(kept);
        out.append(&mut rest);
        proof {
            assert(views_of(out@) =~~= collapse_from(views_of(lines@), from as int, prev_empty));
        }
        out
    }
}

/// Blank normalization applied after comment stripping: trim the whole
/// text, squash blank runs within each line, and cut runs of empty lines
/// down to a single one.
pub open spec fn clean_ws(s: Seq<char>) -> Seq<char> {
    let lines = split_lines(trim_seq(s));
    let squashed = lines.map_values(|l: Seq<char>| squash_line(l));
    join_from(collapse_from(squashed, 0, false), '\n', 0)
}

/// What `remove_html_comments` returns: comment spans dropped (all of them
/// complete, or the tail after an opener that never closes), the original
/// text kept whenever a span holds a nested opener, and blanks normalized
/// either way.
pub open spec fn spec_remove_html_comments(body: Seq<char>) -> Seq<char> {
    match strip_from(body, 0) {
        None => body,
        Some(s) => clean_ws(s),
    }
}

/// Removes HTML comment spans from the given text and normalizes its
/// blanks. On a nested comment opener the text comes back exactly as it
/// was, blanks included.
pub fn remove_html_comments(body: String) -> (r: String)
    ensures
        r@ == spec_remove_html_comments(body@),
{
    let chars = chars_of(body.as_str());
    let open_pat = open_marker_vec();
    let close_pat = close_marker_vec();
    let stripped = match strip_chars_from(&chars, 0, &open_pat, &close_pat) {
        Some(v) => v,
        None => {
            return body;
        }
    };
    let trimmed = trim_chars(&stripped);
    let lines = split_lines_chars(&trimmed);
    let mut squashed: Vec<Vec<char>> = Vec::new();
    let mut i: usize = 0;
    while i < lines.len()
        invariant
            i <= lines@.len(),
            squashed@.len() == i,
            forall|j: int| 0 <= j < i ==> squashed@[j]@ == squash_line(views_of(lines@)[j]),
        decreases lines@.len() - i,
    {
        squashed.push(squash_words(&lines[i]));
        i += 1;
    }
    proof {
        assert(views_of(squashed@) =~~= views_of(lines@).map_values(
            |l: Seq<char>| squash_line(l),
        ));
    }
    let kept = collapse_lines(&squashed, 0, false);
    let joined = join_chars(&kept, '\n', 0);
    string_from_chars(&joined)
}

/// The merge-commit message: the sanitized body, one blank line, then the
/// pull request URL.
pub fn format_commit_message(body: String, html_url: String) -> (r: String)
    ensures
        r@ == spec_remove_html_comments(body@) + "\n\n"@ + html_url@,
{
    let mut s = remove_html_comments(body);
    s.append("\n\n");
    s.append(html_url.as_str());
    s
}


/// The mergeability verdict the platform reports for a pull request.
/// `Unsupported` stands for any verdict this bot does not know.
#[derive(Debug, Clone, Copy, PartialEq, Eq, Structural)]
pub enum MergeableState {
    Unknown,
    Draft,
    Behind,
    Dirty,
    Blocked,
    Clean,
    HasHooks,
    Unstable,
    Unsupported,
}

/// Why a merge attempt was abandoned.
#[derive(Debug, Clone, Copy, PartialEq, Eq, Structural)]
pub enum AbortReason {
    Draft,
    Behind,
    Dirty,
    Blocked,
}

/// Where the polling machine stands.
#[derive(Debug, Clone, Copy, PartialEq, Eq, Structural)]
pub enum QueueState {
    Polling,
    Merging,
    Done,
    Aborted,
}

/// What the driver must do after handing a poll result to the machine.
#[derive(Debug, Clone, Copy, PartialEq, Eq, Structural)]
pub enum PollStep {
    /// Sleep for the poll interval, fetch the pull request anew, and poll
    /// the machine again.
    Retry,
    /// Stop without merging: mergeability stayed unknown through every
    /// allowed poll.
    GiveUp,
    /// Stop without merging, for the given reason.
    Abort(AbortReason),
    /// Stop without merging: the platform reported a verdict this bot does
    /// not know.
    Ignore,
    /// Perform the merge call, then report its outcome back.
    BeginMerge,
}

/// How many polls may report unknown mergeability before the machine
/// gives up.
pub const MAX_POLLS: u32 = 3;

/// The bounded polling machine that decides whether an accepted pull
/// request is really merged. It re-reads the pull request because the
/// platform computes mergeability asynchronously.
#[derive(Debug, Clone, Copy, PartialEq, Eq, Structural)]
pub struct MergeQueue {
    pub state: QueueState,
    pub polls: u32,
}

impl MergeQueue {
    /// The machine and the driver instruction after one poll result.
    pub open spec fn spec_poll(self, ms: Option<MergeableState>) -> (MergeQueue, PollStep) {
        match ms {
            None => self.spec_poll_unknown(),
            Some(MergeableState::Unknown) => self.spec_poll_unknown(),
            Some(MergeableState::Draft) => (
                MergeQueue { state: QueueState::Aborted, ..self },
                PollStep::Abort(AbortReason::Draft),
            ),
            Some(MergeableState::Behind) => (
                MergeQueue { state: QueueState::Aborted, ..self },
                PollStep::Abort(AbortReason::Behind),
            ),
            Some(MergeableState::Dirty) => (
                MergeQueue { state: QueueState::Aborted, ..self },
                PollStep::Abort(AbortReason::Dirty),
            ),
            Some(MergeableState::Blocked) => (
                MergeQueue { state: QueueState::Aborted, ..self },
                PollStep::Abort(AbortReason::Blocked),
            ),
            Some(MergeableState::Clean) => (
                MergeQueue { state: QueueState::Merging, ..self },
                PollStep::BeginMerge,
            ),
            Some(MergeableState::HasHooks) => (
                MergeQueue { state: QueueState::Merging, ..self },
                PollStep::BeginMerge,
            ),
            Some(MergeableState::Unstable) => (
                MergeQueue { state: QueueState::Merging, ..self },
                PollStep::BeginMerge,
            ),
            Some(MergeableState::Unsupported) => (
                MergeQueue { state: QueueState::Aborted, ..self },
                PollStep::Ignore,
            ),
        }
    }

    /// The transition taken while mergeability is still unknown.
    pub open spec fn spec_poll_unknown(self) -> (MergeQueue, PollStep) {
        if self.polls + 1 >= MAX_POLLS {
            (
                MergeQueue { state: QueueState::Aborted, polls: (self.polls + 1) as u32 },
                PollStep::GiveUp,
            )
        } else {
            (
                MergeQueue { state: QueueState::Polling, polls: (self.polls + 1) as u32 },
                PollStep::Retry,
            )
        }
    }

    /// A fresh machine, ready to poll.
    pub fn new() -> (r: MergeQueue)
        ensures
            r.state == QueueState::Polling,
            r.polls == 0,
    {
        MergeQueue { state: QueueState::Polling, polls: 0 }
    }

    /// Feed one poll result to the machine.
    pub fn on_poll(&mut self, ms: Option<MergeableState>) -> (step: PollStep)
        requires
            old(self).state == QueueState::Polling,
            old(self).polls < MAX_POLLS,
        ensures
            *final(self) == old(self).spec_poll(ms).0,
            step == old(self).spec_poll(ms).1,
            final(self).state == QueueState::Polling <==> step == PollStep::Retry,
            step == PollStep::BeginMerge <==> final(self).state == QueueState::Merging,
    {
        match ms {
            None | Some(MergeableState::Unknown) => {
                self.polls = self.polls + 1;
                if self.polls >= MAX_POLLS {
                    self.state = QueueState::Aborted;
                    PollStep::GiveUp
                } else {
                    PollStep::Retry
                }
            }
            Some(MergeableState::Draft) => {
                self.state = QueueState::Aborted;
                PollStep::Abort(AbortReason::Draft)
            }
            Some(MergeableState::Behind) => {
                self.state = QueueState::Aborted;
                PollStep::Abort(AbortReason::Behind)
            }
            Some(MergeableState::Dirty) => {
                self.state = QueueState::Aborted;
                PollStep::Abort(AbortReason::Dirty)
            }
            Some(MergeableState::Blocked) => {
                self.state = QueueState::Aborted;
                PollStep::Abort(AbortReason::Blocked)
            }
            Some(MergeableState::Clean) | Some(MergeableState::HasHooks)
            | Some(MergeableState::Unstable) => {
                self.state = QueueState::Merging;
                PollStep::BeginMerge
            }
            Some(MergeableState::Unsupported) => {
                self.state = QueueState::Aborted;
                PollStep::Ignore
            }
        }
    }

    /// Feed the outcome of the merge call to the machine.
    pub fn on_merge_result(&mut self, merged: bool)
        requires
            old(self).state == QueueState::Merging,
        ensures
            final(self).state == (if merged {
                QueueState::Done
            } else {
                QueueState::Aborted
            }),
            final(self).polls == old(self).polls,
    {
        if merged {
            self.state = QueueState::Done;
        } else {
            self.state = QueueState::Aborted;
        }
    }
}

/// A machine that only ever sees unknown mergeability asks for exactly two
/// retries, gives up at the third poll, and never begins a merge.
pub proof fn lemma_persistent_unknown_gives_up(
    q0: MergeQueue,
    ms1: Option<MergeableState>,
    ms2: Option<MergeableState>,
    ms3: Option<MergeableState>,
)
    requires
        q0.state == QueueState::Polling,
        q0.polls == 0,
        ms1 == None::<MergeableState> || ms1 == Some(MergeableState::Unknown),
        ms2 == None::<MergeableState> || ms2 == Some(MergeableState::Unknown),
        ms3 == None::<MergeableState> || ms3 == Some(MergeableState::Unknown),
    ensures
        ({
            let (q1, s1) = q0.spec_poll(ms1);
            let (q2, s2) = q1.spec_poll(ms2);
            let (q3, s3) = q2.spec_poll(ms3);
            s1 == PollStep::Retry && s2 == PollStep::Retry && s3 == PollStep::GiveUp && q3.state
                == QueueState::Aborted && q3.polls == MAX_POLLS
        }),
{
}

/// The fully composed merge call for an accepted pull request.
#[derive(Debug, Clone)]
pub struct MergeCommand {
    /// The commit title: the pull request title followed by its number.
    pub title: String,
    /// The head commit the merge is pinned to, guarding against commits
    /// that land after the decision.
    pub head_sha: String,
    /// The configured merge method.
    pub method: MergeMethod,
    /// The commit message: the sanitized body followed by the pull request
    /// URL, or the URL alone when there is no body.
    pub message: String,
}

/// Compose the merge call for a pull request.
pub fn build_merge_command(
    title: &String,
    number: u64,
    head_sha: &String,
    method: MergeMethod,
    body: Option<String>,
    html_url: &String,
) -> (r: MergeCommand)
    ensures
        r.title@ == title@ + " (#"@ + dec_digits(number as int) + ")"@,
        r.head_sha@ == head_sha@,
        r.method == method,
        r.message@ == (match body {
            Some(b) => spec_remove_html_comments(b@) + "\n\n"@ + html_url@,
            None => html_url@,
        }),
{
    let mut t = title.clone();
    t.append(" (#");
    let digits = u64_chars(number);
    let ds = string_from_chars(&digits);
    t.append(ds.as_str());
    t.append(")");
    proof {
        assert(t@ =~= title@ + " (#"@ + dec_digits(number as int) + ")"@);
    }
    let message = match body {
        Some(b) => format_commit_message(b, html_url.clone()),
        None => html_url.clone(),
    };
    MergeCommand { title: t, head_sha: head_sha.clone(), method, message }
}

} // verus!
