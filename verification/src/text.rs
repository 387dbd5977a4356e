//! Character-level text utilities: Unicode whitespace, word splitting,
//! trimming and XML attribute escaping.

use vstd::prelude::*;

verus! {

/// The Unicode `White_Space` property (PropList.txt), the set of characters
/// that `char::is_whitespace` accepts.
pub open spec fn is_white_space(c: char) -> bool {
    ||| ('\u{9}' <= c && c <= '\u{d}')
    ||| c == ' '
    ||| c == '\u{85}'
    ||| c == '\u{a0}'
    ||| c == '\u{1680}'
    ||| ('\u{2000}' <= c && c <= '\u{200a}')
    ||| c == '\u{2028}'
    ||| c == '\u{2029}'
    ||| c == '\u{202f}'
    ||| c == '\u{205f}'
    ||| c == '\u{3000}'
}

/// Whether `c` is Unicode whitespace, as `char::is_whitespace` decides it.
pub fn is_whitespace_char(c: char) -> (r: bool)
    ensures
        r == is_white_space(c),
{
    ('\u{9}' <= c && c <= '\u{d}') || c == ' ' || c == '\u{85}' || c == '\u{a0}' || c
        == '\u{1680}' || ('\u{2000}' <= c && c <= '\u{200a}') || c == '\u{2028}' || c
        == '\u{2029}' || c == '\u{202f}' || c == '\u{205f}' || c == '\u{3000}'
}

/// std's `String::push`: afterwards the string is the old one followed by `c`.
#[verifier::external_body]
pub(crate) fn push_char(s: &mut String, c: char)
    ensures
        final(s)@ == old(s)@.push(c),
{
    s.push(c);
}

/// The characters of a string slice, in order.
pub fn chars_of(s: &str) -> (r: Vec<char>)
    ensures
        r@ == s@,
{
    let mut out: Vec<char> = Vec::new();
    for c in it: s.chars()
        invariant
            out@ == it.seq().take(it.index() as int),
            it.seq() == s@,
    {
        out.push(c);
    }
    out
}

/// A string made of `cs[from..to]`.
pub fn string_from_chars(cs: &Vec<char>, from: usize, to: usize) -> (r: String)
    requires
        from <= to <= cs@.len(),
    ensures
        r@ == cs@.subrange(from as int, to as int),
{
    let mut out = String::new();
    let mut i = from;
    while i < to
        invariant
            from <= i <= to <= cs@.len(),
            out@ == cs@.subrange(from as int, i as int),
        decreases to - i,
    {
        push_char(&mut out, cs[i]);
        assert(cs@.subrange(from as int, i + 1) =~= cs@.subrange(from as int, i as int).push(
            cs@[i as int],
        ));
        i = i + 1;
    }
    out
}

// ---------------------------------------------------------------------------
// Trimming
// ---------------------------------------------------------------------------

/// `s` without its leading whitespace.
pub open spec fn trim_start(s: Seq<char>) -> Seq<char>
    decreases s.len(),
{
    if s.len() > 0 && is_white_space(s[0]) {
        trim_start(s.drop_first())
    } else {
        s
    }
}

/// `s` without its trailing whitespace.
pub open spec fn trim_end(s: Seq<char>) -> Seq<char>
    decreases s.len(),
{
    if s.len() > 0 && is_white_space(s.last()) {
        trim_end(s.drop_last())
    } else {
        s
    }
}

/// `s` without leading and trailing whitespace (`str::trim`).
pub open spec fn trim(s: Seq<char>) -> Seq<char> {
    trim_end(trim_start(s))
}

proof fn lemma_trim_start_at(s: Seq<char>, a: int)
    requires
        0 <= a <= s.len(),
        forall|i: int| 0 <= i < a ==> is_white_space(#[trigger] s[i]),
        a == s.len() || !is_white_space(s[a]),
    ensures
        trim_start(s) == s.skip(a),
    decreases a,
{
    if a == 0 {
        assert(s.skip(0) =~= s);
    } else {
        let t = s.drop_first();
        assert forall|i: int| 0 <= i < a - 1 implies is_white_space(#[trigger] t[i]) by {
            assert(t[i] == s[i + 1]);
        }
        lemma_trim_start_at(t, a - 1);
        assert(t.skip(a - 1) =~= s.skip(a));
    }
}

proof fn lemma_trim_end_at(s: Seq<char>, b: int)
    requires
        0 <= b <= s.len(),
        forall|i: int| b <= i < s.len() ==> is_white_space(#[trigger] s[i]),
        b == 0 || !is_white_space(s[b - 1]),
    ensures
        trim_end(s) == s.take(b),
    decreases s.len() - b,
{
    if b == s.len() {
        assert(s.take(b) =~= s);
    } else {
        let t = s.drop_last();
        assert forall|i: int| b <= i < t.len() implies is_white_space(#[trigger] t[i]) by {
            assert(t[i] == s[i]);
        }
        if b > 0 {
            assert(t[b - 1] == s[b - 1]);
        }
        lemma_trim_end_at(t, b);
        assert(t.take(b) =~= s.take(b));
    }
}

/// The bounds `(a, b)` such that `trim(cs) == cs[a..b]`.
pub fn trim_bounds(cs: &Vec<char>) -> (r: (usize, usize))
    ensures
        r.0 <= r.1 <= cs@.len(),
        cs@.subrange(r.0 as int, r.1 as int) == trim(cs@),
{
    let n = cs.len();
    let mut a: usize = 0;
    while a < n && is_whitespace_char(cs[a])
        invariant
            a <= n == cs@.len(),
            forall|i: int| 0 <= i < a ==> is_white_space(#[trigger] cs@[i]),
        decreases n - a,
    {
        a = a + 1;
    }
    let mut b: usize = n;
    while b > a && is_whitespace_char(cs[b - 1])
        invariant
            a <= b <= n == cs@.len(),
            forall|i: int| b <= i < n ==> is_white_space(#[trigger] cs@[i]),
        decreases b - a,
    {
        b = b - 1;
    }
    proof {
        let s = cs@;
        lemma_trim_start_at(s, a as int);
        let t = s.skip(a as int);
        assert forall|i: int| (b - a) <= i < t.len() implies is_white_space(#[trigger] t[i]) by {
            assert(t[i] == s[i + a]);
        }
        if b > a {
            assert(t[b - a - 1] == s[b - 1]);
        }
        lemma_trim_end_at(t, (b - a) as int);
        assert(t.take((b - a) as int) =~= s.subrange(a as int, b as int));
    }
    (a, b)
}

/// `str::trim`, as an owned string.
pub fn trim_str(s: &str) -> (r: String)
    ensures
        r@ == trim(s@),
{
    let cs = chars_of(s);
    let (a, b) = trim_bounds(&cs);
    string_from_chars(&cs, a, b)
}

proof fn lemma_trim_start_is_suffix(s: Seq<char>)
    ensures
        trim_start(s).len() <= s.len(),
        trim_start(s) == s.skip(s.len() - trim_start(s).len()),
        trim_start(s).len() == 0 || !is_white_space(trim_start(s)[0]),
    decreases s.len(),
{
    if s.len() > 0 && is_white_space(s[0]) {
        lemma_trim_start_is_suffix(s.drop_first());
        let t = trim_start(s.drop_first());
        assert(s.drop_first().skip(s.drop_first().len() - t.len()) =~= s.skip(s.len() - t.len()));
    } else {
        assert(s.skip(0) =~= s);
    }
}

proof fn lemma_trim_end_is_prefix(s: Seq<char>)
    ensures
        trim_end(s).len() <= s.len(),
        trim_end(s) == s.take(trim_end(s).len() as int),
        trim_end(s).len() == 0 || !is_white_space(trim_end(s).last()),
    decreases s.len(),
{
    if s.len() > 0 && is_white_space(s.last()) {
        lemma_trim_end_is_prefix(s.drop_last());
        let t = trim_end(s.drop_last());
        assert(s.drop_last().take(t.len() as int) =~= s.take(t.len() as int));
    } else {
        assert(s.take(s.len() as int) =~= s);
    }
}

/// Trimming twice is trimming once.
pub proof fn law_trim_idempotent(s: Seq<char>)
    ensures
        trim(trim(s)) == trim(s),
{
    let u = trim_start(s);
    lemma_trim_start_is_suffix(s);
    lemma_trim_end_is_prefix(u);
    let t = trim(s);
    if t.len() > 0 {
        // t starts where u starts and ends on a non-whitespace character.
        assert(t[0] == u[0]);
    }
    assert(trim_start(t) == t);
    assert(trim_end(t) == t);
}

// ---------------------------------------------------------------------------
// Words
// ---------------------------------------------------------------------------

/// Scans `s` left to right: the words completed so far and the word in progress.
pub open spec fn scan_words(s: Seq<char>) -> (Seq<Seq<char>>, Seq<char>)
    decreases s.len(),
{
    if s.len() == 0 {
        (seq![], seq![])
    } else {
        let (ws, cur) = scan_words(s.drop_last());
        let c = s.last();
        if is_white_space(c) {
            if cur.len() > 0 {
                (ws.push(cur), seq![])
            } else {
                (ws, cur)
            }
        } else {
            (ws, cur.push(c))
        }
    }
}

/// The maximal runs of non-whitespace characters of `s`, in order
/// (`str::split_whitespace`).
pub open spec fn split_whitespace(s: Seq<char>) -> Seq<Seq<char>> {
    let (ws, cur) = scan_words(s);
    if cur.len() > 0 {
        ws.push(cur)
    } else {
        ws
    }
}

/// The words joined by single spaces.
pub open spec fn join_words(ws: Seq<Seq<char>>) -> Seq<char>
    decreases ws.len(),
{
    if ws.len() == 0 {
        seq![]
    } else if ws.len() == 1 {
        ws[0]
    } else {
        join_words(ws.drop_last()) + seq![' '] + ws.last()
    }
}

proof fn lemma_join_push(ws: Seq<Seq<char>>, w: Seq<char>)
    ensures
        join_words(ws.push(w)) == if ws.len() == 0 {
            w
        } else {
            join_words(ws) + seq![' '] + w
        },
{
    assert(ws.push(w).drop_last() =~= ws);
}

/// Every word of the scan is non-empty and free of whitespace.
proof fn lemma_scan_words_shape(s: Seq<char>)
    ensures
        forall|k: int|
            0 <= k < scan_words(s).0.len() ==> #[trigger] scan_words(s).0[k].len() > 0
                && no_white_space(scan_words(s).0[k]),
        no_white_space(scan_words(s).1),
    decreases s.len(),
{
    if s.len() > 0 {
        lemma_scan_words_shape(s.drop_last());
        let (ws, cur) = scan_words(s.drop_last());
        let c = s.last();
        if !is_white_space(c) {
            assert forall|i: int| 0 <= i < cur.push(c).len() implies !is_white_space(
                #[trigger] cur.push(c)[i],
            ) by {
                if i < cur.len() {
                    assert(cur.push(c)[i] == cur[i]);
                }
            }
        }
    }
}

/// No character of `s` is whitespace.
pub open spec fn no_white_space(s: Seq<char>) -> bool {
    forall|i: int| 0 <= i < s.len() ==> !is_white_space(#[trigger] s[i])
}

/// Every character of `s` is whitespace.
pub open spec fn all_white_space(s: Seq<char>) -> bool {
    forall|i: int| 0 <= i < s.len() ==> is_white_space(#[trigger] s[i])
}

/// Splitting on whitespace yields non-empty words that contain no whitespace.
pub proof fn law_words_are_nonempty_and_unbroken(s: Seq<char>)
    ensures
        forall|k: int|
            0 <= k < split_whitespace(s).len() ==> #[trigger] split_whitespace(s)[k].len() > 0
                && no_white_space(split_whitespace(s)[k]),
{
    lemma_scan_words_shape(s);
}

proof fn lemma_scan_empty_iff_blank(s: Seq<char>)
    ensures
        (scan_words(s).0.len() == 0 && scan_words(s).1.len() == 0) <==> all_white_space(s),
    decreases s.len(),
{
    if s.len() > 0 {
        lemma_scan_empty_iff_blank(s.drop_last());
        let t = s.drop_last();
        if all_white_space(s) {
            assert forall|i: int| 0 <= i < t.len() implies is_white_space(#[trigger] t[i]) by {
                assert(t[i] == s[i]);
            }
        }
        if all_white_space(t) && is_white_space(s.last()) {
            assert forall|i: int| 0 <= i < s.len() implies is_white_space(#[trigger] s[i]) by {
                if i < t.len() {
                    assert(t[i] == s[i]);
                }
            }
        }
    }
}

/// A text has no words exactly when it is all whitespace.
pub proof fn law_no_words_iff_blank(s: Seq<char>)
    ensures
        split_whitespace(s).len() == 0 <==> all_white_space(s),
{
    lemma_scan_empty_iff_blank(s);
}

// ---------------------------------------------------------------------------
// Summaries
// ---------------------------------------------------------------------------

/// At most this many words go into a summary.
pub const MAX_SUMMARY_WORDS: usize = 10;

/// A joined summary longer than this many characters is cut.
pub const MAX_SUMMARY_CHARS: usize = 80;

/// The first `MAX_SUMMARY_WORDS` words of `text` joined by single spaces;
/// when that is longer than `MAX_SUMMARY_CHARS` characters, its first
/// `MAX_SUMMARY_CHARS - 1` characters followed by `...`.
pub open spec fn summary_of(text: Seq<char>) -> Seq<char> {
    let ws = split_whitespace(text);
    let first = if ws.len() <= MAX_SUMMARY_WORDS {
        ws
    } else {
        ws.take(MAX_SUMMARY_WORDS as int)
    };
    let joined = join_words(first);
    if joined.len() > MAX_SUMMARY_CHARS {
        joined.take(MAX_SUMMARY_CHARS - 1) + seq!['.', '.', '.']
    } else {
        joined
    }
}

/// The number of words a summary keeps out of `len` words.
pub open spec fn kept_words(len: nat) -> int {
    if len <= MAX_SUMMARY_WORDS {
        len as int
    } else {
        MAX_SUMMARY_WORDS as int
    }
}

/// Completes the word `cur`: when it is non-empty and fewer than
/// `MAX_SUMMARY_WORDS` words are kept, it is appended to `joined`.
fn complete_word(joined: &mut Vec<char>, count: &mut usize, cur: &Vec<char>, Ghost(ws): Ghost<Seq<Seq<char>>>)
    requires
        *old(count) as int == kept_words(ws.len()),
        old(joined)@ == join_words(ws.take(*old(count) as int)),
    ensures
        ({
            let done = if cur@.len() > 0 { ws.push(cur@) } else { ws };
            &&& *final(count) as int == kept_words(done.len())
            &&& final(joined)@ == join_words(done.take(*final(count) as int))
        }),
{
    if cur.len() > 0 && *count < MAX_SUMMARY_WORDS {
        proof {
            lemma_join_push(ws.take(*count as int), cur@);
            assert(ws.push(cur@).take(*count + 1) =~= ws.take(*count as int).push(cur@));
        }
        if *count > 0 {
            joined.push(' ');
        }
        let mut k: usize = 0;
        let ghost base = joined@;
        while k < cur.len()
            invariant
                k <= cur@.len(),
                joined@ == base + cur@.take(k as int),
            decreases cur@.len() - k,
        {
            joined.push(cur[k]);
            assert(cur@.take(k + 1) =~= cur@.take(k as int).push(cur@[k as int]));
            k = k + 1;
        }
        assert(cur@.take(cur@.len() as int) =~= cur@);
        *count = *count + 1;
    } else if cur.len() > 0 {
        assert(ws.push(cur@).take(*count as int) =~= ws.take(*count as int));
    }
}

/// The summary stored with a plain message.
pub fn summarize_message(text: &str) -> (r: String)
    ensures
        r@ == summary_of(text@),
{
    let cs = chars_of(text);
    let n = cs.len();
    let mut joined: Vec<char> = Vec::new();
    let mut count: usize = 0;
    let mut cur: Vec<char> = Vec::new();
    let mut i: usize = 0;
    while i < n
        invariant
            n == cs@.len(),
            i <= n,
            cur@ == scan_words(cs@.take(i as int)).1,
            count as int == kept_words(scan_words(cs@.take(i as int)).0.len()),
            joined@ == join_words(scan_words(cs@.take(i as int)).0.take(count as int)),
        decreases n - i,
    {
        let ghost pre = cs@.take(i as int);
        proof {
            assert(cs@.take(i + 1).drop_last() =~= pre);
            assert(cs@.take(i + 1).last() == cs@[i as int]);
        }
        if is_whitespace_char(cs[i]) {
            complete_word(&mut joined, &mut count, &cur, Ghost(scan_words(pre).0));
            cur = Vec::new();
        } else {
            cur.push(cs[i]);
        }
        i = i + 1;
    }
    proof {
        assert(cs@.take(n as int) =~= cs@);
    }
    complete_word(&mut joined, &mut count, &cur, Ghost(scan_words(cs@).0));
    let mut end = joined.len();
    let cut = end > MAX_SUMMARY_CHARS;
    if cut {
        end = MAX_SUMMARY_CHARS - 1;
    }
    let mut out = string_from_chars(&joined, 0, end);
    if cut {
        push_char(&mut out, '.');
        push_char(&mut out, '.');
        push_char(&mut out, '.');
    }
    proof {
        let ws = split_whitespace(cs@);
        if ws.len() <= MAX_SUMMARY_WORDS {
            assert(ws.take(count as int) =~= ws);
        }
        assert(joined@.subrange(0, joined@.len() as int) =~= joined@);
        assert(joined@.subrange(0, MAX_SUMMARY_CHARS - 1) =~= joined@.take(
            MAX_SUMMARY_CHARS - 1,
        ));
    }
    out
}

proof fn lemma_join_nonempty(ws: Seq<Seq<char>>)
    requires
        ws.len() > 0,
        ws.last().len() > 0,
    ensures
        join_words(ws).len() > 0,
{
}

/// A summary is never longer than `MAX_SUMMARY_CHARS + 2` characters: a cut
/// keeps `MAX_SUMMARY_CHARS - 1` characters and appends three dots.
pub proof fn law_summary_length_bound(text: Seq<char>)
    ensures
        summary_of(text).len() <= MAX_SUMMARY_CHARS + 2,
{
}

/// A summary is empty exactly when the text is all whitespace.
pub proof fn law_summary_empty_iff_blank(text: Seq<char>)
    ensures
        summary_of(text).len() == 0 <==> all_white_space(text),
{
    law_no_words_iff_blank(text);
    law_words_are_nonempty_and_unbroken(text);
    let ws = split_whitespace(text);
    if ws.len() > 0 {
        let first = if ws.len() <= MAX_SUMMARY_WORDS {
            ws
        } else {
            ws.take(MAX_SUMMARY_WORDS as int)
        };
        assert(first.last() == ws[first.len() - 1]);
        lemma_join_nonempty(first);
    }
}

/// A short text (at most `MAX_SUMMARY_WORDS` words that fit within
/// `MAX_SUMMARY_CHARS` characters when joined) is summarised by its words
/// joined with single spaces.
pub proof fn law_short_summary_is_joined_words(text: Seq<char>)
    requires
        split_whitespace(text).len() <= MAX_SUMMARY_WORDS,
        join_words(split_whitespace(text)).len() <= MAX_SUMMARY_CHARS,
    ensures
        summary_of(text) == join_words(split_whitespace(text)),
{
}

proof fn lemma_join_ends(ws: Seq<Seq<char>>)
    requires
        ws.len() > 0,
        forall|k: int| 0 <= k < ws.len() ==> #[trigger] ws[k].len() > 0,
    ensures
        join_words(ws).len() > 0,
        join_words(ws)[0] == ws[0][0],
        join_words(ws).last() == ws.last().last(),
    decreases ws.len(),
{
    if ws.len() > 1 {
        let front = ws.drop_last();
        assert forall|k: int| 0 <= k < front.len() implies #[trigger] front[k].len() > 0 by {
            assert(front[k] == ws[k]);
        }
        lemma_join_ends(front);
        assert(front[0] == ws[0]);
        let j = join_words(front) + seq![' '] + ws.last();
        assert(j[0] == join_words(front)[0]);
    }
}

/// A summary has no leading or trailing whitespace, so the teammate message
/// text shows the summary stored with a plain message as it is.
pub proof fn law_summary_is_trimmed(text: Seq<char>)
    ensures
        trim(summary_of(text)) == summary_of(text),
{
    law_words_are_nonempty_and_unbroken(text);
    let ws = split_whitespace(text);
    let first = if ws.len() <= MAX_SUMMARY_WORDS {
        ws
    } else {
        ws.take(MAX_SUMMARY_WORDS as int)
    };
    let s = summary_of(text);
    if first.len() == 0 {
        assert(s.len() == 0);
        lemma_trim_start_at(s, 0);
        lemma_trim_end_at(s, 0);
        assert(s.skip(0) =~= s);
        assert(s.take(0) =~= s);
    } else {
        assert forall|k: int| 0 <= k < first.len() implies #[trigger] first[k].len() > 0 by {
            assert(first[k] == ws[k]);
        }
        lemma_join_ends(first);
        let j = join_words(first);
        assert(no_white_space(first[0]) && first[0].len() > 0) by {
            assert(first[0] == ws[0]);
        }
        assert(!is_white_space(j[0]));
        assert(no_white_space(first.last()) && first.last().len() > 0) by {
            assert(first.last() == ws[first.len() - 1]);
        }
        assert(!is_white_space(first.last()[first.last().len() - 1]));
        assert(s[0] == j[0]);
        assert(!is_white_space(s[s.len() - 1]));
        lemma_trim_start_at(s, 0);
        assert(s.skip(0) =~= s);
        lemma_trim_end_at(s, s.len() as int);
        assert(s.take(s.len() as int) =~= s);
    }
}

// ---------------------------------------------------------------------------
// Summaries are stable: summarising a summary gives it back
// ---------------------------------------------------------------------------

/// Text in which words are separated by single spaces: no leading space,
/// no whitespace other than spaces, and no two spaces in a row.
pub open spec fn is_single_spaced(s: Seq<char>) -> bool {
    &&& (s.len() > 0 ==> s[0] != ' ')
    &&& forall|i: int| 0 <= i < s.len() && is_white_space(#[trigger] s[i]) ==> s[i] == ' '
    &&& forall|i: int| 0 < i < s.len() && #[trigger] s[i] == ' ' ==> s[i - 1] != ' '
}

/// The number of spaces in `s`.
pub open spec fn count_spaces(s: Seq<char>) -> nat
    decreases s.len(),
{
    if s.len() == 0 {
        0
    } else {
        count_spaces(s.drop_last()) + if s.last() == ' ' {
            1nat
        } else {
            0nat
        }
    }
}

proof fn lemma_count_spaces_concat(a: Seq<char>, b: Seq<char>)
    ensures
        count_spaces(a + b) == count_spaces(a) + count_spaces(b),
    decreases b.len(),
{
    if b.len() == 0 {
        assert(a + b =~= a);
    } else {
        lemma_count_spaces_concat(a, b.drop_last());
        assert((a + b).drop_last() =~= a + b.drop_last());
    }
}

proof fn lemma_count_spaces_none(s: Seq<char>)
    requires
        no_white_space(s),
    ensures
        count_spaces(s) == 0,
    decreases s.len(),
{
    if s.len() > 0 {
        let t = s.drop_last();
        assert forall|i: int| 0 <= i < t.len() implies !is_white_space(#[trigger] t[i]) by {
            assert(t[i] == s[i]);
        }
        lemma_count_spaces_none(t);
    }
}

proof fn lemma_single_spaced_prefix(s: Seq<char>, k: int)
    requires
        is_single_spaced(s),
        0 <= k <= s.len(),
    ensures
        is_single_spaced(s.take(k)),
        count_spaces(s.take(k)) <= count_spaces(s),
{
    let p = s.take(k);
    assert forall|i: int| 0 <= i < p.len() && is_white_space(#[trigger] p[i]) implies p[i] == ' ' by {
        assert(p[i] == s[i]);
    }
    assert forall|i: int| 0 < i < p.len() && #[trigger] p[i] == ' ' implies p[i - 1] != ' ' by {
        assert(p[i] == s[i] && p[i - 1] == s[i - 1]);
    }
    if p.len() > 0 {
        assert(p[0] == s[0]);
    }
    lemma_count_spaces_concat(p, s.skip(k));
    assert(p + s.skip(k) =~= s);
}

/// How the scan sees single-spaced text: the completed words, joined, are
/// the text up to its last space, and the word in progress is what follows.
proof fn lemma_scan_single_spaced(s: Seq<char>)
    requires
        is_single_spaced(s),
    ensures
        ({
            let (ws, cur) = scan_words(s);
            &&& ws.len() == count_spaces(s)
            &&& s.len() == 0 ==> ws.len() == 0 && cur.len() == 0
            &&& s.len() > 0 && s.last() == ' ' ==> cur.len() == 0 && ws.len() > 0 && join_words(ws)
                + seq![' '] == s
            &&& s.len() > 0 && s.last() != ' ' ==> cur.len() > 0 && (ws.len() == 0 ==> cur == s)
                && (ws.len() > 0 ==> join_words(ws) + seq![' '] + cur == s)
        }),
    decreases s.len(),
{
    if s.len() > 0 {
        let t = s.drop_last();
        lemma_single_spaced_prefix(s, s.len() - 1);
        assert(s.take(s.len() - 1) =~= t);
        lemma_scan_single_spaced(t);
        let (ws_t, cur_t) = scan_words(t);
        let c = s.last();
        if c == ' ' {
            assert(s.len() > 1) by {
                if s.len() == 1 {
                    assert(s[0] == c);
                }
            }
            assert(t.last() == s[s.len() - 2]);
            assert(t.last() != ' ');
            lemma_join_push(ws_t, cur_t);
            assert(t.push(' ') =~= s);
            if ws_t.len() > 0 {
                assert(join_words(ws_t.push(cur_t)) + seq![' '] =~= join_words(ws_t) + seq![' ']
                    + cur_t + seq![' ']);
            } else {
                assert(join_words(ws_t.push(cur_t)) + seq![' '] =~= cur_t + seq![' ']);
            }
        } else {
            assert(!is_white_space(c));
            if t.len() == 0 {
                assert(cur_t.push(c) =~= s);
            } else if t.last() == ' ' {
                assert(join_words(ws_t) + seq![' '] + cur_t.push(c) =~= t.push(c));
                assert(t.push(c) =~= s);
            } else if ws_t.len() == 0 {
                assert(cur_t.push(c) =~= s);
            } else {
                assert(join_words(ws_t) + seq![' '] + cur_t.push(c) =~= (join_words(ws_t)
                    + seq![' '] + cur_t).push(c));
                assert(t.push(c) =~= s);
            }
        }
    }
}

/// Single-spaced text that does not end in a space splits into one more word
/// than it has spaces, and joining those words gives it back.
proof fn lemma_split_single_spaced(s: Seq<char>)
    requires
        is_single_spaced(s),
        s.len() > 0,
        s.last() != ' ',
    ensures
        split_whitespace(s).len() == count_spaces(s) + 1,
        join_words(split_whitespace(s)) == s,
{
    lemma_scan_single_spaced(s);
    let (ws, cur) = scan_words(s);
    lemma_join_push(ws, cur);
}

/// Words that are non-empty and free of whitespace, joined by single spaces,
/// give single-spaced text that does not end in a space and has one space
/// fewer than words.
proof fn lemma_join_single_spaced(ws: Seq<Seq<char>>)
    requires
        ws.len() > 0,
        forall|k: int| 0 <= k < ws.len() ==> #[trigger] ws[k].len() > 0 && no_white_space(ws[k]),
    ensures
        is_single_spaced(join_words(ws)),
        join_words(ws).len() > 0,
        join_words(ws).last() != ' ',
        count_spaces(join_words(ws)) + 1 == ws.len(),
    decreases ws.len(),
{
    let w = ws.last();
    assert(ws[ws.len() - 1] == w);
    assert(!is_white_space(w[w.len() - 1]));
    lemma_count_spaces_none(w);
    if ws.len() == 1 {
        assert(w == ws[0]);
        assert forall|i: int| 0 <= i < w.len() && is_white_space(#[trigger] w[i]) implies w[i]
            == ' ' by {}
        assert forall|i: int| 0 < i < w.len() && #[trigger] w[i] == ' ' implies w[i - 1] != ' ' by {
            assert(is_white_space(w[i]));
        }
        if w.len() > 0 {
            assert(!is_white_space(w[0]));
        }
    } else {
        let front = ws.drop_last();
        assert forall|k: int| 0 <= k < front.len() implies #[trigger] front[k].len() > 0
            && no_white_space(front[k]) by {
            assert(front[k] == ws[k]);
        }
        lemma_join_single_spaced(front);
        let a = join_words(front);
        let j = a + seq![' '] + w;
        assert(join_words(ws) == j);
        lemma_count_spaces_concat(a + seq![' '], w);
        lemma_count_spaces_concat(a, seq![' ']);
        assert(count_spaces(seq![' ']) == 1) by {
            let one = seq![' '];
            assert(one.drop_last() =~= Seq::<char>::empty());
            assert(count_spaces(one.drop_last()) == 0);
            assert(one.last() == ' ');
        }
        assert forall|i: int| 0 <= i < j.len() && is_white_space(#[trigger] j[i]) implies j[i] == ' ' by {
            if i < a.len() {
                assert(j[i] == a[i]);
            } else if i > a.len() {
                assert(j[i] == w[i - a.len() - 1]);
            }
        }
        assert forall|i: int| 0 < i < j.len() && #[trigger] j[i] == ' ' implies j[i - 1] != ' ' by {
            if i < a.len() {
                assert(j[i] == a[i] && j[i - 1] == a[i - 1]);
            } else if i == a.len() {
                assert(j[i - 1] == a.last());
            } else if i == a.len() + 1 {
                assert(j[i] == w[0]);
                assert(!is_white_space(w[0]));
            } else {
                assert(j[i] == w[i - a.len() - 1]);
                assert(!is_white_space(w[i - a.len() - 1]));
            }
        }
        assert(j[0] == a[0]);
        assert(j.last() == w.last());
    }
}

/// Summarising a summary gives it back.
pub proof fn law_summary_idempotent(text: Seq<char>)
    ensures
        summary_of(summary_of(text)) == summary_of(text),
{
    law_words_are_nonempty_and_unbroken(text);
    let ws = split_whitespace(text);
    let first = if ws.len() <= MAX_SUMMARY_WORDS {
        ws
    } else {
        ws.take(MAX_SUMMARY_WORDS as int)
    };
    let j = join_words(first);
    let s = summary_of(text);
    if first.len() == 0 {
        assert(s.len() == 0);
        assert(split_whitespace(s).len() == 0);
    } else {
        assert forall|k: int| 0 <= k < first.len() implies #[trigger] first[k].len() > 0
            && no_white_space(first[k]) by {
            assert(first[k] == ws[k]);
        }
        lemma_join_single_spaced(first);
        if j.len() <= MAX_SUMMARY_CHARS {
            assert(s == j);
            lemma_split_single_spaced(s);
        } else {
            let p = j.take(MAX_SUMMARY_CHARS - 1);
            lemma_single_spaced_prefix(j, MAX_SUMMARY_CHARS - 1);
            let dots = seq!['.', '.', '.'];
            assert(s == p + dots);
            assert(p[0] == j[0]);
            assert forall|i: int| 0 <= i < s.len() && is_white_space(#[trigger] s[i]) implies s[i]
                == ' ' by {
                if i < p.len() {
                    assert(s[i] == p[i]);
                }
            }
            assert forall|i: int| 0 < i < s.len() && #[trigger] s[i] == ' ' implies s[i - 1] != ' ' by {
                if i < p.len() {
                    assert(s[i] == p[i] && s[i - 1] == p[i - 1]);
                }
            }
            lemma_count_spaces_concat(p, dots);
            assert(count_spaces(dots) == 0) by {
                assert forall|i: int| 0 <= i < dots.len() implies !is_white_space(#[trigger] dots[i]) by {}
                lemma_count_spaces_none(dots);
            }
            lemma_split_single_spaced(s);
            assert(s.take(MAX_SUMMARY_CHARS - 1) =~= p);
        }
    }
}

// ---------------------------------------------------------------------------
// XML attribute escaping
// ---------------------------------------------------------------------------

/// The escape of one character inside a double-quoted XML attribute.
pub open spec fn escape_char(c: char) -> Seq<char> {
    if c == '&' {
        seq!['&', 'a', 'm', 'p', ';']
    } else if c == '"' {
        seq!['&', 'q', 'u', 'o', 't', ';']
    } else if c == '<' {
        seq!['&', 'l', 't', ';']
    } else if c == '>' {
        seq!['&', 'g', 't', ';']
    } else {
        seq![c]
    }
}

/// `s` with `&`, `"`, `<` and `>` replaced by their XML entities.
pub open spec fn escape_xml(s: Seq<char>) -> Seq<char>
    decreases s.len(),
{
    if s.len() == 0 {
        seq![]
    } else {
        escape_xml(s.drop_last()) + escape_char(s.last())
    }
}

/// Escapes a value for use inside a double-quoted XML attribute.
pub fn escape_xml_attr(value: &str) -> (r: String)
    ensures
        r@ == escape_xml(value@),
{
    let cs = chars_of(value);
    let mut escaped = String::new();
    let mut i: usize = 0;
    while i < cs.len()
        invariant
            i <= cs@.len(),
            escaped@ == escape_xml(cs@.take(i as int)),
        decreases cs@.len() - i,
    {
        let ch = cs[i];
        proof {
            assert(cs@.take(i + 1).drop_last() =~= cs@.take(i as int));
        }
        if ch == '&' {
            push_char(&mut escaped, '&');
            push_char(&mut escaped, 'a');
            push_char(&mut escaped, 'm');
            push_char(&mut escaped, 'p');
            push_char(&mut escaped, ';');
        } else if ch == '"' {
            push_char(&mut escaped, '&');
            push_char(&mut escaped, 'q');
            push_char(&mut escaped, 'u');
            push_char(&mut escaped, 'o');
            push_char(&mut escaped, 't');
            push_char(&mut escaped, ';');
        } else if ch == '<' {
            push_char(&mut escaped, '&');
            push_char(&mut escaped, 'l');
            push_char(&mut escaped, 't');
            push_char(&mut escaped, ';');
        } else if ch == '>' {
            push_char(&mut escaped, '&');
            push_char(&mut escaped, 'g');
            push_char(&mut escaped, 't');
            push_char(&mut escaped, ';');
        } else {
            push_char(&mut escaped, ch);
        }
        assert(escaped@ =~= escape_xml(cs@.take(i + 1)));
        i = i + 1;
    }
    assert(cs@.take(cs@.len() as int) =~= cs@);
    escaped
}

/// The escape of an attribute value holds no `"`, `<` or `>`, so it cannot
/// end the attribute or open or close a tag.
pub proof fn law_escaped_attr_has_no_delimiters(s: Seq<char>)
    ensures
        forall|i: int|
            0 <= i < escape_xml(s).len() ==> #[trigger] escape_xml(s)[i] != '"' && escape_xml(
                s,
            )[i] != '<' && escape_xml(s)[i] != '>',
    decreases s.len(),
{
    if s.len() > 0 {
        law_escaped_attr_has_no_delimiters(s.drop_last());
        let a = escape_xml(s.drop_last());
        let b = escape_char(s.last());
        assert forall|i: int| 0 <= i < (a + b).len() implies #[trigger] (a + b)[i] != '"' && (a
            + b)[i] != '<' && (a + b)[i] != '>' by {
            if i < a.len() {
                assert((a + b)[i] == a[i]);
            } else {
                assert((a + b)[i] == b[i - a.len()]);
            }
        }
    }
}

/// A value with none of `&`, `"`, `<`, `>` is left unchanged by escaping.
pub proof fn law_plain_attr_is_unchanged(s: Seq<char>)
    requires
        forall|i: int|
            0 <= i < s.len() ==> #[trigger] s[i] != '&' && s[i] != '"' && s[i] != '<' && s[i]
                != '>',
    ensures
        escape_xml(s) == s,
    decreases s.len(),
{
    if s.len() > 0 {
        let t = s.drop_last();
        assert forall|i: int| 0 <= i < t.len() implies #[trigger] t[i] != '&' && t[i] != '"'
            && t[i] != '<' && t[i] != '>' by {
            assert(t[i] == s[i]);
        }
        law_plain_attr_is_unchanged(t);
        assert(t + seq![s.last()] =~= s);
    }
}

/// Escaping distributes over concatenation, and the empty value escapes to
/// the empty text.
pub proof fn law_escape_concat(a: Seq<char>, b: Seq<char>)
    ensures
        escape_xml(a + b) == escape_xml(a) + escape_xml(b),
        escape_xml(Seq::<char>::empty()) == Seq::<char>::empty(),
    decreases b.len(),
{
    if b.len() == 0 {
        assert(a + b =~= a);
        assert(escape_xml(a) + escape_xml(b) =~= escape_xml(a));
    } else {
        law_escape_concat(a, b.drop_last());
        assert((a + b).drop_last() =~= a + b.drop_last());
        assert((a + b).last() == b.last());
        assert(escape_xml(a) + escape_xml(b) =~= escape_xml(a) + escape_xml(b.drop_last())
            + escape_char(b.last()));
    }
}

proof fn lemma_escape_len(s: Seq<char>)
    ensures
        escape_xml(s).len() >= s.len(),
    decreases s.len(),
{
    if s.len() > 0 {
        lemma_escape_len(s.drop_last());
    }
}

/// The escape of a non-empty value starts with the escape of its first character.
proof fn lemma_escape_front(s: Seq<char>)
    requires
        s.len() > 0,
    ensures
        escape_xml(s) == escape_char(s[0]) + escape_xml(s.drop_first()),
{
    law_escape_concat(seq![s[0]], s.drop_first());
    assert(seq![s[0]] + s.drop_first() =~= s);
    assert(seq![s[0]].drop_last() =~= Seq::<char>::empty());
    assert(escape_xml(seq![s[0]]) =~= escape_char(s[0]));
}

/// Distinct values have distinct escapes.
pub proof fn law_escape_injective(a: Seq<char>, b: Seq<char>)
    requires
        escape_xml(a) == escape_xml(b),
    ensures
        a == b,
    decreases a.len(),
{
    lemma_escape_len(a);
    lemma_escape_len(b);
    if a.len() == 0 || b.len() == 0 {
        if a.len() > 0 {
            lemma_escape_front(a);
        }
        if b.len() > 0 {
            lemma_escape_front(b);
        }
        assert(a =~= b);
    } else {
        lemma_escape_front(a);
        lemma_escape_front(b);
        let x = a[0];
        let y = b[0];
        let ex = escape_char(x);
        let ey = escape_char(y);
        let t = escape_xml(a);
        assert(t[0] == ex[0] && t[0] == ey[0]);
        if ex.len() > 1 && ey.len() > 1 {
            assert(t[1] == ex[1] && t[1] == ey[1]);
        }
        assert(x == y);
        assert(escape_xml(a.drop_first()) =~= t.skip(ex.len() as int));
        assert(escape_xml(b.drop_first()) =~= t.skip(ey.len() as int));
        law_escape_injective(a.drop_first(), b.drop_first());
        assert(a =~= seq![x] + a.drop_first());
        assert(b =~= seq![y] + b.drop_first());
    }
}

} // verus!
