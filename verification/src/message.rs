//! Commit message handling: composing a full message from a title and a body,
//! and splitting a stored message back into a title and a body for display.
//!
//! A composed message is `trim(title) + "\n\n" + trim(body)`, where trimming
//! removes the ASCII whitespace characters listed in [`is_space_char`] from
//! both ends. Splitting takes everything before the first line feed as the
//! title (dropping a carriage return just before it) and the remainder as the
//! body, with leading blank lines stripped.

use vstd::prelude::*;
use crate::is_space_char;
use crate::is_space;

verus! {

/// The sequence with leading whitespace removed.
pub open spec fn trim_front(s: Seq<char>) -> Seq<char>
    decreases s.len(),
{
    if s.len() > 0 && is_space_char(s[0]) {
        trim_front(s.drop_first())
    } else {
        s
    }
}

/// The sequence with trailing whitespace removed.
pub open spec fn trim_back(s: Seq<char>) -> Seq<char>
    decreases s.len(),
{
    if s.len() > 0 && is_space_char(s.last()) {
        trim_back(s.drop_last())
    } else {
        s
    }
}

/// The sequence with whitespace removed from both ends.
pub open spec fn trimmed(s: Seq<char>) -> Seq<char> {
    trim_back(trim_front(s))
}

/// A full commit message as composed from a title and a body.
pub open spec fn composed(title: Seq<char>, body: Seq<char>) -> Seq<char> {
    trimmed(title) + seq!['\n', '\n'] + trimmed(body)
}

/// Index of the first line feed in `s`, or `s.len()` if there is none.
pub open spec fn line_break_index(s: Seq<char>) -> int
    decreases s.len(),
{
    if s.len() == 0 {
        0
    } else if s[0] == '\n' {
        0
    } else {
        1 + line_break_index(s.drop_first())
    }
}

/// The sequence with leading blank lines (a line feed, or a carriage return
/// followed by a line feed) removed.
pub open spec fn strip_blank_lines(s: Seq<char>) -> Seq<char>
    decreases s.len(),
{
    if s.len() > 0 && s[0] == '\n' {
        strip_blank_lines(s.drop_first())
    } else if s.len() > 1 && s[0] == '\r' && s[1] == '\n' {
        strip_blank_lines(s.subrange(2, s.len() as int))
    } else {
        s
    }
}

/// The title part of a stored message: everything before the first line feed,
/// without a carriage return standing just before it.
pub open spec fn title_of(msg: Seq<char>) -> Seq<char> {
    let i = line_break_index(msg);
    if i > 0 && msg[i - 1] == '\r' {
        msg.subrange(0, i - 1)
    } else {
        msg.subrange(0, i)
    }
}

/// The sequence with every carriage-return/line-feed pair collapsed to a
/// single line feed, scanning from the left.
pub open spec fn normalize_line_breaks(s: Seq<char>) -> Seq<char>
    decreases s.len(),
{
    if s.len() == 0 {
        Seq::empty()
    } else if s.len() >= 2 && s[0] == '\r' && s[1] == '\n' {
        seq!['\n'] + normalize_line_breaks(s.subrange(2, s.len() as int))
    } else {
        seq![s[0]] + normalize_line_breaks(s.drop_first())
    }
}

/// The sequence without its final line terminator, if it ends in one.
pub open spec fn drop_final_break(s: Seq<char>) -> Seq<char> {
    if s.len() >= 2 && s[s.len() - 2] == '\r' && s.last() == '\n' {
        s.subrange(0, s.len() - 2)
    } else if s.len() >= 1 && s.last() == '\n' {
        s.subrange(0, s.len() - 1)
    } else {
        s
    }
}

/// The body part of a stored message: the remaining lines joined by a line
/// feed. A final line terminator is dropped, carriage-return/line-feed pairs
/// collapse to line feeds, and leading blank lines are stripped; empty if the
/// message is a single line.
pub open spec fn body_of(msg: Seq<char>) -> Seq<char> {
    let i = line_break_index(msg);
    if i < msg.len() {
        strip_blank_lines(
            normalize_line_breaks(drop_final_break(msg.subrange(i + 1, msg.len() as int))),
        )
    } else {
        Seq::empty()
    }
}

/// A sequence with no carriage-return/line-feed pair normalizes to itself.
proof fn lemma_normalize_plain(s: Seq<char>)
    requires
        forall|k: int| 0 <= k < s.len() - 1 ==> !((#[trigger] s[k]) == '\r' && s[k + 1] == '\n'),
    ensures
        normalize_line_breaks(s) == s,
    decreases s.len(),
{
    if s.len() > 0 {
        let t = s.drop_first();
        assert(forall|k: int|
            0 <= k < t.len() - 1 ==> !((#[trigger] t[k]) == '\r' && t[k + 1] == '\n'));
        lemma_normalize_plain(t);
        assert(seq![s[0]] + t =~= s);
    }
}

/// Normalization removes the carriage return of the first pair and goes on
/// after it.
proof fn lemma_normalize_split(s: Seq<char>, k: int)
    requires
        0 <= k,
        k + 1 < s.len(),
        forall|m: int| 0 <= m < k ==> !((#[trigger] s[m]) == '\r' && s[m + 1] == '\n'),
        s[k] == '\r',
        s[k + 1] == '\n',
    ensures
        normalize_line_breaks(s) == s.subrange(0, k) + normalize_line_breaks(
            s.subrange(k + 1, s.len() as int),
        ),
    decreases k,
{
    if k == 0 {
        let rest1 = s.subrange(1, s.len() as int);
        assert(rest1[0] == '\n');
        assert(rest1.drop_first() =~= s.subrange(2, s.len() as int));
        assert(normalize_line_breaks(rest1) == seq!['\n'] + normalize_line_breaks(
            s.subrange(2, s.len() as int),
        ));
        assert(s.subrange(0, 0) + normalize_line_breaks(rest1) =~= normalize_line_breaks(s));
    } else {
        let t = s.drop_first();
        assert(forall|m: int|
            0 <= m < k - 1 ==> !((#[trigger] t[m]) == '\r' && t[m + 1] == '\n'));
        assert(t[k - 1] == '\r' && t[k] == '\n');
        lemma_normalize_split(t, k - 1);
        assert(t.subrange(k, t.len() as int) =~= s.subrange(k + 1, s.len() as int));
        assert(seq![s[0]] + (t.subrange(0, k - 1) + normalize_line_breaks(
            s.subrange(k + 1, s.len() as int),
        )) =~= s.subrange(0, k) + normalize_line_breaks(s.subrange(k + 1, s.len() as int)));
    }
}

proof fn lemma_trim_front_at(s: Seq<char>, i: int)
    requires
        0 <= i <= s.len(),
        forall|k: int| 0 <= k < i ==> is_space_char(s[k]),
        i < s.len() ==> !is_space_char(s[i]),
    ensures
        trim_front(s) == s.subrange(i, s.len() as int),
    decreases i,
{
    if i == 0 {
        assert(s.subrange(0, s.len() as int) =~= s);
    } else {
        let t = s.drop_first();
        assert(forall|k: int| 0 <= k < i - 1 ==> is_space_char(t[k]));
        lemma_trim_front_at(t, i - 1);
        assert(t.subrange(i - 1, t.len() as int) =~= s.subrange(i, s.len() as int));
    }
}

proof fn lemma_trim_back_at(s: Seq<char>, j: int)
    requires
        0 <= j <= s.len(),
        forall|k: int| j <= k < s.len() ==> is_space_char(s[k]),
        j > 0 ==> !is_space_char(s[j - 1]),
    ensures
        trim_back(s) == s.subrange(0, j),
    decreases s.len() - j,
{
    if j == s.len() {
        assert(s.subrange(0, s.len() as int) =~= s);
    } else {
        let t = s.drop_last();
        assert(is_space_char(s.last()));
        assert(forall|k: int| j <= k < t.len() ==> is_space_char(t[k]));
        lemma_trim_back_at(t, j);
        assert(t.subrange(0, j) =~= s.subrange(0, j));
    }
}

/// Remove leading and trailing whitespace from a string.
pub fn trim_string(s: &str) -> (r: String)
    ensures
        r@ == trimmed(s@),
{
    let n = s.unicode_len();
    let mut i: usize = 0;
    while i < n && is_space(s.get_char(i))
        invariant
            0 <= i <= n,
            n == s@.len(),
            forall|k: int| 0 <= k < i ==> is_space_char(s@[k]),
        decreases n - i,
    {
        i = i + 1;
    }
    proof {
        lemma_trim_front_at(s@, i as int);
    }
    if i == n {
        proof {
            assert(trim_front(s@) =~= Seq::<char>::empty());
            assert(trimmed(s@) =~= Seq::<char>::empty());
        }
        return String::new();
    }
    let mut j: usize = n;
    while j > i && is_space(s.get_char(j - 1))
        invariant
            i <= j <= n,
            n == s@.len(),
            i < n,
            !is_space_char(s@[i as int]),
            forall|k: int| j <= k < n ==> is_space_char(s@[k]),
        decreases j,
    {
        j = j - 1;
    }
    let part = s.substring_char(i, j);
    proof {
        let front = s@.subrange(i as int, n as int);
        assert(forall|k: int| (j - i) <= k < front.len() ==> is_space_char(front[k]));
        assert(j > i);
        assert(!is_space_char(front[j - i - 1]));
        lemma_trim_back_at(front, j - i);
        assert(front.subrange(0, j - i) =~= s@.subrange(i as int, j as int));
    }
    part.to_owned()
}

/// Compose a full commit message: trimmed title, a blank line, trimmed body.
pub fn compose_message(title: &str, body: &str) -> (r: String)
    ensures
        r@ == composed(title@, body@),
{
    let t = trim_string(title);
    let b = trim_string(body);
    proof {
        reveal_strlit("\n\n");
        assert(("\n\n")@ =~= seq!['\n', '\n']);
    }
    let r = t.concat("\n\n").concat(b.as_str());
    proof {
        assert(r@ =~= composed(title@, body@));
    }
    r
}

proof fn lemma_line_break_at(s: Seq<char>, i: int)
    requires
        0 <= i <= s.len(),
        forall|k: int| 0 <= k < i ==> s[k] != '\n',
        i < s.len() ==> s[i] == '\n',
    ensures
        line_break_index(s) == i,
    decreases i,
{
    if i == 0 {
    } else {
        let t = s.drop_first();
        assert(forall|k: int| 0 <= k < i - 1 ==> t[k] != '\n');
        lemma_line_break_at(t, i - 1);
    }
}

/// Split a stored commit message into its title and its body.
pub fn split_message(msg: &str) -> (r: (String, String))
    ensures
        r.0@ == title_of(msg@),
        r.1@ == body_of(msg@),
{
    let n = msg.unicode_len();
    let mut i: usize = 0;
    while i < n && msg.get_char(i) != '\n'
        invariant
            0 <= i <= n,
            n == msg@.len(),
            forall|k: int| 0 <= k < i ==> msg@[k] != '\n',
        decreases n - i,
    {
        i = i + 1;
    }
    proof {
        lemma_line_break_at(msg@, i as int);
    }
    let title_end: usize = if i > 0 && msg.get_char(i - 1) == '\r' {
        i - 1
    } else {
        i
    };
    let title = msg.substring_char(0, title_end).to_owned();
    if i == n {
        proof {
            assert(body_of(msg@) =~= Seq::<char>::empty());
        }
        return (title, String::new());
    }
    // Drop a final line terminator of the remainder.
    let mut end: usize = n;
    if end - i >= 3 && msg.get_char(end - 2) == '\r' && msg.get_char(end - 1) == '\n' {
        end = end - 2;
    } else if end - i >= 2 && msg.get_char(end - 1) == '\n' {
        end = end - 1;
    }
    let ghost dropped = drop_final_break(msg@.subrange(i + 1, n as int));
    proof {
        assert(dropped =~= msg@.subrange(i + 1, end as int));
    }
    // Collapse every carriage-return/line-feed pair to a line feed.
    let mut norm = String::new();
    let mut seg_start: usize = i + 1;
    let mut k: usize = i + 1;
    while k < end
        invariant
            i + 1 <= seg_start <= k <= end <= n,
            n == msg@.len(),
            normalize_line_breaks(msg@.subrange(i + 1, end as int)) == norm@
                + normalize_line_breaks(msg@.subrange(seg_start as int, end as int)),
            forall|m: int|
                seg_start <= m < k ==> !((#[trigger] msg@[m]) == '\r' && m + 1 < end && msg@[m
                    + 1] == '\n'),
        decreases end - k,
    {
        if msg.get_char(k) == '\r' && k + 1 < end && msg.get_char(k + 1) == '\n' {
            let part = msg.substring_char(seg_start, k);
            proof {
                let seg = msg@.subrange(seg_start as int, end as int);
                assert(forall|m: int|
                    0 <= m < k - seg_start ==> !((#[trigger] seg[m]) == '\r' && seg[m + 1]
                        == '\n'));
                assert(seg[k - seg_start] == '\r' && seg[k - seg_start + 1] == '\n');
                lemma_normalize_split(seg, k - seg_start as int);
                assert(seg.subrange(0, k - seg_start as int) =~= msg@.subrange(
                    seg_start as int,
                    k as int,
                ));
                assert(seg.subrange(k - seg_start as int + 1, seg.len() as int) =~= msg@.subrange(
                    k + 1,
                    end as int,
                ));
            }
            norm = norm.concat(part);
            seg_start = k + 1;
            k = k + 2;
        } else {
            k = k + 1;
        }
    }
    let tail = msg.substring_char(seg_start, end);
    proof {
        let seg = msg@.subrange(seg_start as int, end as int);
        assert(forall|m: int|
            0 <= m < seg.len() - 1 ==> !((#[trigger] seg[m]) == '\r' && seg[m + 1] == '\n'));
        lemma_normalize_plain(seg);
    }
    let norm = norm.concat(tail);
    proof {
        assert(norm@ == normalize_line_breaks(dropped));
    }
    // Strip leading blank lines.
    let nn = norm.unicode_len();
    let norm_str = norm.as_str();
    let mut j: usize = 0;
    proof {
        assert(norm_str@.subrange(0, nn as int) =~= norm@);
    }
    loop
        invariant
            0 <= j <= nn,
            nn == norm_str@.len(),
            norm_str@ == norm@,
            strip_blank_lines(norm@) == strip_blank_lines(
                norm_str@.subrange(j as int, nn as int),
            ),
        ensures
            j <= nn == norm_str@.len(),
            norm_str@ == norm@,
            strip_blank_lines(norm@) == norm_str@.subrange(j as int, nn as int),
        decreases nn - j,
    {
        if j < nn && norm_str.get_char(j) == '\n' {
            proof {
                let cur = norm_str@.subrange(j as int, nn as int);
                assert(cur.drop_first() =~= norm_str@.subrange(j + 1, nn as int));
            }
            j = j + 1;
        } else if j < nn && norm_str.get_char(j) == '\r' && j + 1 < nn && norm_str.get_char(j + 1)
            == '\n' {
            proof {
                let cur = norm_str@.subrange(j as int, nn as int);
                assert(cur.subrange(2, cur.len() as int) =~= norm_str@.subrange(j + 2, nn as int));
            }
            j = j + 2;
        } else {
            proof {
                let cur = norm_str@.subrange(j as int, nn as int);
                assert(strip_blank_lines(cur) == cur);
            }
            break;
        }
    }
    let body = norm_str.substring_char(j, nn).to_owned();
    (title, body)
}

/// Splitting a composed message restores the trimmed title and body, provided
/// the trimmed title holds no line break and the trimmed body neither starts
/// with a blank line nor holds a carriage-return/line-feed pair.
pub proof fn lemma_compose_split_round_trip(title: Seq<char>, body: Seq<char>)
    requires
        forall|k: int| 0 <= k < trimmed(title).len() ==> trimmed(title)[k] != '\n',
        trimmed(body).len() > 0 ==> trimmed(body)[0] != '\n',
        forall|k: int|
            0 <= k < trimmed(body).len() - 1 ==> !((#[trigger] trimmed(body)[k]) == '\r'
                && trimmed(body)[k + 1] == '\n'),
    ensures
        title_of(composed(title, body)) == trimmed(title),
        body_of(composed(title, body)) == trimmed(body),
{
    let t = trimmed(title);
    let b = trimmed(body);
    let m = composed(title, body);
    let i = t.len() as int;
    assert(m.len() == t.len() + 2 + b.len());
    assert(forall|k: int| 0 <= k < i ==> m[k] == t[k]);
    assert(m[i] == '\n');
    lemma_line_break_at(m, i);
    lemma_trim_back_no_space_last(title);
    if i > 0 {
        assert(!is_space_char(t[i - 1]));
        assert(m[i - 1] != '\r');
    }
    assert(m.subrange(0, i) =~= t);
    let rest = m.subrange(i + 1, m.len() as int);
    assert(rest[0] == '\n');
    assert(rest.drop_first() =~= b);
    lemma_trim_back_no_space_last(body);
    if b.len() == 0 {
        assert(rest =~= seq!['\n']);
        assert(drop_final_break(rest) =~= Seq::<char>::empty());
        assert(normalize_line_breaks(Seq::<char>::empty()) =~= Seq::<char>::empty());
        assert(body_of(m) =~= b);
    } else {
        assert(rest.last() == b.last());
        assert(!is_space_char(b.last()));
        assert(rest.last() != '\n');
        assert(drop_final_break(rest) == rest);
        assert forall|k: int|
            0 <= k < rest.len() - 1 implies !((#[trigger] rest[k]) == '\r' && rest[k + 1]
            == '\n') by {
            if k > 0 {
                assert(rest[k] == b[k - 1]);
                if k < rest.len() - 1 {
                    assert(rest[k + 1] == b[k]);
                }
            }
        }
        lemma_normalize_plain(rest);
        assert(strip_blank_lines(rest) == strip_blank_lines(b));
        assert(strip_blank_lines(b) == b);
        assert(body_of(m) == b);
    }
}

/// The last character of a trimmed sequence is never whitespace.
proof fn lemma_trim_back_no_space_last(s: Seq<char>)
    ensures
        trimmed(s).len() > 0 ==> !is_space_char(trimmed(s).last()),
{
    lemma_trim_back_last(trim_front(s));
}

proof fn lemma_trim_back_last(s: Seq<char>)
    ensures
        trim_back(s).len() > 0 ==> !is_space_char(trim_back(s).last()),
    decreases s.len(),
{
    if s.len() > 0 && is_space_char(s.last()) {
        lemma_trim_back_last(s.drop_last());
    }
}

} // verus!
