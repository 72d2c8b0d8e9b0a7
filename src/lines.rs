use vstd::prelude::*;

verus! {

/// Which lines of a file count.
#[derive(Clone, Copy, Debug, PartialEq, Eq, Structural)]
pub enum CountRule {
    /// Every line, also an unterminated last one.
    AllLines,
    /// Only lines that hold something besides whitespace.
    NonEmptyTrimmedLines,
}

/// The characters that `char::is_whitespace` accepts: Unicode's White_Space.
pub open spec fn is_blank_spec(c: char) -> bool {
    ('\u{9}' <= c && c <= '\u{d}') || c == ' ' || c == '\u{85}' || c == '\u{a0}'
        || c == '\u{1680}' || ('\u{2000}' <= c && c <= '\u{200a}') || c == '\u{2028}'
        || c == '\u{2029}' || c == '\u{202f}' || c == '\u{205f}' || c == '\u{3000}'
}

/// Whether `c` is whitespace, as `char::is_whitespace` tells.
pub fn is_blank(c: char) -> (r: bool)
    ensures
        r == is_blank_spec(c),
{
    ('\u{9}' <= c && c <= '\u{d}') || c == ' ' || c == '\u{85}' || c == '\u{a0}'
        || c == '\u{1680}' || ('\u{2000}' <= c && c <= '\u{200a}') || c == '\u{2028}'
        || c == '\u{2029}' || c == '\u{202f}' || c == '\u{205f}' || c == '\u{3000}'
}

/// The text after the last `'\n'` of `s` (all of `s` if it has none).
pub open spec fn open_line(s: Seq<char>) -> Seq<char>
    decreases s.len(),
{
    if s.len() == 0 {
        s
    } else if s.last() == '\n' {
        Seq::empty()
    } else {
        open_line(s.drop_last()).push(s.last())
    }
}

/// Whether a line with text `l` counts under `rule`.
pub open spec fn line_counts(l: Seq<char>, rule: CountRule) -> bool {
    match rule {
        CountRule::AllLines => true,
        CountRule::NonEmptyTrimmedLines => exists|i: int| 0 <= i < l.len() && !is_blank_spec(#[trigger] l[i]),
    }
}

/// How many of the lines that a `'\n'` ends in `s` count under `rule`.
pub open spec fn closed_line_count(s: Seq<char>, rule: CountRule) -> nat
    decreases s.len(),
{
    if s.len() == 0 {
        0
    } else if s.last() == '\n' {
        closed_line_count(s.drop_last(), rule) + if line_counts(open_line(s.drop_last()), rule) {
            1nat
        } else {
            0nat
        }
    } else {
        closed_line_count(s.drop_last(), rule)
    }
}

/// How many lines of `s` count under `rule`: lines are split at `'\n'`, and
/// an empty piece after the last `'\n'` is no line.
pub open spec fn line_count(s: Seq<char>, rule: CountRule) -> nat {
    closed_line_count(s, rule) + if open_line(s).len() > 0 && line_counts(open_line(s), rule) {
        1nat
    } else {
        0nat
    }
}

/// Counts the lines of `text` that count under `rule`.
pub fn count_text_lines(text: &str, rule: CountRule) -> (r: usize)
    ensures
        r == line_count(text@, rule),
{
    let n: usize = text.unicode_len();
    let mut closed: usize = 0;
    let mut open_len: usize = 0;
    let mut open_has_content: bool = false;
    let ghost mut seen: Seq<char> = Seq::empty();
    for c in it: text.chars()
        invariant
            seen == text@.take(it.index() as int),
            closed == closed_line_count(seen, rule),
            open_len == open_line(seen).len(),
            open_has_content == (exists|i: int|
                0 <= i < open_line(seen).len() && !is_blank_spec(#[trigger] open_line(seen)[i])),
            closed + (if open_len > 0 { 1int } else { 0int }) <= seen.len(),
            open_len <= seen.len(),
            seen.len() <= n,
            n == text@.len(),
            it.seq() == text@,
    {
        proof {
            assert(it.seq()[it.index()] == c);
            let prev = seen;
            seen = seen.push(c);
            assert(seen.drop_last() == prev);
            assert(seen == text@.take(it.index() + 1));
            if c != '\n' {
                let l = open_line(seen);
                assert(l == open_line(prev).push(c));
                if !is_blank_spec(c) {
                    assert(l[l.len() - 1] == c);
                }
                if open_has_content {
                    let i = choose|i: int|
                        0 <= i < open_line(prev).len() && !is_blank_spec(#[trigger] open_line(prev)[i]);
                    assert(l[i] == open_line(prev)[i]);
                }
            }
        }
        if c == '\n' {
            if rule == CountRule::AllLines || open_has_content {
                closed = closed + 1;
            }
            open_len = 0;
            open_has_content = false;
        } else {
            open_len = open_len + 1;
            open_has_content = open_has_content || !is_blank(c);
        }
    }
    proof {
        assert(seen == text@);
    }
    let last: usize = if open_len > 0 && (rule == CountRule::AllLines || open_has_content) {
        1
    } else {
        0
    };
    closed + last
}

} // verus!
