use vstd::prelude::*;
use crate::text::{find_char, lemma_find_char, lemma_find_char_at, lemma_find_char_none};

verus! {

/// `pattern` occurs in `s` at position `i`.
pub open spec fn occurs_at(s: Seq<char>, pattern: Seq<char>, i: int) -> bool {
    0 <= i && i + pattern.len() <= s.len() && s.subrange(i, i + pattern.len()) == pattern
}

/// The position of the first occurrence of `pattern` in `s`, if any.
pub open spec fn find_text(s: Seq<char>, pattern: Seq<char>) -> Option<int>
    decreases s.len(),
{
    if s.len() < pattern.len() {
        None
    } else if s.take(pattern.len() as int) == pattern {
        Some(0)
    } else if s.len() == 0 {
        None
    } else {
        match find_text(s.drop_first(), pattern) {
            Some(i) => Some(i + 1),
            None => None,
        }
    }
}

/// `find_text` finds the first occurrence of the pattern, or reports that there is none.
pub proof fn lemma_find_text(s: Seq<char>, pattern: Seq<char>)
    ensures
        match find_text(s, pattern) {
            Some(i) => occurs_at(s, pattern, i) && forall|j: int| 0 <= j < i ==> !occurs_at(s, pattern, j),
            None => forall|j: int| !occurs_at(s, pattern, j),
        },
    decreases s.len(),
{
    if s.len() < pattern.len() {
    } else if s.take(pattern.len() as int) == pattern {
        assert(s.subrange(0, pattern.len() as int) =~= s.take(pattern.len() as int));
    } else if s.len() == 0 {
        assert(pattern.len() == 0);
        assert(s.take(0) =~= pattern);
    } else {
        let rest = s.drop_first();
        lemma_find_text(rest, pattern);
        assert(!occurs_at(s, pattern, 0)) by {
            if occurs_at(s, pattern, 0) {
                assert(s.subrange(0, pattern.len() as int) =~= s.take(pattern.len() as int));
            }
        }
        assert forall|j: int| 1 <= j implies occurs_at(s, pattern, j) == occurs_at(rest, pattern, j - 1) by {
            if j + pattern.len() <= s.len() {
                assert(s.subrange(j, j + pattern.len()) =~= rest.subrange(j - 1, j - 1 + pattern.len()));
            }
        }
    }
}

/// A position where the pattern occurs, with no earlier occurrence, is what `find_text` finds.
pub proof fn lemma_find_text_at(s: Seq<char>, pattern: Seq<char>, i: int)
    requires
        occurs_at(s, pattern, i),
        forall|j: int| 0 <= j < i ==> !occurs_at(s, pattern, j),
    ensures
        find_text(s, pattern) == Some(i),
{
    lemma_find_text(s, pattern);
    match find_text(s, pattern) {
        Some(k) => {
            if k < i {
                assert(!occurs_at(s, pattern, k));
            } else if k > i {
                assert(!occurs_at(s, pattern, i));
            }
        },
        None => {
            assert(!occurs_at(s, pattern, i));
        },
    }
}

/// The pieces of `s` between the occurrences of a non-empty `pattern`, as `str::split` gives
/// them: occurrences are found left to right without overlapping, and there is always one more
/// piece than occurrences.
pub open spec fn split_text(s: Seq<char>, pattern: Seq<char>) -> Seq<Seq<char>>
    decreases s.len(),
{
    if pattern.len() == 0 {
        seq![s]
    } else {
        match find_text(s, pattern) {
            Some(i) => {
                proof {
                    lemma_find_text(s, pattern);
                }
                seq![s.take(i)] + split_text(s.skip(i + pattern.len()), pattern)
            },
            None => seq![s],
        }
    }
}

/// When the first occurrence of a non-empty pattern follows `first`, splitting gives `first`
/// and then the pieces of what follows the pattern.
pub proof fn lemma_split_at_first(first: Seq<char>, pattern: Seq<char>, rest: Seq<char>)
    requires
        pattern.len() > 0,
        forall|j: int| 0 <= j < first.len() ==> !occurs_at(first + pattern + rest, pattern, j),
    ensures
        split_text(first + pattern + rest, pattern) == seq![first] + split_text(rest, pattern),
{
    let s = first + pattern + rest;
    assert(s.subrange(first.len() as int, first.len() as int + pattern.len()) =~= pattern);
    lemma_find_text_at(s, pattern, first.len() as int);
    assert(s.take(first.len() as int) =~= first);
    assert(s.skip(first.len() as int + pattern.len()) =~= rest);
}

/// Ranges of `s` that hold the given pieces, in order.
pub open spec fn ranges_hold(s: Seq<char>, ranges: Seq<(usize, usize)>, pieces: Seq<Seq<char>>) -> bool {
    &&& ranges.len() == pieces.len()
    &&& forall|i: int|
        0 <= i < ranges.len() ==> {
            &&& (#[trigger] ranges[i]).0 <= ranges[i].1 <= s.len()
            &&& s.subrange(ranges[i].0 as int, ranges[i].1 as int) == pieces[i]
        }
}

fn occurs_at_exec(chars: &[char], pattern: &[char], at: usize) -> (occurs: bool)
    requires
        at + pattern@.len() <= chars@.len(),
    ensures
        occurs == occurs_at(chars@, pattern@, at as int),
{
    let n = chars.len();
    let mut k: usize = 0;
    while k < pattern.len()
        invariant
            k <= pattern@.len(),
            n == chars@.len(),
            at + pattern@.len() <= chars@.len(),
            forall|m: int| 0 <= m < k ==> chars@[at + m] == pattern@[m],
        decreases pattern@.len() - k,
    {
        if chars[at + k] != pattern[k] {
            assert(chars@.subrange(at as int, at + pattern@.len())[k as int] != pattern@[k as int]);
            return false;
        }
        k = k + 1;
    }
    assert(chars@.subrange(at as int, at + pattern@.len()) =~= pattern@);
    true
}

/// The ranges of the pieces between occurrences of a non-empty `pattern` in `chars`.
pub fn split_ranges(chars: &[char], pattern: &[char]) -> (ranges: Vec<(usize, usize)>)
    requires
        pattern@.len() > 0,
    ensures
        ranges_hold(chars@, ranges@, split_text(chars@, pattern@)),
{
    let mut ranges: Vec<(usize, usize)> = Vec::new();
    let mut pos: usize = 0;
    let n = chars.len();
    let ghost mut done: Seq<Seq<char>> = Seq::empty();
    assert(chars@.skip(0) =~= chars@);
    assert(split_text(chars@, pattern@) =~= done + split_text(chars@.skip(0), pattern@));
    loop
        invariant
            pos <= chars@.len(),
            n == chars@.len(),
            pattern@.len() > 0,
            ranges_hold(chars@, ranges@, done),
            split_text(chars@, pattern@) == done + split_text(chars@.skip(pos as int), pattern@),
        decreases chars@.len() - pos,
    {
        let ghost rest = chars@.skip(pos as int);
        let mut at: usize = pos;
        let mut found = false;
        while !found && pattern.len() <= chars.len() && at <= chars.len() - pattern.len()
            invariant
                pos <= at <= chars@.len(),
                pos <= chars@.len(),
                pattern@.len() > 0,
                found ==> at + pattern@.len() <= chars@.len() && occurs_at(chars@, pattern@, at as int),
                forall|j: int| 0 <= j < at - pos ==> !occurs_at(rest, pattern@, j),
                rest == chars@.skip(pos as int),
            decreases chars@.len() - at, if found { 0int } else { 1int },
        {
            if occurs_at_exec(chars, pattern, at) {
                found = true;
            } else {
                proof {
                    assert(rest.subrange(at - pos, at - pos + pattern@.len()) =~= chars@.subrange(
                        at as int,
                        at + pattern@.len(),
                    ));
                }
                at = at + 1;
            }
        }
        if found {
            proof {
                assert(rest.subrange(at - pos, at - pos + pattern@.len()) =~= chars@.subrange(
                    at as int,
                    at + pattern@.len(),
                ));
                lemma_find_text_at(rest, pattern@, at - pos);
                assert(rest.take(at - pos) =~= chars@.subrange(pos as int, at as int));
                assert(rest.skip(at - pos + pattern@.len()) =~= chars@.skip(at + pattern@.len()));
            }
            ranges.push((pos, at));
            proof {
                done = done.push(chars@.subrange(pos as int, at as int));
            }
            pos = at + pattern.len();
        } else {
            proof {
                assert forall|j: int| !occurs_at(rest, pattern@, j) by {
                    if 0 <= j && j + pattern@.len() <= rest.len() {
                        assert(j < at - pos);
                    }
                }
                lemma_find_text(rest, pattern@);
                assert(rest =~= chars@.subrange(pos as int, chars@.len() as int));
            }
            ranges.push((pos, chars.len()));
            proof {
                done = done.push(rest);
            }
            return ranges;
        }
    }
}

/// The ranges of the lines of `chars`, as `text_lines` splits them.
pub fn line_ranges(chars: &[char]) -> (ranges: Vec<(usize, usize)>)
    ensures
        ranges_hold(chars@, ranges@, text_lines(chars@)),
{
    let mut ranges: Vec<(usize, usize)> = Vec::new();
    let mut pos: usize = 0;
    let ghost mut done: Seq<Seq<char>> = Seq::empty();
    assert(chars@.skip(0) =~= chars@);
    assert(text_lines(chars@) =~= done + text_lines(chars@.skip(0)));
    while pos < chars.len()
        invariant
            pos <= chars@.len(),
            ranges_hold(chars@, ranges@, done),
            text_lines(chars@) == done + text_lines(chars@.skip(pos as int)),
        decreases chars@.len() - pos,
    {
        let ghost rest = chars@.skip(pos as int);
        let mut end: usize = pos;
        while end < chars.len() && chars[end] != '\n'
            invariant
                pos <= end <= chars@.len(),
                forall|j: int| pos <= j < end ==> chars@[j] != '\n',
            decreases chars@.len() - end,
        {
            end = end + 1;
        }
        let line_end: usize = if end < chars.len() && end > pos && chars[end - 1] == '\r' {
            end - 1
        } else {
            end
        };
        let ghost line = chars@.subrange(pos as int, line_end as int);
        proof {
            if end < chars@.len() {
                assert forall|j: int| 0 <= j < end - pos implies rest[j] != '\n' by {
                    assert(rest[j] == chars@[pos + j]);
                }
                assert(rest[end - pos] == chars@[end as int]);
                lemma_find_char_at(rest, '\n', end - pos);
                assert(rest.take(end - pos) =~= chars@.subrange(pos as int, end as int));
                assert(rest.skip(end - pos + 1) =~= chars@.skip(end + 1));
                assert(strip_carriage_return(chars@.subrange(pos as int, end as int)) =~= line);
                assert(text_lines(rest) == seq![line] + text_lines(chars@.skip(end + 1)));
            } else {
                assert forall|j: int| 0 <= j < rest.len() implies rest[j] != '\n' by {
                    assert(rest[j] == chars@[pos + j]);
                }
                lemma_find_char_none(rest, '\n');
                assert(rest =~= line);
                assert(text_lines(rest) == seq![line]);
                assert(chars@.skip(chars@.len() as int).len() == 0);
            }
        }
        ranges.push((pos, line_end));
        proof {
            done = done.push(line);
        }
        if end < chars.len() {
            pos = end + 1;
        } else {
            pos = chars.len();
        }
        proof {
            assert(text_lines(chars@) =~= done + text_lines(chars@.skip(pos as int)));
        }
    }
    proof {
        assert(chars@.skip(pos as int).len() == 0);
        assert(done + text_lines(chars@.skip(pos as int)) =~= done);
    }
    ranges
}

/// A line without the carriage return of a `\r\n` ending.
pub open spec fn strip_carriage_return(line: Seq<char>) -> Seq<char> {
    if line.len() > 0 && line.last() == '\r' {
        line.drop_last()
    } else {
        line
    }
}

/// The lines of a text as `str::lines` splits it: at each `\n`, dropping a `\r` just before
/// it; a final line needs no line ending, and a final line ending starts no empty line.
pub open spec fn text_lines(text: Seq<char>) -> Seq<Seq<char>>
    decreases text.len(),
{
    if text.len() == 0 {
        Seq::empty()
    } else {
        match find_char(text, '\n') {
            Some(i) => {
                proof {
                    lemma_find_char(text, '\n');
                }
                seq![strip_carriage_return(text.take(i))] + text_lines(text.skip(i + 1))
            },
            None => seq![text],
        }
    }
}

} // verus!
