use vstd::prelude::*;
use vstd::string::*;
use crate::split::{line_ranges, ranges_hold, split_ranges, split_text, text_lines, occurs_at, lemma_split_at_first};
use crate::text::{chars_of, push_range, trim_bounds, trimmed};
use crate::ui::{Ui, painted};

verus! {

/// The pieces of a text between backticks, every odd piece (a code span) in bold cyan.
pub open spec fn code_spans(colors: bool, pieces: Seq<Seq<char>>) -> Seq<char>
    decreases pieces.len(),
{
    if pieces.len() == 0 {
        Seq::empty()
    } else {
        code_spans(colors, pieces.drop_last()) + if (pieces.len() - 1) % 2 == 1 {
            painted(colors, "1;36"@, pieces.last())
        } else {
            pieces.last()
        }
    }
}

/// A text with its backtick code spans styled and the backticks removed.
pub open spec fn inline_code_text(colors: bool, text: Seq<char>) -> Seq<char> {
    code_spans(colors, split_text(text, seq!['`']))
}

/// The pieces of a hint between `**` markers, every odd piece (emphasis) in bold magenta and
/// the code spans of every other piece styled.
pub open spec fn emphasis_spans(colors: bool, pieces: Seq<Seq<char>>) -> Seq<char>
    decreases pieces.len(),
{
    if pieces.len() == 0 {
        Seq::empty()
    } else {
        emphasis_spans(colors, pieces.drop_last()) + if (pieces.len() - 1) % 2 == 1 {
            painted(colors, "1;35"@, pieces.last())
        } else {
            inline_code_text(colors, pieces.last())
        }
    }
}

/// A hint with its Markdown emphasis and code spans styled and their markers removed.
pub open spec fn styled_hint(colors: bool, hint: Seq<char>) -> Seq<char> {
    emphasis_spans(colors, split_text(hint, seq!['*', '*']))
}

/// Lines indented by two spaces and joined by line breaks.
pub open spec fn indented_lines(lines: Seq<Seq<char>>) -> Seq<char>
    decreases lines.len(),
{
    if lines.len() == 0 {
        Seq::empty()
    } else if lines.len() == 1 {
        "  "@ + lines[0]
    } else {
        indented_lines(lines.drop_last()) + "\n"@ + "  "@ + lines.last()
    }
}

/// A hint as the runner shows it: styled, trimmed, and with every line indented.
pub open spec fn rendered_hint(colors: bool, hint: Seq<char>) -> Seq<char> {
    indented_lines(text_lines(trimmed(styled_hint(colors, hint))))
}

/// Every piece at an odd position between `**` markers is emphasis and is styled as `accent`;
/// every piece at an even position keeps its text with only its code spans styled. This holds
/// for each emphasis span of a hint, not only the first.
pub proof fn lemma_every_emphasis_styled(colors: bool, pieces: Seq<Seq<char>>, k: int)
    requires
        0 <= k < pieces.len(),
    ensures
        k % 2 == 1 ==> emphasis_spans(colors, pieces.take(k + 1)) == emphasis_spans(colors, pieces.take(k))
            + painted(colors, "1;35"@, pieces[k]),
        k % 2 == 0 ==> emphasis_spans(colors, pieces.take(k + 1)) == emphasis_spans(colors, pieces.take(k))
            + inline_code_text(colors, pieces[k]),
{
    assert(pieces.take(k + 1).drop_last() =~= pieces.take(k));
    assert(pieces.take(k + 1).last() == pieces[k]);
}

/// A text in which `**` does not occur and which does not end in `*`, so that a `**` right
/// after it is the first marker.
pub open spec fn free_of_markers(text: Seq<char>) -> bool {
    forall|j: int| 0 <= j < text.len() && #[trigger] text[j] == '*' ==> j + 1 < text.len() && text[j + 1] != '*'
}

proof fn lemma_spans_after_two(colors: bool, a: Seq<char>, b: Seq<char>, rest: Seq<Seq<char>>)
    ensures
        emphasis_spans(colors, seq![a, b] + rest) == inline_code_text(colors, a) + painted(
            colors,
            "1;35"@,
            b,
        ) + emphasis_spans(colors, rest),
    decreases rest.len(),
{
    let all = seq![a, b] + rest;
    if rest.len() == 0 {
        assert(all =~= seq![a, b]);
        assert(seq![a, b].drop_last() =~= seq![a]);
        assert(seq![a].drop_last() =~= Seq::<Seq<char>>::empty());
        assert(seq![a, b].last() == b);
        assert(seq![a].last() == a);
        assert(emphasis_spans(colors, Seq::<Seq<char>>::empty()) == Seq::<char>::empty());
        assert(emphasis_spans(colors, seq![a]) =~= inline_code_text(colors, a));
        assert(emphasis_spans(colors, rest) == Seq::<char>::empty());
        assert(emphasis_spans(colors, seq![a, b]) =~= inline_code_text(colors, a) + painted(
            colors,
            "1;35"@,
            b,
        ));
    } else {
        lemma_spans_after_two(colors, a, b, rest.drop_last());
        assert(all.drop_last() =~= seq![a, b] + rest.drop_last());
        assert(all.last() == rest.last());
        assert((all.len() - 1) % 2 == (rest.len() - 1) % 2);
        assert(emphasis_spans(colors, all) =~= inline_code_text(colors, a) + painted(colors, "1;35"@, b)
            + emphasis_spans(colors, rest));
    }
}

/// Styling a hint goes span by span: a hint that starts with plain text, then a `**...**`
/// emphasis, then anything else, is styled as the plain text with its code spans styled, the
/// emphasis in the accent style without its markers, and the rest styled the same way on its
/// own. So every emphasis span of a hint is styled, however many there are.
pub proof fn lemma_emphasis_styled_span_by_span(
    colors: bool,
    plain: Seq<char>,
    emphasis: Seq<char>,
    rest: Seq<char>,
)
    requires
        free_of_markers(plain),
        free_of_markers(emphasis),
    ensures
        styled_hint(colors, plain + seq!['*', '*'] + emphasis + seq!['*', '*'] + rest) == inline_code_text(
            colors,
            plain,
        ) + painted(colors, "1;35"@, emphasis) + styled_hint(colors, rest),
{
    let marker = seq!['*', '*'];
    let tail = emphasis + marker + rest;
    let hint = plain + marker + emphasis + marker + rest;
    assert(hint =~= plain + marker + tail);
    assert forall|j: int| 0 <= j < plain.len() implies !occurs_at(plain + marker + tail, marker, j) by {
        let s = plain + marker + tail;
        if occurs_at(s, marker, j) {
            assert(s.subrange(j, j + 2)[0] == s[j]);
            assert(s.subrange(j, j + 2)[1] == s[j + 1]);
            assert(s[j] == plain[j]);
            if j + 1 < plain.len() {
                assert(s[j + 1] == plain[j + 1]);
            }
        }
    }
    lemma_split_at_first(plain, marker, tail);
    assert forall|j: int| 0 <= j < emphasis.len() implies !occurs_at(emphasis + marker + rest, marker, j) by {
        let s = emphasis + marker + rest;
        if occurs_at(s, marker, j) {
            assert(s.subrange(j, j + 2)[0] == s[j]);
            assert(s.subrange(j, j + 2)[1] == s[j + 1]);
            assert(s[j] == emphasis[j]);
            if j + 1 < emphasis.len() {
                assert(s[j + 1] == emphasis[j + 1]);
            }
        }
    }
    lemma_split_at_first(emphasis, marker, rest);
    assert(split_text(hint, marker) =~= seq![plain, emphasis] + split_text(rest, marker));
    lemma_spans_after_two(colors, plain, emphasis, split_text(rest, marker));
}

/// The text with each backtick code span styled as `info` and the backticks removed.
pub fn render_inline_code(ui: &Ui, text: &str) -> (rendered: String)
    ensures
        rendered@ == inline_code_text(ui.colors, text@),
{
    let chars = chars_of(text);
    let marker = ['`'];
    assert(marker@ =~= seq!['`']);
    let ranges = split_ranges(chars.as_slice(), marker.as_slice());
    let ghost pieces = split_text(chars@, seq!['`']);
    let mut rendered = String::new();
    let mut i: usize = 0;
    assert(pieces.take(0) =~= Seq::<Seq<char>>::empty());
    while i < ranges.len()
        invariant
            i <= ranges@.len(),
            chars@ == text@,
            pieces == split_text(chars@, seq!['`']),
            ranges_hold(chars@, ranges@, pieces),
            rendered@ == code_spans(ui.colors, pieces.take(i as int)),
        decreases ranges@.len() - i,
    {
        let (from, to) = ranges[i];
        let mut piece = String::new();
        push_range(&mut piece, chars.as_slice(), from, to);
        assert(piece@ =~= pieces[i as int]);
        if i % 2 == 1 {
            let styled = ui.info(piece.as_str());
            rendered.append(styled.as_str());
        } else {
            rendered.append(piece.as_str());
        }
        assert(pieces.take(i + 1).drop_last() =~= pieces.take(i as int));
        i = i + 1;
    }
    assert(pieces.take(i as int) =~= pieces);
    rendered
}

/// A hint as the runner shows it: `**emphasis**` styled as `accent`, code spans as `info`,
/// the markers removed, surrounding whitespace trimmed, and every line indented by two spaces.
pub fn render_hint(ui: &Ui, hint: &str) -> (rendered: String)
    ensures
        rendered@ == rendered_hint(ui.colors, hint@),
{
    let chars = chars_of(hint);
    let marker = ['*', '*'];
    assert(marker@ =~= seq!['*', '*']);
    let ranges = split_ranges(chars.as_slice(), marker.as_slice());
    let ghost pieces = split_text(chars@, seq!['*', '*']);
    let mut styled = String::new();
    let mut i: usize = 0;
    assert(pieces.take(0) =~= Seq::<Seq<char>>::empty());
    while i < ranges.len()
        invariant
            i <= ranges@.len(),
            chars@ == hint@,
            pieces == split_text(chars@, seq!['*', '*']),
            ranges_hold(chars@, ranges@, pieces),
            styled@ == emphasis_spans(ui.colors, pieces.take(i as int)),
        decreases ranges@.len() - i,
    {
        let (from, to) = ranges[i];
        let mut piece = String::new();
        push_range(&mut piece, chars.as_slice(), from, to);
        assert(piece@ =~= pieces[i as int]);
        if i % 2 == 1 {
            let emphasis = ui.accent(piece.as_str());
            styled.append(emphasis.as_str());
        } else {
            let plain = render_inline_code(ui, piece.as_str());
            styled.append(plain.as_str());
        }
        assert(pieces.take(i + 1).drop_last() =~= pieces.take(i as int));
        i = i + 1;
    }
    assert(pieces.take(i as int) =~= pieces);
    let styled_chars = chars_of(styled.as_str());
    let (start, end) = trim_bounds(styled_chars.as_slice(), 0, styled_chars.len());
    assert(styled_chars@.subrange(0, styled_chars@.len() as int) =~= styled_chars@);
    let mut trimmed_text = String::new();
    push_range(&mut trimmed_text, styled_chars.as_slice(), start, end);
    let body = chars_of(trimmed_text.as_str());
    let lines = line_ranges(body.as_slice());
    let ghost all_lines = text_lines(body@);
    let mut rendered = String::new();
    let mut k: usize = 0;
    assert(all_lines.take(0) =~= Seq::<Seq<char>>::empty());
    while k < lines.len()
        invariant
            k <= lines@.len(),
            all_lines == text_lines(body@),
            ranges_hold(body@, lines@, all_lines),
            rendered@ == indented_lines(all_lines.take(k as int)),
        decreases lines@.len() - k,
    {
        let (from, to) = lines[k];
        if k > 0 {
            rendered.append("\n");
        }
        rendered.append("  ");
        push_range(&mut rendered, body.as_slice(), from, to);
        proof {
            reveal_strlit("\n");
            reveal_strlit("  ");
            let shorter = all_lines.take(k + 1);
            assert(shorter.drop_last() =~= all_lines.take(k as int));
            assert(shorter.last() == all_lines[k as int]);
            assert(rendered@ =~= indented_lines(shorter));
        }
        k = k + 1;
    }
    assert(all_lines.take(k as int) =~= all_lines);
    rendered
}

} // verus!
