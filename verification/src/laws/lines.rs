//! The lines of a text.

use vstd::prelude::*;

verus! {

/// In a text without the character the position is the end.
proof fn lemma_no_position(text: Seq<char>, c: char, from: int)
    requires
        0 <= from <= text.len(),
        forall|k: int| from <= k < text.len() ==> text[k] != c,
    ensures
        crate::text::position_from(text, c, from) == text.len(),
    decreases text.len() - from,
{
    if from < text.len() {
        lemma_no_position(text, c, from + 1);
    }
}

/// The position is that of the first such character.
pub proof fn lemma_position(text: Seq<char>, c: char, from: int, at: int)
    requires
        0 <= from <= at < text.len(),
        text[at] == c,
        forall|k: int| from <= k < at ==> text[k] != c,
    ensures
        crate::text::position_from(text, c, from) == at,
    decreases at - from,
{
    if from < at {
        lemma_position(text, c, from + 1, at);
    }
}

/// Up to the position there is no such character, and there it is.
proof fn lemma_position_is_first(text: Seq<char>, c: char, from: int)
    requires
        0 <= from <= text.len(),
    ensures
        ({
            let at = crate::text::position_from(text, c, from);
            &&& from <= at <= text.len()
            &&& at < text.len() ==> text[at] == c
            &&& forall|k: int| from <= k < at ==> text[k] != c
        }),
    decreases text.len() - from,
{
    if from < text.len() && text[from] != c {
        lemma_position_is_first(text, c, from + 1);
    }
}

/// The lines from a place on do not depend on what stands before it.
proof fn lemma_lines_from_shifted(start: Seq<char>, text: Seq<char>, from: int)
    requires
        0 <= from <= text.len(),
    ensures
        crate::text::lines_from(start + text, start.len() + from) == crate::text::lines_from(
            text,
            from,
        ),
    decreases text.len() - from,
{
    let whole = start + text;
    let n = start.len();
    if from < text.len() {
        lemma_position_is_first(text, '\n', from);
        let at = crate::text::position_from(text, '\n', from);
        if at == text.len() {
            lemma_no_position(whole, '\n', n + from);
            assert(whole.subrange(n + from, whole.len() as int) =~= text.subrange(
                from,
                text.len() as int,
            ));
        } else {
            lemma_position(whole, '\n', n + from, n + at);
            assert(whole.subrange(n + from, n + at) =~= text.subrange(from, at));
            if from < at {
                assert(whole.subrange(n + from, n + at - 1) =~= text.subrange(from, at - 1));
            }
            lemma_lines_from_shifted(start, text, at + 1);
        }
    }
}

proof fn lemma_lines_from_joined(a: Seq<char>, b: Seq<char>, from: int)
    requires
        0 <= from <= a.len() + 1,
    ensures
        crate::text::lines_from(a.push('\n') + b, from) == crate::text::lines_from(
            a.push('\n'),
            from,
        ) + crate::text::lines_from(b, 0),
    decreases a.len() + 1 - from,
{
    let head = a.push('\n');
    let whole = head + b;
    if from == head.len() {
        lemma_lines_from_shifted(head, b, 0);
        assert(crate::text::lines_from(head, from) =~= Seq::empty());
        assert(Seq::empty() + crate::text::lines_from(b, 0) =~= crate::text::lines_from(b, 0));
    } else {
        lemma_position_is_first(head, '\n', from);
        let at = crate::text::position_from(head, '\n', from);
        assert(at < head.len()) by {
            if at == head.len() {
                assert(head[a.len() as int] == '\n');
            }
        }
        assert(whole[at] == '\n');
        lemma_position(whole, '\n', from, at);
        assert(whole.subrange(from, at) =~= head.subrange(from, at));
        if from < at {
            assert(whole.subrange(from, at - 1) =~= head.subrange(from, at - 1));
        }
        lemma_lines_from_joined(a, b, at + 1);
        let first = seq![crate::text::line_before_newline(head, from, at)];
        assert(first + (crate::text::lines_from(head, at + 1) + crate::text::lines_from(b, 0))
            =~= (first + crate::text::lines_from(head, at + 1)) + crate::text::lines_from(b, 0));
    }
}

/// What stands behind a newline is split into lines by itself: the lines of two
/// texts that a newline parts are those of the one, and then those of the other.
pub proof fn law_a_newline_parts_the_lines(a: Seq<char>, b: Seq<char>)
    ensures
        crate::text::lines_of(a.push('\n') + b) == crate::text::lines_of(a.push('\n'))
            + crate::text::lines_of(b),
{
    lemma_lines_from_joined(a, b, 0);
}

/// A text without a newline is one line, unless it is empty. A line ending, `\n` or
/// `\r\n`, is not part of the line before it, and opens no line of its own.
pub proof fn law_a_line_is_itself(line: Seq<char>)
    requires
        !line.contains('\n'),
    ensures
        crate::text::lines_of(Seq::<char>::empty()).len() == 0,
        line.len() > 0 ==> crate::text::lines_of(line) == seq![line],
        line.len() == 0 || line.last() != '\r' ==> crate::text::lines_of(line.push('\n')) == seq![
            line,
        ],
        crate::text::lines_of(line.push('\r').push('\n')) == seq![line],
{
    assert forall|k: int| 0 <= k < line.len() implies line[k] != '\n' by {
        assert(line.contains(line[k]));
    }
    lemma_no_position(line, '\n', 0);
    assert(line.subrange(0, line.len() as int) =~= line);
    let ended = line.push('\n');
    assert(ended[line.len() as int] == '\n');
    lemma_position(ended, '\n', 0, line.len() as int);
    assert(ended.subrange(0, line.len() as int) =~= line);
    assert(crate::text::lines_from(ended, ended.len() as int) =~= Seq::empty());
    let both = line.push('\r').push('\n');
    let n: int = line.len() as int;
    assert(both[n + 1] == '\n');
    lemma_position(both, '\n', 0, n + 1);
    assert(both.subrange(0, line.len() as int) =~= line);
    assert(crate::text::lines_from(both, both.len() as int) =~= Seq::empty());
    assert(seq![line] + Seq::<Seq<char>>::empty() =~= seq![line]);
}

} // verus!
