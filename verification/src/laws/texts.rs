//! Small operations on text.

use vstd::prelude::*;

verus! {

/// In lowercase an ASCII text is as long as before: `A` to `Z` are the letter that
/// stands 32 places behind, and every other character is itself. Any other text is
/// what the standard library makes of it.
pub proof fn law_lowercase(text: Seq<char>)
    ensures
        vstd::utf8::is_ascii_chars(text) ==> {
            &&& crate::text::lower_of(text).len() == text.len()
            &&& forall|i: int|
                0 <= i < text.len() ==> (#[trigger] crate::text::lower_of(text)[i]) as int == (
                if 'A' <= text[i] && text[i] <= 'Z' {
                    text[i] as int + 32
                } else {
                    text[i] as int
                })
        },
        !vstd::utf8::is_ascii_chars(text) ==> crate::text::lower_of(text)
            == crate::text::lowercase_of(text),
{
}

/// The white-space characters.
pub proof fn law_white_space(c: char)
    ensures
        crate::text::white_space(c) <==> seq![
            '\t',
            '\n',
            '\u{b}',
            '\u{c}',
            '\r',
            ' ',
            '\u{85}',
            '\u{a0}',
            '\u{1680}',
            '\u{2000}',
            '\u{2001}',
            '\u{2002}',
            '\u{2003}',
            '\u{2004}',
            '\u{2005}',
            '\u{2006}',
            '\u{2007}',
            '\u{2008}',
            '\u{2009}',
            '\u{200a}',
            '\u{2028}',
            '\u{2029}',
            '\u{202f}',
            '\u{205f}',
            '\u{3000}',
        ].contains(c),
{
    let all = seq![
        '\t',
        '\n',
        '\u{b}',
        '\u{c}',
        '\r',
        ' ',
        '\u{85}',
        '\u{a0}',
        '\u{1680}',
        '\u{2000}',
        '\u{2001}',
        '\u{2002}',
        '\u{2003}',
        '\u{2004}',
        '\u{2005}',
        '\u{2006}',
        '\u{2007}',
        '\u{2008}',
        '\u{2009}',
        '\u{200a}',
        '\u{2028}',
        '\u{2029}',
        '\u{202f}',
        '\u{205f}',
        '\u{3000}',
    ];
    if crate::text::white_space(c) {
        let k: int = if c <= '\r' {
            c as int - 9
        } else if c == ' ' {
            5
        } else if c == '\u{85}' {
            6
        } else if c == '\u{a0}' {
            7
        } else if c == '\u{1680}' {
            8
        } else if c <= '\u{200a}' {
            c as int - 0x2000 + 9
        } else if c <= '\u{2029}' {
            c as int - 0x2028 + 20
        } else if c == '\u{202f}' {
            22
        } else if c == '\u{205f}' {
            23
        } else {
            24
        };
        assert(all[k] == c);
    }
}

proof fn lemma_trimmed_start(blank: Seq<char>, rest: Seq<char>)
    requires
        forall|i: int| 0 <= i < blank.len() ==> crate::text::white_space(#[trigger] blank[i]),
        rest.len() > 0 ==> !crate::text::white_space(rest[0]),
    ensures
        crate::text::trimmed_start(blank + rest) == rest,
    decreases blank.len(),
{
    if blank.len() > 0 {
        assert((blank + rest)[0] == blank[0]);
        assert((blank + rest).drop_first() =~= blank.drop_first() + rest);
        lemma_trimmed_start(blank.drop_first(), rest);
    } else {
        assert(blank + rest =~= rest);
    }
}

proof fn lemma_trimmed_end(rest: Seq<char>, blank: Seq<char>)
    requires
        forall|i: int| 0 <= i < blank.len() ==> crate::text::white_space(#[trigger] blank[i]),
        rest.len() > 0 ==> !crate::text::white_space(rest.last()),
    ensures
        crate::text::trimmed_end(rest + blank) == rest,
    decreases blank.len(),
{
    if blank.len() > 0 {
        assert((rest + blank).last() == blank.last());
        assert(blank.last() == blank[blank.len() - 1]);
        assert((rest + blank).drop_last() =~= rest + blank.drop_last());
        lemma_trimmed_end(rest, blank.drop_last());
    } else {
        assert(rest + blank =~= rest);
    }
}

/// Trimming takes away the white space at either end and nothing else: what it
/// leaves neither begins nor ends with white space, and white space put before and
/// behind it is taken away again.
pub proof fn law_trimmed(before: Seq<char>, text: Seq<char>, behind: Seq<char>)
    requires
        forall|i: int| 0 <= i < before.len() ==> crate::text::white_space(#[trigger] before[i]),
        forall|i: int| 0 <= i < behind.len() ==> crate::text::white_space(#[trigger] behind[i]),
        text.len() > 0 ==> !crate::text::white_space(text[0]) && !crate::text::white_space(
            text.last(),
        ),
    ensures
        crate::text::trimmed(before + text + behind) == text,
{
    if text.len() > 0 {
        assert(before + text + behind =~= before + (text + behind));
        assert((text + behind)[0] == text[0]);
        lemma_trimmed_start(before, text + behind);
        lemma_trimmed_end(text, behind);
    } else {
        let blank = before + behind;
        assert(before + text + behind =~= blank + text);
        lemma_trimmed_start(blank, text);
    }
}

/// Taking a character away at the start of a text takes away all of it that stands
/// there, and nothing behind it.
pub proof fn law_without_leading(c: char, n: nat, rest: Seq<char>)
    requires
        rest.len() > 0 ==> rest[0] != c,
    ensures
        crate::text::without_leading(Seq::new(n, |i: int| c) + rest, c) == rest,
    decreases n,
{
    let some = Seq::new(n, |i: int| c);
    if n > 0 {
        let fewer = Seq::new((n - 1) as nat, |i: int| c);
        assert((some + rest)[0] == c);
        assert((some + rest).drop_first() =~= fewer + rest);
        law_without_leading(c, (n - 1) as nat, rest);
    } else {
        assert(some + rest =~= rest);
    }
}

/// A number in decimal is made of digits, is the number when it is read, and has no
/// zero before it.
pub proof fn law_decimal(n: nat)
    ensures
        ({
            let digits = crate::text::decimal_of(n);
            &&& digits.len() > 0
            &&& forall|i: int| 0 <= i < digits.len() ==> '0' <= (#[trigger] digits[i]) <= '9'
            &&& digits.fold_left(0int, |v: int, c: char| 10 * v + (c as int - '0' as int)) == n
            &&& digits.len() > 1 ==> digits[0] != '0'
        }),
    decreases n,
{
    let digits = crate::text::decimal_of(n);
    let read = |v: int, c: char| 10 * v + (c as int - '0' as int);
    if n < 10 {
        assert(digits.drop_last() =~= Seq::<char>::empty());
        reveal_with_fuel(Seq::fold_left, 2);
        assert(digits.last() as int == n + 48);
    } else {
        law_decimal(n / 10);
        let before = crate::text::decimal_of(n / 10);
        assert(digits.drop_last() =~= before);
        assert(digits.last() as int == n % 10 + 48);
        assert(read(before.fold_left(0int, read), digits.last()) == digits.fold_left(0int, read));
        if before.len() == 1 {
            assert(before =~= seq![before[0]]);
            assert(before[0] != '0') by {
                if before[0] == '0' {
                    reveal_with_fuel(Seq::fold_left, 2);
                    assert(before.drop_last() =~= Seq::<char>::empty());
                    assert(before.fold_left(0int, read) == 0);
                }
            }
        }
        assert(digits[0] == before[0]);
    }
}

/// A text that is aligned stands in a field of the width, or as it is where it does
/// not fit: at the right end or at the left, with nothing but spaces beside it.
pub proof fn law_aligned(text: Seq<char>, width: nat)
    ensures
        ({
            let right = crate::text::right_aligned(text, width);
            let left = crate::text::left_aligned(text, width);
            let size: int = if text.len() < width {
                width as int
            } else {
                text.len() as int
            };
            &&& right.len() == size
            &&& left.len() == size
            &&& right.subrange(size - text.len(), size) == text
            &&& left.subrange(0, text.len() as int) == text
            &&& forall|i: int| 0 <= i < size - text.len() ==> (#[trigger] right[i]) == ' '
            &&& forall|i: int| text.len() <= i < size ==> (#[trigger] left[i]) == ' '
        }),
{
    let size: int = if text.len() < width {
        width as int
    } else {
        text.len() as int
    };
    assert(crate::text::right_aligned(text, width).subrange(size - text.len(), size) =~= text);
    assert(crate::text::left_aligned(text, width).subrange(0, text.len() as int) =~= text);
}

/// A text that is cut keeps its first characters, as many as it may have, and gets an
/// ellipsis behind them; a text that has no more stays as it is.
pub proof fn law_truncated(text: Seq<char>, more: Seq<char>)
    requires
        more.len() > 0,
    ensures
        crate::text::truncated(text, text.len()) == text,
        crate::text::truncated(text + more, text.len()) == text.push('\u{2026}'),
        forall|max: nat| text.len() <= max ==> #[trigger] crate::text::truncated(text, max) == text,
{
    assert((text + more).take(text.len() as int) =~= text);
}

} // verus!
