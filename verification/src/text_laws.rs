//! What holds of the functions on text, told by how the texts are put together.

use vstd::prelude::*;

use crate::text::{
    after_char, before_char, contains, decimal, feeds, find_from, join, left_aligned,
    lemma_find_from, line_count, occurs_at, right_aligned, signed_decimal, split, split_from,
    starts_with, trim, trim_end, trim_start, white_space,
};

verus! {

/// A text holds another where something may stand before it and something behind it.
pub proof fn law_holding_is_having_text_around(
    before: Seq<char>,
    pat: Seq<char>,
    behind: Seq<char>,
)
    ensures
        contains(before + pat + behind, pat),
        starts_with(pat + behind, pat),
{
    let s = before + pat + behind;
    assert(s.subrange(before.len() as int, (before.len() + pat.len()) as int) =~= pat);
    assert(occurs_at(s, pat, before.len() as int));
    assert((pat + behind).subrange(0, pat.len() as int) =~= pat);
}

/// What a text holds has something before it and something behind it there.
pub proof fn law_held_text_has_text_around(s: Seq<char>, pat: Seq<char>) -> (r: (
    Seq<char>,
    Seq<char>,
))
    requires
        contains(s, pat),
    ensures
        s == r.0 + pat + r.1,
        starts_with(s, pat) ==> exists|rest: Seq<char>| s == pat + rest,
{
    let i = choose|i: int| occurs_at(s, pat, i);
    let r = (s.take(i), s.skip(i + pat.len()));
    assert(s =~= s.take(i) + s.subrange(i, i + pat.len()) + s.skip(i + pat.len()));
    if starts_with(s, pat) {
        assert(s =~= s.subrange(0, pat.len() as int) + s.skip(pat.len() as int));
        assert(s == pat + s.skip(pat.len() as int));
    }
    r
}

proof fn lemma_no_separator_inside(s: Seq<char>, sep: Seq<char>, start: int, end: int)
    requires
        0 <= start <= end <= s.len(),
        sep.len() > 0,
        forall|k: int| start <= k && k + sep.len() <= end ==> !occurs_at(s, sep, k),
    ensures
        !contains(s.subrange(start, end), sep),
{
    let piece = s.subrange(start, end);
    if contains(piece, sep) {
        let i = choose|i: int| occurs_at(piece, sep, i);
        assert(s.subrange(start + i, start + i + sep.len()) =~= piece.subrange(
            i,
            i + sep.len(),
        ));
        assert(occurs_at(s, sep, start + i));
    }
}

proof fn lemma_pieces_lack_separator(s: Seq<char>, sep: Seq<char>, start: int, i: int)
    requires
        0 <= start <= s.len(),
        sep.len() > 0,
        0 <= i < split_from(s, sep, start).len(),
    ensures
        !contains(split_from(s, sep, start)[i], sep),
    decreases s.len() - start,
{
    lemma_find_from(s, sep, start);
    match find_from(s, sep, start) {
        Some(k) => {
            if i == 0 {
                lemma_no_separator_inside(s, sep, start, k);
            } else {
                lemma_pieces_lack_separator(s, sep, k + sep.len(), i - 1);
            }
        },
        None => {
            lemma_no_separator_inside(s, sep, start, s.len() as int);
            assert(s.skip(start) =~= s.subrange(start, s.len() as int));
        },
    }
}

/// No piece that a text is cut into holds the separator.
pub proof fn law_pieces_lack_the_separator(s: Seq<char>, sep: Seq<char>, i: int)
    requires
        sep.len() > 0,
        0 <= i < split(s, sep).len(),
    ensures
        !contains(split(s, sep)[i], sep),
{
    lemma_pieces_lack_separator(s, sep, 0, i);
}

/// A text without the separator is its only piece.
pub proof fn law_text_without_separator_is_one_piece(s: Seq<char>, sep: Seq<char>)
    requires
        sep.len() > 0,
        !contains(s, sep),
    ensures
        split(s, sep) == seq![s],
{
    lemma_find_from(s, sep, 0);
    assert(s.skip(0) =~= s);
}

/// Joining lists that stand one behind the other puts the separator between what each of them
/// gives, and a list of one text gives that text.
pub proof fn law_joining_lists(a: Seq<Seq<char>>, b: Seq<Seq<char>>, sep: Seq<char>)
    requires
        a.len() > 0,
        b.len() > 0,
    ensures
        a.len() == 1 ==> join(a, sep) == a[0],
        join(a + b, sep) == join(a, sep) + sep + join(b, sep),
    decreases a.len(),
{
    assert((a + b).drop_first() =~= a.drop_first() + b);
    if a.len() == 1 {
        assert(a.drop_first() + b =~= b);
    } else {
        law_joining_lists(a.drop_first(), b, sep);
        assert(a[0] + sep + (join(a.drop_first(), sep) + sep + join(b, sep)) =~= a[0] + sep + join(
            a.drop_first(),
            sep,
        ) + sep + join(b, sep));
    }
}

/// Cutting at a character splits the text there: nothing before the cut is that character, and
/// the parts with the character between them are the text. Without the character there is no cut.
pub proof fn law_cut_is_at_the_first(s: Seq<char>, c: char)
    ensures
        match after_char(s, c) {
            Some(rest) => s == before_char(s, c).push(c) + rest && !before_char(s, c).contains(c),
            None => before_char(s, c) == s && !s.contains(c),
        },
{
    lemma_find_from(s, seq![c], 0);
    match find_from(s, seq![c], 0) {
        Some(i) => {
            assert(s.subrange(i, i + 1)[0] == c);
            assert(s =~= s.take(i).push(c) + s.skip(i + 1));
            assert forall|k: int| 0 <= k < i implies s.take(i)[k] != c by {
                if s[k] == c {
                    assert(s.subrange(k, k + 1) =~= seq![c]);
                    assert(occurs_at(s, seq![c], k));
                }
            }
        },
        None => {
            assert forall|k: int| 0 <= k < s.len() implies s[k] != c by {
                if s[k] == c {
                    assert(s.subrange(k, k + 1) =~= seq![c]);
                    assert(occurs_at(s, seq![c], k));
                }
            }
        },
    }
}

proof fn lemma_trim_start(s: Seq<char>) -> (r: Seq<char>)
    ensures
        s == r + trim_start(s),
        forall|i: int| 0 <= i < r.len() ==> white_space(#[trigger] r[i]),
        trim_start(s).len() > 0 ==> !white_space(trim_start(s)[0]),
    decreases s.len(),
{
    if s.len() > 0 && white_space(s[0]) {
        let rest = lemma_trim_start(s.skip(1));
        let r = seq![s[0]] + rest;
        assert(s =~= seq![s[0]] + s.skip(1));
        assert(seq![s[0]] + (rest + trim_start(s.skip(1))) =~= r + trim_start(s));
        r
    } else {
        assert(s =~= Seq::<char>::empty() + s);
        Seq::empty()
    }
}

proof fn lemma_trim_end(s: Seq<char>) -> (r: Seq<char>)
    ensures
        s == trim_end(s) + r,
        forall|i: int| 0 <= i < r.len() ==> white_space(#[trigger] r[i]),
        trim_end(s).len() > 0 ==> !white_space(trim_end(s).last()),
    decreases s.len(),
{
    if s.len() > 0 && white_space(s.last()) {
        let rest = lemma_trim_end(s.drop_last());
        let r = rest.push(s.last());
        assert(s =~= s.drop_last().push(s.last()));
        assert((trim_end(s.drop_last()) + rest).push(s.last()) =~= trim_end(s) + r);
        r
    } else {
        assert(s =~= s + Seq::<char>::empty());
        Seq::empty()
    }
}

/// Trimming takes white space off both ends and nothing else, and leaves none there.
pub proof fn law_trimming_takes_white_space_off_the_ends(s: Seq<char>) -> (r: (
    Seq<char>,
    Seq<char>,
    Seq<char>,
))
    ensures
        s == r.0 + trim(s) + r.1,
        s == trim_end(s) + r.2,
        forall|i: int| 0 <= i < r.0.len() ==> white_space(#[trigger] r.0[i]),
        forall|i: int| 0 <= i < r.1.len() ==> white_space(#[trigger] r.1[i]),
        forall|i: int| 0 <= i < r.2.len() ==> white_space(#[trigger] r.2[i]),
        trim(s).len() > 0 ==> !white_space(trim(s)[0]) && !white_space(trim(s).last()),
        trim_end(s).len() > 0 ==> !white_space(trim_end(s).last()),
{
    let front = lemma_trim_start(s);
    let back = lemma_trim_end(trim_start(s));
    assert(s =~= front + trim(s) + back);
    if trim(s).len() > 0 {
        assert(trim(s)[0] == trim_start(s)[0]);
    }
    let whole = lemma_trim_end(s);
    (front, back, whole)
}

/// White space: the control characters for tabs and ends of lines, the blank and the no-break
/// blank, the end of a line of Latin-1, and the blanks and separators of typography.
pub proof fn law_which_characters_are_white_space(c: char)
    ensures
        white_space(c) <==> c == '\t' || c == '\n' || c == '\u{b}' || c == '\u{c}' || c == '\r' || c
            == ' ' || c == '\u{85}' || c == '\u{a0}' || c == '\u{1680}' || ('\u{2000}' <= c
            <= '\u{200a}') || c == '\u{2028}' || c == '\u{2029}' || c == '\u{202f}' || c
            == '\u{205f}' || c == '\u{3000}',
{
}

/// A text in a column that is wide enough keeps all its characters at one side, and blanks are at
/// the other; in one that is too narrow its first characters stand.
pub proof fn law_column_keeps_the_text(s: Seq<char>, width: nat, i: int)
    requires
        0 <= i < width,
    ensures
        left_aligned(s, width).len() == width,
        right_aligned(s, width).len() == width,
        left_aligned(s, width)[i] == if i < s.len() {
            s[i]
        } else {
            ' '
        },
        right_aligned(s, width)[i] == if width <= s.len() {
            s[i]
        } else if i < width - s.len() {
            ' '
        } else {
            s[i - (width - s.len())]
        },
{
}

/// The number that a row of decimal digits stands for.
pub open spec fn value_of(s: Seq<char>) -> int
    decreases s.len(),
{
    if s.len() == 0 {
        0
    } else {
        10 * value_of(s.drop_last()) + (s.last() as int - '0' as int)
    }
}

/// A number written in decimal reads as that number, in digits alone and without a zero in front.
pub proof fn law_decimal_reads_as_the_number(n: nat)
    ensures
        value_of(decimal(n)) == n,
        decimal(n).len() > 0,
        forall|i: int| 0 <= i < decimal(n).len() ==> '0' <= #[trigger] decimal(n)[i] <= '9',
        n > 0 ==> decimal(n)[0] != '0',
    decreases n,
{
    reveal_with_fuel(value_of, 2);
    if n < 10 {
        assert(decimal(n).drop_last() =~= Seq::empty());
    } else {
        law_decimal_reads_as_the_number(n / 10);
        assert(decimal(n).drop_last() =~= decimal(n / 10));
    }
}

/// A negative number is written with a minus sign in front of what it is below zero.
pub proof fn law_signed_decimal(n: nat)
    ensures
        signed_decimal(n as int) == decimal(n),
        n > 0 ==> signed_decimal(-(n as int)) == seq!['-'] + decimal(n),
{
}

proof fn lemma_feeds_of_sum(a: Seq<char>, b: Seq<char>)
    ensures
        feeds(a + b) == feeds(a) + feeds(b),
    decreases b.len(),
{
    if b.len() == 0 {
        assert(a + b =~= a);
    } else {
        lemma_feeds_of_sum(a, b.drop_last());
        assert((a + b).drop_last() =~= a + b.drop_last());
    }
}

proof fn lemma_no_feeds(a: Seq<char>)
    requires
        !a.contains('\n'),
    ensures
        feeds(a) == 0,
    decreases a.len(),
{
    if a.len() > 0 {
        assert(a.contains(a.last()));
        assert forall|i: int| 0 <= i < a.len() - 1 implies a.drop_last()[i] != '\n' by {
            assert(a.contains(a[i]));
        }
        lemma_no_feeds(a.drop_last());
    }
}

/// A line with its end is one line more than what follows; a last line without an end counts
/// where it is not empty.
pub proof fn law_lines_are_counted(line: Seq<char>, rest: Seq<char>)
    requires
        !line.contains('\n'),
    ensures
        line_count(line.push('\n') + rest) == 1 + line_count(rest),
        line_count(line) == if line.len() == 0 {
            0int
        } else {
            1
        },
{
    lemma_no_feeds(line);
    lemma_feeds_of_sum(line.push('\n'), rest);
    assert(line.push('\n').drop_last() =~= line);
    assert(feeds(line.push('\n')) == 1);
    if line.len() > 0 {
        assert(line.contains(line.last()));
    }
    if rest.len() > 0 {
        assert((line.push('\n') + rest).last() == rest.last());
    }
}

} // verus!
