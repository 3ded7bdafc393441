//! What holds of every text.

use vstd::prelude::*;
use crate::order::{ascending, before};
use crate::text::{
    after_last, before_first, contains, decimal, digit, ends_with, join, lower, lower_char,
    occurs_at, padded, position, signed_decimal, trim, trim_end, trim_start, white_space,
    without_suffix, without_trailing_slashes,
};

verus! {

/// Blanks, tabs and line ends are white space, and nothing that can be seen in ASCII is.
pub proof fn white_space_cannot_be_seen(c: char)
    ensures
        c == ' ' || c == '\t' || c == '\n' || c == '\r' ==> white_space(c),
        '!' <= c <= '~' ==> !white_space(c),
{
}

proof fn lemma_trim_start(s: Seq<char>) -> (from: int)
    ensures
        0 <= from <= s.len(),
        trim_start(s) == s.skip(from),
        forall|i: int| 0 <= i < from ==> white_space(#[trigger] s[i]),
        from < s.len() ==> !white_space(s[from]),
    decreases s.len(),
{
    if s.len() > 0 && white_space(s[0]) {
        let rest = s.drop_first();
        let from = lemma_trim_start(rest);
        assert(rest.skip(from) =~= s.skip(from + 1));
        assert forall|i: int| 0 <= i < from + 1 implies white_space(#[trigger] s[i]) by {
            if i > 0 {
                assert(rest[i - 1] == s[i]);
            }
        }
        if from < rest.len() {
            assert(rest[from] == s[from + 1]);
        }
        from + 1
    } else {
        assert(s.skip(0) =~= s);
        0
    }
}

proof fn lemma_trim_end(s: Seq<char>) -> (to: int)
    ensures
        0 <= to <= s.len(),
        trim_end(s) == s.take(to),
        forall|i: int| to <= i < s.len() ==> white_space(#[trigger] s[i]),
        to > 0 ==> !white_space(s[to - 1]),
    decreases s.len(),
{
    if s.len() > 0 && white_space(s.last()) {
        let rest = s.drop_last();
        let to = lemma_trim_end(rest);
        assert(rest.take(to) =~= s.take(to));
        assert forall|i: int| to <= i < s.len() implies white_space(#[trigger] s[i]) by {
            if i < rest.len() {
                assert(rest[i] == s[i]);
            }
        }
        to
    } else {
        assert(s.take(s.len() as int) =~= s);
        s.len() as int
    }
}

/// Trimming takes away white space at both ends and nothing else: what is left is the
/// text between two positions, before and behind which there is only white space, and
/// it neither starts nor ends with any.
pub proof fn trimming_takes_white_space_from_the_ends(s: Seq<char>) -> (ends: (int, int))
    ensures
        0 <= ends.0 <= ends.1 <= s.len(),
        trim(s) == s.subrange(ends.0, ends.1),
        forall|i: int|
            0 <= i < ends.0 || ends.1 <= i < s.len() ==> white_space(#[trigger] s[i]),
        ends.0 < ends.1 ==> !white_space(s[ends.0]) && !white_space(s[ends.1 - 1]),
{
    let from = lemma_trim_start(s);
    let rest = s.skip(from);
    let to = lemma_trim_end(rest);
    assert(rest.take(to) =~= s.subrange(from, from + to));
    assert forall|i: int| 0 <= i < from || from + to <= i < s.len() implies white_space(
        #[trigger] s[i],
    ) by {
        if i >= from {
            assert(rest[i - from] == s[i]);
        }
    }
    if to > 0 {
        assert(rest[to - 1] == s[from + to - 1]);
        assert(rest[0] == s[from]);
    }
    (from, from + to)
}

/// A text is blank exactly where there is nothing but white space in it.
pub proof fn a_blank_text_holds_nothing(s: Seq<char>)
    ensures
        trim(s).len() == 0 <==> (forall|i: int| 0 <= i < s.len() ==> white_space(#[trigger] s[i])),
{
    let (from, to) = trimming_takes_white_space_from_the_ends(s);
    if from < to {
        assert(!white_space(s[from]));
    }
}

/// Slashes at the end are dropped, all of them, and nothing else is.
pub proof fn only_slashes_at_the_end_are_dropped(s: Seq<char>)
    ensures
        ({
            let kept = without_trailing_slashes(s);
            &&& kept.len() <= s.len()
            &&& kept == s.take(kept.len() as int)
            &&& forall|i: int| kept.len() <= i < s.len() ==> #[trigger] s[i] == '/'
            &&& kept.len() > 0 ==> kept.last() != '/'
        }),
    decreases s.len(),
{
    let kept = without_trailing_slashes(s);
    if s.len() > 0 && s.last() == '/' {
        let rest = s.drop_last();
        only_slashes_at_the_end_are_dropped(rest);
        assert(rest.take(kept.len() as int) =~= s.take(kept.len() as int));
        assert forall|i: int| kept.len() <= i < s.len() implies #[trigger] s[i] == '/' by {
            if i < rest.len() {
                assert(rest[i] == s[i]);
            }
        }
    } else {
        assert(s.take(s.len() as int) =~= s);
    }
}

/// A suffix is dropped where it stands, and the text is left alone where it does not.
pub proof fn only_the_suffix_is_dropped(front: Seq<char>, s: Seq<char>, suffix: Seq<char>)
    ensures
        without_suffix(front + suffix, suffix) == front,
        (forall|other: Seq<char>| #[trigger] (other + suffix) != s) ==> without_suffix(s, suffix)
            == s,
{
    let whole = front + suffix;
    assert(whole.subrange(whole.len() - suffix.len(), whole.len() as int) =~= suffix);
    assert(whole.take(whole.len() - suffix.len()) =~= front);
    if ends_with(s, suffix) {
        let at = s.len() - suffix.len();
        assert(s.take(at) + suffix =~= s);
    }
}

/// Making letters small changes capital letters of ASCII to the letter that stands as
/// far in the alphabet, and no other character.
pub proof fn only_capital_letters_are_made_small(s: Seq<char>, i: int)
    requires
        0 <= i < s.len(),
    ensures
        lower(s).len() == s.len(),
        !('A' <= s[i] <= 'Z') ==> lower(s)[i] == s[i],
        'A' <= s[i] <= 'Z' ==> 'a' <= lower(s)[i] <= 'z' && lower(s)[i] as int - 'a' as int
            == s[i] as int - 'A' as int,
{
    assert(lower(s)[i] == lower_char(s[i]));
}

/// The number that a run of decimal digits tells.
pub open spec fn number_told(digits: Seq<char>) -> int
    decreases digits.len(),
{
    if digits.len() == 0 {
        0
    } else {
        10 * number_told(digits.drop_last()) + (digits.last() as int - '0' as int)
    }
}

/// A number in decimal is made of digits, tells the number, and starts with no zero
/// but that of zero itself.
pub proof fn a_decimal_tells_its_number(n: nat)
    ensures
        decimal(n).len() > 0,
        forall|i: int| 0 <= i < decimal(n).len() ==> '0' <= #[trigger] decimal(n)[i] <= '9',
        number_told(decimal(n)) == n,
        n > 0 ==> decimal(n)[0] != '0',
    decreases n,
{
    let digits = decimal(n);
    if n < 10 {
        assert(digits.drop_last() =~= Seq::<char>::empty());
        assert(number_told(digits.drop_last()) == 0);
        assert(digit(n) as int == 48 + n);
    } else {
        a_decimal_tells_its_number(n / 10);
        assert(digits.drop_last() =~= decimal(n / 10));
        assert(digit(n % 10) as int == 48 + n % 10);
        assert(digits[0] == decimal(n / 10)[0]);
    }
}

/// A negative number is its opposite behind a minus sign.
pub proof fn a_minus_sign_turns_a_number_around(n: int)
    ensures
        n >= 0 ==> signed_decimal(n) == decimal(n as nat),
        n < 0 ==> signed_decimal(n).len() > 0 && signed_decimal(n)[0] == '-' && signed_decimal(
            n,
        ).drop_first() == decimal((-n) as nat),
{
    if n < 0 {
        assert(signed_decimal(n).drop_first() =~= decimal((-n) as nat));
    }
}

/// Joining puts the separator between each two pieces and nowhere else: nothing is made
/// of nothing, one piece is left alone, and two lists are joined as their joins are.
pub proof fn joining_separates_each_two(
    first: Seq<Seq<char>>,
    second: Seq<Seq<char>>,
    piece: Seq<char>,
    sep: Seq<char>,
)
    ensures
        join(Seq::empty(), sep) == Seq::<char>::empty(),
        join(seq![piece], sep) == piece,
        first.len() > 0 && second.len() > 0 ==> join(first + second, sep) == join(first, sep) + sep
            + join(second, sep),
    decreases second.len(),
{
    if first.len() > 0 && second.len() > 0 {
        let all = first + second;
        assert(all.last() == second.last());
        if second.len() == 1 {
            assert(all.drop_last() =~= first);
        } else {
            assert(all.drop_last() =~= first + second.drop_last());
            joining_separates_each_two(first, second.drop_last(), piece, sep);
            assert(join(first, sep) + sep + join(second.drop_last(), sep) + sep + second.last()
                =~= join(first, sep) + sep + (join(second.drop_last(), sep) + sep
                + second.last()));
        }
    }
}

/// Padding keeps the text and adds blanks behind it up to the width.
pub proof fn padding_adds_blanks(s: Seq<char>, width: nat)
    ensures
        padded(s, width).len() == if s.len() >= width {
            s.len()
        } else {
            width
        },
        padded(s, width).take(s.len() as int) == s,
        forall|i: int| s.len() <= i < padded(s, width).len() ==> #[trigger] padded(s, width)[i] == ' ',
{
    assert(padded(s, width).take(s.len() as int) =~= s);
}

/// What stands after the last of a character does not hold it, and the character stands
/// right before it, where it stands anywhere.
pub proof fn nothing_follows_the_last(s: Seq<char>, c: char)
    ensures
        ({
            let tail = after_last(s, c);
            let at = s.len() - tail.len();
            &&& 0 <= at <= s.len()
            &&& tail == s.skip(at)
            &&& forall|i: int| at <= i < s.len() ==> #[trigger] s[i] != c
            &&& at > 0 ==> s[at - 1] == c
        }),
    decreases s.len(),
{
    let tail = after_last(s, c);
    if s.len() > 0 && s.last() != c {
        let rest = s.drop_last();
        nothing_follows_the_last(rest, c);
        let at = s.len() - tail.len();
        assert(rest.skip(at).push(s.last()) =~= s.skip(at));
        assert forall|i: int| at <= i < s.len() implies #[trigger] s[i] != c by {
            if i < rest.len() {
                assert(rest[i] == s[i]);
            }
        }
    } else {
        assert(s.skip(s.len() as int) =~= Seq::<char>::empty());
    }
}

/// What stands before the first of a character does not hold it, and the character
/// stands right behind it, where it stands anywhere.
pub proof fn nothing_precedes_the_first(s: Seq<char>, c: char)
    ensures
        ({
            let head = before_first(s, c);
            &&& head.len() <= s.len()
            &&& head == s.take(head.len() as int)
            &&& forall|i: int| 0 <= i < head.len() ==> #[trigger] s[i] != c
            &&& head.len() < s.len() ==> s[head.len() as int] == c
        }),
    decreases s.len(),
{
    let head = before_first(s, c);
    if s.len() > 0 && s[0] != c {
        let rest = s.drop_first();
        nothing_precedes_the_first(rest, c);
        assert(seq![s[0]] + rest.take(head.len() - 1) =~= s.take(head.len() as int));
        assert forall|i: int| 0 <= i < head.len() implies #[trigger] s[i] != c by {
            if i > 0 {
                assert(rest[i - 1] == s[i]);
            }
        }
        if head.len() < s.len() {
            assert(rest[head.len() - 1] == s[head.len() as int]);
        }
    } else {
        assert(s.take(0) =~= Seq::<char>::empty());
    }
}

/// The text has the characters of the piece, one by one, from `i` on.
pub open spec fn stands_at(s: Seq<char>, piece: Seq<char>, i: int) -> bool {
    &&& 0 <= i <= s.len() - piece.len()
    &&& forall|k: int| 0 <= k < piece.len() ==> s[i + k] == #[trigger] piece[k]
}

proof fn lemma_stands_at(s: Seq<char>, piece: Seq<char>, i: int)
    ensures
        stands_at(s, piece, i) <==> occurs_at(s, piece, i),
{
    if stands_at(s, piece, i) {
        assert(s.subrange(i, i + piece.len()) =~= piece);
    }
    if occurs_at(s, piece, i) {
        assert forall|k: int| 0 <= k < piece.len() implies s[i + k] == #[trigger] piece[k] by {
            assert(s.subrange(i, i + piece.len())[k] == s[i + k]);
        }
    }
}

/// A piece is found where it stands in a text, at the first such place, and nowhere
/// where it does not stand in it.
pub proof fn a_piece_is_found_where_it_stands(s: Seq<char>, piece: Seq<char>)
    ensures
        contains(s, piece) <==> exists|i: int| stands_at(s, piece, i),
        position(s, piece) is Some <==> exists|i: int| stands_at(s, piece, i),
        position(s, piece) matches Some(i) ==> stands_at(s, piece, i) && forall|j: int|
            0 <= j < i ==> !stands_at(s, piece, j),
{
    assert forall|i: int| #[trigger] stands_at(s, piece, i) <==> occurs_at(s, piece, i) by {
        lemma_stands_at(s, piece, i);
    }
    if contains(s, piece) {
        let k = choose|k: int| occurs_at(s, piece, k);
        lemma_stands_at(s, piece, k);
        crate::text::lemma_position(s, piece, k);
        let i = position(s, piece)->0;
        lemma_stands_at(s, piece, i);
        assert forall|j: int| 0 <= j < i implies !stands_at(s, piece, j) by {
            lemma_stands_at(s, piece, j);
        }
    } else if exists|i: int| stands_at(s, piece, i) {
        let i = choose|i: int| stands_at(s, piece, i);
        assert(occurs_at(s, piece, i));
    }
}

/// Texts are ordered by the first character in which they differ; a text comes before
/// whatever it begins.
pub proof fn the_first_difference_decides(
    same: Seq<char>,
    one: char,
    rest: Seq<char>,
    other: char,
    more: Seq<char>,
)
    requires
        one < other,
    ensures
        before(same + seq![one] + rest, same + seq![other] + more),
        !before(same + seq![other] + more, same + seq![one] + rest),
        before(same, same + seq![one] + rest),
        !before(same + seq![one] + rest, same),
    decreases same.len(),
{
    let a = same + seq![one] + rest;
    let b = same + seq![other] + more;
    if same.len() > 0 {
        let shorter = same.drop_first();
        the_first_difference_decides(shorter, one, rest, other, more);
        assert(a.drop_first() =~= shorter + seq![one] + rest);
        assert(b.drop_first() =~= shorter + seq![other] + more);
        assert(a[0] == same[0] && b[0] == same[0]);
    } else {
        assert(a[0] == one && b[0] == other);
    }
}

/// An ascending list names nothing twice.
pub proof fn an_ascending_list_names_nothing_twice(list: Seq<Seq<char>>, i: int, j: int)
    requires
        ascending(list),
        0 <= i < j < list.len(),
    ensures
        before(list[i], list[j]),
        list[i] != list[j],
{
    crate::order::lemma_irreflexive(list[i]);
}

/// White space is these characters and no others: the controls from the tab to the
/// carriage return, the blank, and the line ends and spaces of other scripts.
pub proof fn white_space_is_these_characters(c: char)
    ensures
        white_space(c) <==> (c == '\u{9}' || c == '\u{a}' || c == '\u{b}' || c == '\u{c}'
            || c == '\u{d}' || c == '\u{20}' || c == '\u{85}' || c == '\u{a0}'
            || c == '\u{1680}' || c == '\u{2000}' || c == '\u{2001}' || c == '\u{2002}'
            || c == '\u{2003}' || c == '\u{2004}' || c == '\u{2005}' || c == '\u{2006}'
            || c == '\u{2007}' || c == '\u{2008}' || c == '\u{2009}' || c == '\u{200a}'
            || c == '\u{2028}' || c == '\u{2029}' || c == '\u{202f}' || c == '\u{205f}'
            || c == '\u{3000}'),
{
}

} // verus!
