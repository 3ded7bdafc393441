//! Text as a sequence of characters: the small vocabulary that the rest of the
//! library's contracts are written in, and its executable counterparts.

use vstd::prelude::*;

verus! {

/// `String::push` appends one character to the end of the string.
pub assume_specification[ String::push ](s: &mut String, c: char)
    ensures
        final(s)@ == old(s)@.push(c),
;

/// `==` on two string slices holds exactly when they hold the same characters.
pub assume_specification[ <str as PartialEq>::eq ](s: &str, other: &str) -> (res: bool)
    ensures
        res == (s@ == other@),
;

/// The characters of a string slice, in order.
pub fn chars_of(s: &str) -> (r: Vec<char>)
    ensures
        r@ == s@,
{
    let mut r: Vec<char> = Vec::new();
    for c in it: s.chars()
        invariant
            it.seq() == s@,
            r@ == s@.take(it.index()),
    {
        r.push(c);
    }
    r
}

/// Whether two pieces of text are the same.
pub fn same_text(a: &str, b: &str) -> (r: bool)
    ensures
        r == (a@ == b@),
{
    *a == *b
}

/// The views of a list of strings.
pub open spec fn texts(list: Seq<String>) -> Seq<Seq<char>> {
    list.map_values(|s: String| s@)
}

/// The view of a string that may be absent.
pub open spec fn text_option(s: Option<String>) -> Option<Seq<char>> {
    match s {
        Some(s) => Some(s@),
        None => None,
    }
}

/// The view of a string slice that may be absent.
pub open spec fn str_option(s: Option<&str>) -> Option<Seq<char>> {
    match s {
        Some(s) => Some(s@),
        None => None,
    }
}

/// The text itself, or the empty text where there is none.
pub open spec fn text_or_empty(s: Option<Seq<char>>) -> Seq<char> {
    match s {
        Some(s) => s,
        None => Seq::empty(),
    }
}

/// A copy of a string that may be absent.
pub fn copy_option(s: &Option<String>) -> (r: Option<String>)
    ensures
        text_option(r) == text_option(*s),
{
    match s {
        Some(s) => Some(s.clone()),
        None => None,
    }
}

/// A copy of a string slice that may be absent.
pub fn own_option(s: Option<&str>) -> (r: Option<String>)
    ensures
        text_option(r) == str_option(s),
{
    match s {
        Some(s) => Some(s.to_owned()),
        None => None,
    }
}

/// A borrow of a string that may be absent.
pub fn borrow_option<'a>(s: &'a Option<String>) -> (r: Option<&'a str>)
    ensures
        str_option(r) == text_option(*s),
{
    match s {
        Some(s) => Some(s.as_str()),
        None => None,
    }
}

/// A copy of a list of strings.
pub fn copy_list(list: &Vec<String>) -> (r: Vec<String>)
    ensures
        texts(r@) == texts(list@),
{
    let mut r: Vec<String> = Vec::new();
    for i in 0..list.len()
        invariant
            r@.len() == i,
            forall|j: int| 0 <= j < i ==> (#[trigger] r@[j])@ == list@[j]@,
    {
        r.push(list[i].clone());
    }
    assert(texts(r@) =~= texts(list@));
    r
}

/// Whether a list of strings holds the given text.
pub fn list_contains(list: &Vec<String>, wanted: &str) -> (r: bool)
    ensures
        r == texts(list@).contains(wanted@),
{
    for i in 0..list.len()
        invariant
            forall|j: int| 0 <= j < i ==> (#[trigger] list@[j])@ != wanted@,
    {
        if same_text(list[i].as_str(), wanted) {
            assert(texts(list@)[i as int] == wanted@);
            return true;
        }
    }
    assert(!texts(list@).contains(wanted@)) by {
        if texts(list@).contains(wanted@) {
            let k = choose|k: int| 0 <= k < texts(list@).len() && texts(list@)[k] == wanted@;
            assert(list@[k]@ == wanted@);
        }
    }
    false
}

/// The characters with the Unicode property `White_Space`.
pub open spec fn white_space(c: char) -> bool {
    let n = c as u32;
    ||| 0x9 <= n <= 0xd
    ||| n == 0x20
    ||| n == 0x85
    ||| n == 0xa0
    ||| n == 0x1680
    ||| 0x2000 <= n <= 0x200a
    ||| n == 0x2028
    ||| n == 0x2029
    ||| n == 0x202f
    ||| n == 0x205f
    ||| n == 0x3000
}

fn is_white_space(c: char) -> (r: bool)
    ensures
        r == white_space(c),
{
    let n: u32 = c as u32;
    (0x9 <= n && n <= 0xd) || n == 0x20 || n == 0x85 || n == 0xa0 || n == 0x1680 || (0x2000 <= n
        && n <= 0x200a) || n == 0x2028 || n == 0x2029 || n == 0x202f || n == 0x205f || n == 0x3000
}

/// The text without its leading white space.
pub open spec fn trim_start(s: Seq<char>) -> Seq<char>
    decreases s.len(),
{
    if s.len() > 0 && white_space(s[0]) {
        trim_start(s.drop_first())
    } else {
        s
    }
}

/// The text without its trailing white space.
pub open spec fn trim_end(s: Seq<char>) -> Seq<char>
    decreases s.len(),
{
    if s.len() > 0 && white_space(s.last()) {
        trim_end(s.drop_last())
    } else {
        s
    }
}

/// The text without its leading and trailing white space.
pub open spec fn trim(s: Seq<char>) -> Seq<char> {
    trim_end(trim_start(s))
}

/// Drops leading and trailing white space.
pub fn trimmed<'a>(s: &'a str) -> (r: &'a str)
    ensures
        r@ == trim(s@),
{
    let chars = chars_of(s);
    let mut start: usize = 0;
    assert(s@.skip(0) =~= s@);
    while start < chars.len() && is_white_space(chars[start])
        invariant
            start <= chars.len(),
            chars@ == s@,
            trim_start(s@.skip(start as int)) == trim_start(s@),
        decreases chars.len() - start,
    {
        assert(s@.skip(start as int).drop_first() =~= s@.skip(start + 1));
        start = start + 1;
    }
    assert(trim_start(s@) == s@.skip(start as int));
    let mut end: usize = chars.len();
    assert(s@.skip(start as int) =~= s@.subrange(start as int, end as int));
    while end > start && is_white_space(chars[end - 1])
        invariant
            start <= end <= chars.len(),
            chars@ == s@,
            trim_end(s@.subrange(start as int, end as int)) == trim(s@),
        decreases end,
    {
        assert(s@.subrange(start as int, end as int).drop_last() =~= s@.subrange(
            start as int,
            end - 1,
        ));
        end = end - 1;
    }
    s.substring_char(start, end)
}

/// The text without the slashes at its end.
pub open spec fn without_trailing_slashes(s: Seq<char>) -> Seq<char>
    decreases s.len(),
{
    if s.len() > 0 && s.last() == '/' {
        without_trailing_slashes(s.drop_last())
    } else {
        s
    }
}

/// Drops the slashes at the end of the text.
pub fn trim_end_slashes<'a>(s: &'a str) -> (r: &'a str)
    ensures
        r@ == without_trailing_slashes(s@),
{
    let chars = chars_of(s);
    let mut end: usize = chars.len();
    assert(s@.subrange(0, end as int) =~= s@);
    while end > 0 && chars[end - 1] == '/'
        invariant
            end <= chars.len(),
            chars@ == s@,
            without_trailing_slashes(s@.subrange(0, end as int)) == without_trailing_slashes(s@),
        decreases end,
    {
        assert(s@.subrange(0, end as int).drop_last() =~= s@.subrange(0, end - 1));
        end = end - 1;
    }
    s.substring_char(0, end)
}

/// An ASCII capital letter becomes its small letter; anything else stays.
pub open spec fn lower_char(c: char) -> char {
    if 'A' <= c <= 'Z' {
        (c as u8 + 32) as char
    } else {
        c
    }
}

/// The text with its ASCII capital letters made small.
pub open spec fn lower(s: Seq<char>) -> Seq<char> {
    s.map_values(|c: char| lower_char(c))
}

/// Makes the ASCII capital letters of the text small.
pub fn lowered(s: &str) -> (r: String)
    ensures
        r@ == lower(s@),
{
    let mut r = String::new();
    for c in it: s.chars()
        invariant
            it.seq() == s@,
            r@ == lower(s@.take(it.index())),
    {
        let small: char = if 'A' <= c && c <= 'Z' {
            (c as u8 + 32) as char
        } else {
            c
        };
        r.push(small);
        assert(lower(s@.take(it.index() + 1)) =~= lower(s@.take(it.index())).push(lower_char(c)));
    }
    assert(s@.take(s@.len() as int) =~= s@);
    r
}

/// `pat` stands in `s` at position `i`.
pub open spec fn occurs_at(s: Seq<char>, pat: Seq<char>, i: int) -> bool {
    0 <= i && i + pat.len() <= s.len() && s.subrange(i, i + pat.len()) == pat
}

/// `pat` stands somewhere in `s`.
pub open spec fn contains(s: Seq<char>, pat: Seq<char>) -> bool {
    exists|i: int| occurs_at(s, pat, i)
}

/// `i` is the first position at which `pat` stands in `s`.
pub open spec fn first_at(s: Seq<char>, pat: Seq<char>, i: int) -> bool {
    &&& occurs_at(s, pat, i)
    &&& forall|j: int| 0 <= j < i ==> !occurs_at(s, pat, j)
}

pub(crate) fn matches_at(s: &Vec<char>, pat: &Vec<char>, i: usize) -> (r: bool)
    requires
        i + pat@.len() <= s@.len(),
    ensures
        r == occurs_at(s@, pat@, i as int),
{
    for j in 0..pat.len()
        invariant
            i + pat@.len() <= s.len(),
            forall|k: int| 0 <= k < j ==> s@[i + k] == pat@[k],
    {
        if s[i + j] != pat[j] {
            assert(s@.subrange(i as int, i + pat@.len())[j as int] != pat@[j as int]);
            return false;
        }
    }
    assert(s@.subrange(i as int, i + pat@.len()) =~= pat@);
    true
}

/// The first position, counted in characters, at which `pat` stands in `s`.
pub fn find_text(s: &str, pat: &str) -> (r: Option<usize>)
    ensures
        match r {
            Some(i) => first_at(s@, pat@, i as int),
            None => !contains(s@, pat@),
        },
{
    let chars = chars_of(s);
    let wanted = chars_of(pat);
    if wanted.len() > chars.len() {
        return None;
    }
    let last: usize = chars.len() - wanted.len();
    let mut i: usize = 0;
    while i < last
        invariant
            chars@ == s@,
            wanted@ == pat@,
            i <= last,
            last + wanted@.len() == chars@.len(),
            forall|j: int| 0 <= j < i ==> !occurs_at(s@, pat@, j),
        decreases last - i,
    {
        if matches_at(&chars, &wanted, i) {
            return Some(i);
        }
        i = i + 1;
    }
    if matches_at(&chars, &wanted, last) {
        return Some(last);
    }
    None
}

/// Whether `pat` stands somewhere in `s`.
pub fn contains_text(s: &str, pat: &str) -> (r: bool)
    ensures
        r == contains(s@, pat@),
{
    find_text(s, pat).is_some()
}

/// `pat` is how `s` ends.
pub open spec fn ends_with(s: Seq<char>, pat: Seq<char>) -> bool {
    occurs_at(s, pat, s.len() - pat.len())
}

/// The text without `suffix` at its end; the text itself where it does not end so.
pub open spec fn without_suffix(s: Seq<char>, suffix: Seq<char>) -> Seq<char> {
    if ends_with(s, suffix) {
        s.take(s.len() - suffix.len())
    } else {
        s
    }
}

/// Drops `suffix` from the end of the text, where it stands there.
pub fn strip_suffix<'a>(s: &'a str, suffix: &str) -> (r: &'a str)
    ensures
        r@ == without_suffix(s@, suffix@),
{
    let chars = chars_of(s);
    let wanted = chars_of(suffix);
    if wanted.len() <= chars.len() && matches_at(&chars, &wanted, chars.len() - wanted.len()) {
        s.substring_char(0, chars.len() - wanted.len())
    } else {
        s
    }
}

/// The decimal digit of a number below ten.
pub open spec fn digit(d: nat) -> char {
    (48 + d) as char
}

/// A natural number in decimal, without leading zeros.
pub open spec fn decimal(n: nat) -> Seq<char>
    decreases n,
{
    if n < 10 {
        seq![digit(n)]
    } else {
        decimal(n / 10).push(digit(n % 10))
    }
}

/// A decimal is made of digits, and tells its number.
pub proof fn lemma_decimal(n: nat)
    ensures
        decimal(n).len() > 0,
        forall|i: int| 0 <= i < decimal(n).len() ==> '0' <= #[trigger] decimal(n)[i] <= '9',
    decreases n,
{
    if n >= 10 {
        lemma_decimal(n / 10);
    }
}

/// Different numbers have different decimals.
pub proof fn lemma_decimal_injective(one: nat, other: nat)
    requires
        decimal(one) == decimal(other),
    ensures
        one == other,
    decreases one,
{
    assert(forall|d: nat| d < 10 ==> #[trigger] digit(d) as u32 == 48 + d);
    if one < 10 && other < 10 {
        assert(decimal(one)[0] == digit(one));
        assert(decimal(other)[0] == digit(other));
    } else if one >= 10 && other >= 10 {
        assert(decimal(one).drop_last() =~= decimal(one / 10));
        assert(decimal(other).drop_last() =~= decimal(other / 10));
        assert(decimal(one).last() == digit(one % 10));
        assert(decimal(other).last() == digit(other % 10));
        lemma_decimal_injective(one / 10, other / 10);
    } else if one >= 10 {
        lemma_decimal(one / 10);
    } else {
        lemma_decimal(other / 10);
    }
}

/// Writes a natural number in decimal.
pub fn decimal_text(n: u64) -> (r: String)
    ensures
        r@ == decimal(n as nat),
    decreases n,
{
    let last: u8 = 48 + (n % 10) as u8;
    let mut r = if n < 10 {
        String::new()
    } else {
        decimal_text(n / 10)
    };
    r.push(last as char);
    assert(n < 10 ==> r@ =~= seq![digit(n as nat)]);
    r
}

/// An integer in decimal, with a minus sign where it is negative.
pub open spec fn signed_decimal(n: int) -> Seq<char> {
    if n < 0 {
        seq!['-'] + decimal((-n) as nat)
    } else {
        decimal(n as nat)
    }
}

/// Writes an integer in decimal.
pub fn signed_text(n: i32) -> (r: String)
    ensures
        r@ == signed_decimal(n as int),
{
    let wide: i64 = n as i64;
    if wide < 0 {
        let magnitude = decimal_text((-wide) as u64);
        let mut r = String::new();
        r.push('-');
        r.append(magnitude.as_str());
        assert(r@ =~= signed_decimal(n as int));
        r
    } else {
        decimal_text(wide as u64)
    }
}

/// The pieces in order, with `sep` between each two.
pub open spec fn join(parts: Seq<Seq<char>>, sep: Seq<char>) -> Seq<char>
    decreases parts.len(),
{
    if parts.len() == 0 {
        Seq::empty()
    } else if parts.len() == 1 {
        parts[0]
    } else {
        join(parts.drop_last(), sep) + sep + parts.last()
    }
}

/// Joins the first `count` strings of the list with `sep` between each two.
pub fn join_first(parts: &Vec<String>, count: usize, sep: &str) -> (r: String)
    requires
        count <= parts@.len(),
    ensures
        r@ == join(texts(parts@).take(count as int), sep@),
{
    let mut r = String::new();
    assert(texts(parts@).take(0) =~= Seq::<Seq<char>>::empty());
    for i in 0..count
        invariant
            count <= parts@.len(),
            r@ == join(texts(parts@).take(i as int), sep@),
    {
        assert(texts(parts@).take(i + 1).drop_last() =~= texts(parts@).take(i as int));
        if i > 0 {
            r.append(sep);
        }
        r.append(parts[i].as_str());
        assert(i == 0 ==> r@ =~= parts@[0]@);
    }
    r
}

/// The number of bytes the text takes in UTF-8.
pub open spec fn byte_len(s: Seq<char>) -> usize {
    vstd::utf8::encode_utf8(s).len() as usize
}

/// The text with spaces after it, up to `width` characters.
pub open spec fn padded(s: Seq<char>, width: nat) -> Seq<char> {
    if s.len() >= width {
        s
    } else {
        s + Seq::new((width - s.len()) as nat, |i: int| ' ')
    }
}

/// Writes the text, then spaces up to `width` characters.
pub fn append_padded(out: &mut String, s: &str, width: usize)
    ensures
        final(out)@ == old(out)@ + padded(s@, width as nat),
{
    out.append(s);
    let length: usize = chars_of(s).len();
    let ghost unpadded = out@;
    let mut i: usize = length;
    assert(unpadded =~= unpadded + Seq::<char>::empty());
    while i < width
        invariant
            length == s@.len(),
            length <= i,
            i <= width || i == length,
            out@ == unpadded + Seq::new((i - length) as nat, |i: int| ' '),
        decreases width - i,
    {
        out.push(' ');
        assert(out@ =~= unpadded + Seq::new((i + 1 - length) as nat, |i: int| ' '));
        i = i + 1;
    }
    assert(out@ =~= old(out)@ + padded(s@, width as nat));
}

/// The text after the last `c`; the whole text where there is none.
pub open spec fn after_last(s: Seq<char>, c: char) -> Seq<char>
    decreases s.len(),
{
    if s.len() == 0 || s.last() == c {
        Seq::empty()
    } else {
        after_last(s.drop_last(), c).push(s.last())
    }
}

/// The text before the first `c`; the whole text where there is none.
pub open spec fn before_first(s: Seq<char>, c: char) -> Seq<char>
    decreases s.len(),
{
    if s.len() == 0 || s[0] == c {
        Seq::empty()
    } else {
        seq![s[0]] + before_first(s.drop_first(), c)
    }
}

/// Takes what stands after the last `c`.
pub fn tail_after<'a>(s: &'a str, c: char) -> (r: &'a str)
    ensures
        r@ == after_last(s@, c),
{
    let chars = chars_of(s);
    let mut start: usize = chars.len();
    assert(s@.take(start as int) =~= s@);
    assert(after_last(s@, c) =~= after_last(s@.take(start as int), c) + s@.skip(start as int));
    while start > 0 && chars[start - 1] != c
        invariant
            start <= chars.len(),
            chars@ == s@,
            after_last(s@, c) == after_last(s@.take(start as int), c) + s@.skip(start as int),
        decreases start,
    {
        let ghost shorter = s@.take(start - 1);
        assert(s@.take(start as int).drop_last() =~= shorter);
        assert(after_last(shorter, c).push(s@[start - 1]) + s@.skip(start as int) =~= after_last(
            shorter,
            c,
        ) + s@.skip(start - 1));
        start = start - 1;
    }
    assert(after_last(s@, c) =~= s@.skip(start as int));
    assert(s@.skip(start as int) =~= s@.subrange(start as int, s@.len() as int));
    s.substring_char(start, chars.len())
}

/// Takes what stands before the first `c`.
pub fn head_before<'a>(s: &'a str, c: char) -> (r: &'a str)
    ensures
        r@ == before_first(s@, c),
{
    let chars = chars_of(s);
    let mut end: usize = 0;
    assert(s@.skip(0) =~= s@);
    assert(before_first(s@, c) =~= s@.take(0) + before_first(s@.skip(0), c));
    while end < chars.len() && chars[end] != c
        invariant
            end <= chars.len(),
            chars@ == s@,
            before_first(s@, c) == s@.take(end as int) + before_first(s@.skip(end as int), c),
        decreases chars.len() - end,
    {
        assert(s@.skip(end as int).drop_first() =~= s@.skip(end + 1));
        assert(s@.take(end as int) + (seq![s@[end as int]] + before_first(s@.skip(end + 1), c))
            =~= s@.take(end + 1) + before_first(s@.skip(end + 1), c));
        end = end + 1;
    }
    assert(before_first(s@, c) =~= s@.take(end as int));
    assert(s@.take(end as int) =~= s@.subrange(0, end as int));
    s.substring_char(0, end)
}

/// The position of the first place where `pat` stands in `s`.
pub open spec fn position(s: Seq<char>, pat: Seq<char>) -> Option<int> {
    if contains(s, pat) {
        Some(choose|i: int| first_at(s, pat, i))
    } else {
        None
    }
}

/// Where `pat` stands in `s` there is a first place.
pub proof fn lemma_position(s: Seq<char>, pat: Seq<char>, i: int)
    requires
        occurs_at(s, pat, i),
    ensures
        position(s, pat) is Some,
        first_at(s, pat, position(s, pat)->0),
        position(s, pat)->0 <= i,
    decreases i,
{
    if exists|j: int| 0 <= j < i && occurs_at(s, pat, j) {
        let j = choose|j: int| 0 <= j < i && occurs_at(s, pat, j);
        lemma_position(s, pat, j);
    } else {
        assert(first_at(s, pat, i));
    }
}

/// The first place is the only first one.
pub proof fn lemma_position_is(s: Seq<char>, pat: Seq<char>, i: int)
    requires
        first_at(s, pat, i),
    ensures
        position(s, pat) == Some(i),
{
    lemma_position(s, pat, i);
    let other = position(s, pat)->0;
    if other < i {
        assert(!occurs_at(s, pat, other));
    }
}

} // verus!
