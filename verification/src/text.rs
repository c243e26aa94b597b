//! Character-level text operations: matching, searching and replacing on
//! sequences of characters, with `String` conversions at the edges.

use vstd::prelude::*;

verus! {

/// Whether `pat` occurs in `s` starting at position `i`.
pub open spec fn matches_at(s: Seq<char>, pat: Seq<char>, i: int) -> bool {
    &&& 0 <= i
    &&& i + pat.len() <= s.len()
    &&& s.subrange(i, i + pat.len()) == pat
}

/// Whether `s` begins with `pat`.
pub open spec fn has_prefix(s: Seq<char>, pat: Seq<char>) -> bool {
    matches_at(s, pat, 0)
}

/// Whether `s` ends with `pat`.
pub open spec fn has_suffix(s: Seq<char>, pat: Seq<char>) -> bool {
    matches_at(s, pat, s.len() - pat.len())
}

/// Whether `pat` occurs somewhere in `s`.
pub open spec fn contains_seq(s: Seq<char>, pat: Seq<char>) -> bool {
    exists|i: int| matches_at(s, pat, i)
}

/// `s` with every occurrence of `from` replaced by `to`, scanning from the
/// left and never re-reading replaced text. An empty `from` matches nothing.
pub open spec fn replace_seq(s: Seq<char>, from: Seq<char>, to: Seq<char>) -> Seq<char>
    decreases s.len(),
{
    if s.len() == 0 || from.len() == 0 {
        s
    } else if has_prefix(s, from) {
        to + replace_seq(s.skip(from.len() as int), from, to)
    } else {
        seq![s[0]] + replace_seq(s.skip(1), from, to)
    }
}

/// Appends one character to `s`. The body is `String::push`, which extends
/// the string's character sequence by `c`.
#[verifier::external_body]
pub(crate) fn push_char(s: &mut String, c: char)
    ensures
        final(s)@ == old(s)@.push(c),
{
    s.push(c)
}

/// The characters of `s`, in order.
pub fn chars_of(s: &str) -> (out: Vec<char>)
    ensures
        out@ == s@,
{
    let mut out: Vec<char> = Vec::new();
    let it = s.chars();
    for c in iter: it
        invariant
            out@ == iter.seq().take(iter.index() as int),
    {
        out.push(c);
    }
    out
}

/// The string whose characters are `v`.
pub fn string_of(v: &Vec<char>) -> (out: String)
    ensures
        out@ == v@,
{
    let mut out = String::new();
    let mut i: usize = 0;
    while i < v.len()
        invariant
            i <= v.len(),
            out@ == v@.take(i as int),
        decreases v.len() - i,
    {
        push_char(&mut out, v[i]);
        i += 1;
    }
    assert(v@.take(v.len() as int) =~= v@);
    out
}

/// Appends all of `tail` to `out`.
pub fn append_chars(out: &mut Vec<char>, tail: &Vec<char>)
    ensures
        final(out)@ == old(out)@ + tail@,
{
    let mut i: usize = 0;
    while i < tail.len()
        invariant
            i <= tail.len(),
            out@ == old(out)@ + tail@.take(i as int),
        decreases tail.len() - i,
    {
        out.push(tail[i]);
        i += 1;
        assert(tail@.take(i as int) =~= tail@.take(i - 1).push(tail@[i - 1]));
        assert(out@ =~= old(out)@ + tail@.take(i as int));
    }
    assert(tail@.take(tail.len() as int) =~= tail@);
}

/// Tests whether `pat` occurs in `s` at position `i`.
pub fn is_match_at(s: &Vec<char>, pat: &Vec<char>, i: usize) -> (b: bool)
    ensures
        b == matches_at(s@, pat@, i as int),
{
    if pat.len() > s.len() || i > s.len() - pat.len() {
        return false;
    }
    let mut k: usize = 0;
    while k < pat.len()
        invariant
            k <= pat.len(),
            i + pat.len() <= s.len(),
            forall|j: int| 0 <= j < k ==> s@[i + j] == pat@[j],
        decreases pat.len() - k,
    {
        if s[i + k] != pat[k] {
            assert(s@.subrange(i as int, i + pat.len())[k as int] == s@[i + k]);
            return false;
        }
        k += 1;
    }
    assert(s@.subrange(i as int, i + pat.len()) =~= pat@);
    true
}

/// Tests whether `s` begins with `pat`.
pub fn starts_with_chars(s: &Vec<char>, pat: &Vec<char>) -> (b: bool)
    ensures
        b == has_prefix(s@, pat@),
{
    is_match_at(s, pat, 0)
}

/// Tests whether `s` ends with `pat`.
pub fn ends_with_chars(s: &Vec<char>, pat: &Vec<char>) -> (b: bool)
    ensures
        b == has_suffix(s@, pat@),
{
    if pat.len() > s.len() {
        return false;
    }
    is_match_at(s, pat, s.len() - pat.len())
}

/// The first position at or after `start` where `pat` occurs in `s`.
pub fn find_from(s: &Vec<char>, pat: &Vec<char>, start: usize) -> (r: Option<usize>)
    ensures
        match r {
            Some(i) => start <= i && matches_at(s@, pat@, i as int) && forall|j: int|
                start <= j < i ==> !matches_at(s@, pat@, j),
            None => forall|j: int| start <= j ==> !matches_at(s@, pat@, j),
        },
{
    if start > s.len() {
        return None;
    }
    let mut i: usize = start;
    while i < s.len()
        invariant
            start <= i <= s.len(),
            forall|j: int| start <= j < i ==> !matches_at(s@, pat@, j),
        decreases s.len() - i,
    {
        if is_match_at(s, pat, i) {
            return Some(i);
        }
        i += 1;
    }
    if is_match_at(s, pat, i) {
        Some(i)
    } else {
        None
    }
}

/// Tests whether `pat` occurs somewhere in `s`.
pub fn contains_chars(s: &Vec<char>, pat: &Vec<char>) -> (b: bool)
    ensures
        b == contains_seq(s@, pat@),
{
    match find_from(s, pat, 0) {
        Some(_) => true,
        None => false,
    }
}

/// The part of `s` from position `from` up to, not including, position `to`.
pub fn slice_chars(s: &Vec<char>, from: usize, to: usize) -> (out: Vec<char>)
    requires
        from <= to <= s.len(),
    ensures
        out@ == s@.subrange(from as int, to as int),
{
    let mut out: Vec<char> = Vec::new();
    let mut i: usize = from;
    while i < to
        invariant
            from <= i <= to,
            to <= s.len(),
            out@ == s@.subrange(from as int, i as int),
        decreases to - i,
    {
        out.push(s[i]);
        i += 1;
        assert(out@ =~= s@.subrange(from as int, i as int));
    }
    out
}

/// Replaces every occurrence of `from` in `s` by `to`.
pub fn replace_chars(s: &Vec<char>, from: &Vec<char>, to: &Vec<char>) -> (out: Vec<char>)
    ensures
        out@ == replace_seq(s@, from@, to@),
{
    let mut out: Vec<char> = Vec::new();
    if from.len() == 0 {
        append_chars(&mut out, s);
        assert(out@ =~= s@);
        return out;
    }
    let mut i: usize = 0;
    assert(s@.skip(0) =~= s@);
    while i < s.len()
        invariant
            i <= s.len(),
            from.len() > 0,
            out@ + replace_seq(s@.skip(i as int), from@, to@) == replace_seq(s@, from@, to@),
        decreases s.len() - i,
    {
        let ghost rest = s@.skip(i as int);
        let ghost before = out@;
        if is_match_at(s, from, i) {
            assert(rest.subrange(0, from.len() as int) =~= s@.subrange(
                i as int,
                i + from.len(),
            ));
            assert(has_prefix(rest, from@));
            append_chars(&mut out, to);
            i += from.len();
            assert(rest.skip(from.len() as int) =~= s@.skip(i as int));
            assert(out@ + replace_seq(s@.skip(i as int), from@, to@) =~= before + (to@
                + replace_seq(rest.skip(from.len() as int), from@, to@)));
        } else {
            assert(!has_prefix(rest, from@)) by {
                if i + from.len() <= s.len() {
                    assert(rest.subrange(0, from.len() as int) =~= s@.subrange(
                        i as int,
                        i + from.len(),
                    ));
                }
            }
            out.push(s[i]);
            i += 1;
            assert(rest.skip(1) =~= s@.skip(i as int));
            assert(out@ + replace_seq(s@.skip(i as int), from@, to@) =~= before + (seq![rest[0]]
                + replace_seq(rest.skip(1), from@, to@)));
        }
    }
    assert(s@.skip(s.len() as int).len() == 0);
    assert(out@ + replace_seq(s@.skip(i as int), from@, to@) =~= out@);
    out
}

/// Replaces every occurrence of `from` in `s` by `to`.
pub fn replace_all(s: &str, from: &str, to: &str) -> (out: String)
    ensures
        out@ == replace_seq(s@, from@, to@),
{
    let r = replace_chars(&chars_of(s), &chars_of(from), &chars_of(to));
    string_of(&r)
}

/// Tests whether two character vectors hold the same text.
pub fn same_chars(a: &Vec<char>, b: &Vec<char>) -> (r: bool)
    ensures
        r == (a@ == b@),
{
    if a.len() != b.len() {
        return false;
    }
    let r = is_match_at(a, b, 0);
    proof {
        assert(a@.subrange(0, a.len() as int) =~= a@);
    }
    r
}

/// The position of the first `c` in `s`, or the length of `s`.
pub open spec fn first_of(s: Seq<char>, c: char) -> int
    decreases s.len(),
{
    if s.len() == 0 {
        0
    } else if s[0] == c {
        0
    } else {
        1 + first_of(s.skip(1), c)
    }
}

proof fn lemma_first_of_bounds(s: Seq<char>, c: char)
    ensures
        0 <= first_of(s, c) <= s.len(),
        first_of(s, c) < s.len() ==> s[first_of(s, c)] == c,
        forall|k: int| 0 <= k < first_of(s, c) ==> s[k] != c,
    decreases s.len(),
{
    if s.len() > 0 && s[0] != c {
        lemma_first_of_bounds(s.skip(1), c);
        assert forall|k: int| 0 <= k < first_of(s, c) implies s[k] != c by {
            if k > 0 {
                assert(s.skip(1)[k - 1] == s[k]);
            }
        }
    }
}

proof fn lemma_first_of_is(s: Seq<char>, c: char, i: int)
    requires
        0 <= i <= s.len(),
        forall|k: int| 0 <= k < i ==> s[k] != c,
        i < s.len() ==> s[i] == c,
    ensures
        first_of(s, c) == i,
{
    lemma_first_of_bounds(s, c);
}

/// Finds the first `c` in `s` at or after `from`.
pub fn position_of(s: &Vec<char>, c: char, from: usize) -> (i: usize)
    requires
        from <= s.len(),
    ensures
        i == from + first_of(s@.skip(from as int), c),
        from <= i <= s.len(),
{
    let mut i: usize = from;
    while i < s.len() && s[i] != c
        invariant
            from <= i <= s.len(),
            forall|k: int| from <= k < i ==> s[k] != c,
        decreases s.len() - i,
    {
        i += 1;
    }
    proof {
        lemma_first_of_is(s@.skip(from as int), c, i - from);
    }
    i
}

/// What follows the last `c` in `s`; all of `s` where it holds no `c`.
pub open spec fn after_last(s: Seq<char>, c: char) -> Seq<char>
    decreases s.len(),
{
    let cut = first_of(s, c);
    if cut < 0 || cut >= s.len() {
        s
    } else {
        after_last(s.skip(cut + 1), c)
    }
}

/// The part of `s` that follows its last `c`.
pub fn last_segment(s: &Vec<char>, c: char) -> (out: Vec<char>)
    ensures
        out@ == after_last(s@, c),
{
    let mut from: usize = 0;
    assert(s@.skip(0) =~= s@);
    loop
        invariant
            from <= s.len(),
            after_last(s@, c) == after_last(s@.skip(from as int), c),
        decreases s.len() - from,
    {
        let cut = position_of(s, c, from);
        if cut >= s.len() {
            let out = slice_chars(s, from, s.len());
            assert(out@ =~= s@.skip(from as int));
            return out;
        }
        assert(s@.skip(from as int).skip(cut - from + 1) =~= s@.skip(cut + 1));
        from = cut + 1;
    }
}

/// The character of the digit `d`.
pub open spec fn digit_char(d: nat) -> char {
    if d == 0 {
        '0'
    } else if d == 1 {
        '1'
    } else if d == 2 {
        '2'
    } else if d == 3 {
        '3'
    } else if d == 4 {
        '4'
    } else if d == 5 {
        '5'
    } else if d == 6 {
        '6'
    } else if d == 7 {
        '7'
    } else if d == 8 {
        '8'
    } else {
        '9'
    }
}

/// The decimal digits of `n`, without leading zeros.
pub open spec fn decimal(n: nat) -> Seq<char>
    decreases n,
{
    if n < 10 {
        seq![digit_char(n)]
    } else {
        decimal(n / 10).push(digit_char(n % 10))
    }
}

fn digit_of(d: u64) -> (c: char)
    requires
        d < 10,
    ensures
        c == digit_char(d as nat),
{
    if d == 0 {
        '0'
    } else if d == 1 {
        '1'
    } else if d == 2 {
        '2'
    } else if d == 3 {
        '3'
    } else if d == 4 {
        '4'
    } else if d == 5 {
        '5'
    } else if d == 6 {
        '6'
    } else if d == 7 {
        '7'
    } else if d == 8 {
        '8'
    } else {
        '9'
    }
}

/// Writes `n` in decimal digits.
pub fn decimal_chars(n: u64) -> (out: Vec<char>)
    ensures
        out@ == decimal(n as nat),
    decreases n,
{
    if n < 10 {
        let mut out: Vec<char> = Vec::new();
        out.push(digit_of(n));
        out
    } else {
        let mut out = decimal_chars(n / 10);
        out.push(digit_of(n % 10));
        out
    }
}

/// Whether a character is white space.
pub uninterp spec fn white_space(c: char) -> bool;

/// `char::is_whitespace`: whether the character has the Unicode property
/// White_Space.
#[verifier::external_body]
pub(crate) fn is_whitespace(c: char) -> (b: bool)
    ensures
        b == white_space(c),
{
    c.is_whitespace()
}

/// `s` without the white space at its start.
pub open spec fn trim_start(s: Seq<char>) -> Seq<char>
    decreases s.len(),
{
    if s.len() > 0 && white_space(s[0]) {
        trim_start(s.skip(1))
    } else {
        s
    }
}

/// `s` without the white space at its end.
pub open spec fn trim_end(s: Seq<char>) -> Seq<char>
    decreases s.len(),
{
    if s.len() > 0 && white_space(s.last()) {
        trim_end(s.drop_last())
    } else {
        s
    }
}

/// `s` without the white space at its start and at its end.
pub open spec fn trimmed(s: Seq<char>) -> Seq<char> {
    trim_end(trim_start(s))
}

/// Removes the white space at both ends of `s`.
pub fn trim_chars(s: &Vec<char>) -> (out: Vec<char>)
    ensures
        out@ == trimmed(s@),
{
    let mut from: usize = 0;
    assert(s@.skip(0) =~= s@);
    while from < s.len() && is_whitespace(s[from])
        invariant
            from <= s.len(),
            trim_start(s@) == trim_start(s@.skip(from as int)),
        decreases s.len() - from,
    {
        assert(s@.skip(from as int).skip(1) =~= s@.skip(from + 1));
        from += 1;
    }
    let mut to: usize = s.len();
    assert(s@.subrange(from as int, to as int) =~= s@.skip(from as int));
    while to > from && is_whitespace(s[to - 1])
        invariant
            from <= to <= s.len(),
            trimmed(s@) == trim_end(s@.subrange(from as int, to as int)),
        decreases to,
    {
        assert(s@.subrange(from as int, to as int).drop_last() =~= s@.subrange(
            from as int,
            to - 1,
        ));
        to -= 1;
    }
    slice_chars(s, from, to)
}

/// `s` without the copies of `pat` at its start.
pub open spec fn without_leading(s: Seq<char>, pat: Seq<char>) -> Seq<char>
    decreases s.len(),
{
    if pat.len() > 0 && has_prefix(s, pat) {
        without_leading(s.skip(pat.len() as int), pat)
    } else {
        s
    }
}

/// Removes the copies of `pat` at the start of `s`.
pub fn strip_leading(s: &Vec<char>, pat: &Vec<char>) -> (out: Vec<char>)
    ensures
        out@ == without_leading(s@, pat@),
{
    let mut from: usize = 0;
    assert(s@.skip(0) =~= s@);
    while pat.len() > 0 && is_match_at(s, pat, from)
        invariant
            from <= s.len(),
            without_leading(s@, pat@) == without_leading(s@.skip(from as int), pat@),
        decreases s.len() - from,
    {
        proof {
            let rest = s@.skip(from as int);
            assert(rest.subrange(0, pat.len() as int) =~= s@.subrange(from as int, from + pat.len()));
            assert(rest.skip(pat.len() as int) =~= s@.skip(from + pat.len()));
        }
        from += pat.len();
    }
    proof {
        let rest = s@.skip(from as int);
        if pat.len() > 0 && from + pat.len() <= s.len() {
            assert(rest.subrange(0, pat.len() as int) =~= s@.subrange(from as int, from + pat.len()));
        }
    }
    let out = slice_chars(s, from, s.len());
    assert(out@ =~= s@.skip(from as int));
    out
}

/// A line without the carriage return that ends it.
pub open spec fn without_return(line: Seq<char>) -> Seq<char> {
    if line.len() > 0 && line.last() == '\r' {
        line.drop_last()
    } else {
        line
    }
}

/// The lines of `s`. A line ends at a line feed; a carriage return just
/// before the line feed belongs to the line ending. What follows the last
/// line feed is a line if it is not empty.
pub open spec fn lines(s: Seq<char>) -> Seq<Seq<char>>
    decreases s.len(),
{
    let cut = first_of(s, '\n');
    if s.len() == 0 {
        Seq::empty()
    } else if cut < 0 || cut >= s.len() {
        seq![s]
    } else {
        seq![without_return(s.take(cut))] + lines(s.skip(cut + 1))
    }
}

/// The texts that `v` holds.
pub open spec fn texts(v: Seq<Vec<char>>) -> Seq<Seq<char>> {
    Seq::new(v.len(), |i: int| v[i]@)
}

/// Splits `s` into its lines.
pub fn lines_of(s: &Vec<char>) -> (out: Vec<Vec<char>>)
    ensures
        texts(out@) == lines(s@),
{
    let mut out: Vec<Vec<char>> = Vec::new();
    let mut from: usize = 0;
    assert(s@.skip(0) =~= s@);
    assert(texts(out@) =~= Seq::<Seq<char>>::empty());
    while from < s.len()
        invariant
            from <= s.len(),
            texts(out@) + lines(s@.skip(from as int)) == lines(s@),
        decreases s.len() - from,
    {
        let ghost rest = s@.skip(from as int);
        let ghost before = texts(out@);
        let cut = position_of(s, '\n', from);
        if cut >= s.len() {
            let line = slice_chars(s, from, s.len());
            assert(line@ =~= rest);
            out.push(line);
            assert(texts(out@) =~= before.push(rest));
            assert(lines(rest) =~= seq![rest]);
            from = s.len();
            assert(lines(s@.skip(from as int)) =~= Seq::<Seq<char>>::empty());
            assert(texts(out@) + lines(s@.skip(from as int)) =~= before + lines(rest));
        } else {
            let end = if cut > from && s[cut - 1] == '\r' {
                cut - 1
            } else {
                cut
            };
            let line = slice_chars(s, from, end);
            assert(rest.take(cut - from) =~= s@.subrange(from as int, cut as int));
            assert(line@ =~= without_return(rest.take(cut - from)));
            out.push(line);
            assert(texts(out@) =~= before.push(without_return(rest.take(cut - from))));
            assert(rest.skip(cut - from + 1) =~= s@.skip(cut + 1));
            let ghost start = from as int;
            from = cut + 1;
            assert(first_of(rest, '\n') == cut - start);
            assert(texts(out@) + lines(s@.skip(from as int)) =~= before + (seq![
                without_return(rest.take(cut - start)),
            ] + lines(rest.skip(cut - start + 1))));
        }
    }
    assert(lines(s@.skip(from as int)) =~= Seq::<Seq<char>>::empty());
    assert(texts(out@) + lines(s@.skip(from as int)) =~= texts(out@));
    out
}

/// The pieces of `s` between the separators `c`. A text without separator
/// is one piece, and so is the empty text.
pub open spec fn pieces(s: Seq<char>, c: char) -> Seq<Seq<char>>
    decreases s.len(),
{
    let cut = first_of(s, c);
    if cut < 0 || cut >= s.len() {
        seq![s]
    } else {
        seq![s.take(cut)] + pieces(s.skip(cut + 1), c)
    }
}

/// Splits `s` at every `c`.
pub fn split_chars(s: &Vec<char>, c: char) -> (out: Vec<Vec<char>>)
    ensures
        texts(out@) == pieces(s@, c),
{
    let mut out: Vec<Vec<char>> = Vec::new();
    let mut from: usize = 0;
    assert(s@.skip(0) =~= s@);
    assert(texts(out@) =~= Seq::<Seq<char>>::empty());
    loop
        invariant
            from <= s.len(),
            texts(out@) + pieces(s@.skip(from as int), c) == pieces(s@, c),
        decreases s.len() - from,
    {
        let ghost rest = s@.skip(from as int);
        let ghost before = texts(out@);
        let cut = position_of(s, c, from);
        let piece = slice_chars(s, from, cut);
        assert(piece@ =~= rest.take(cut - from));
        out.push(piece);
        assert(texts(out@) =~= before.push(rest.take(cut - from)));
        if cut >= s.len() {
            assert(rest.take(cut - from) =~= rest);
            assert(texts(out@) =~= before + pieces(rest, c));
            return out;
        }
        assert(rest.skip(cut - from + 1) =~= s@.skip(cut + 1));
        assert(texts(out@) + pieces(s@.skip(cut + 1), c) =~= before + (seq![rest.take(cut - from)]
            + pieces(rest.skip(cut - from + 1), c)));
        from = cut + 1;
    }
}

/// The number that the digit `c` stands for.
pub open spec fn digit_value(c: char) -> Option<nat> {
    if '0' <= c <= '9' {
        Some((c as nat - '0' as nat) as nat)
    } else {
        None
    }
}

/// The number that the digits `s` stand for; `None` where `s` holds
/// anything but digits. No digits stand for zero.
pub open spec fn digits_value(s: Seq<char>) -> Option<nat>
    decreases s.len(),
{
    if s.len() == 0 {
        Some(0)
    } else {
        match (digits_value(s.drop_last()), digit_value(s.last())) {
            (Some(v), Some(d)) => Some(v * 10 + d),
            _ => None,
        }
    }
}

/// The number that `s` stands for as a 32-bit number: an optional plus
/// sign and at least one digit, with a value that fits.
pub open spec fn number_of(s: Seq<char>) -> Option<u32> {
    number_of_digits(
        if s.len() > 0 && s[0] == '+' {
            s.skip(1)
        } else {
            s
        },
    )
}

/// The 32-bit number that the digits `digits` stand for: at least one
/// digit, with a value that fits.
pub open spec fn number_of_digits(digits: Seq<char>) -> Option<u32> {
    if digits.len() == 0 {
        None
    } else {
        match digits_value(digits) {
            Some(v) => if v <= u32::MAX {
                Some(v as u32)
            } else {
                None
            },
            None => None,
        }
    }
}

proof fn lemma_digits_grow(s: Seq<char>, a: int, b: int)
    requires
        0 <= a <= b <= s.len(),
        digits_value(s.take(b)) is Some,
    ensures
        digits_value(s.take(a)) is Some,
        digits_value(s.take(a))->0 <= digits_value(s.take(b))->0,
    decreases b - a,
{
    if a < b {
        assert(s.take(b).drop_last() =~= s.take(b - 1));
        lemma_digits_grow(s, a, b - 1);
    }
}

proof fn lemma_digits_fail(s: Seq<char>, a: int, b: int)
    requires
        0 <= a <= b <= s.len(),
        digits_value(s.take(a)) is None,
    ensures
        digits_value(s.take(b)) is None,
    decreases b - a,
{
    if a < b {
        assert(s.take(b).drop_last() =~= s.take(b - 1));
        lemma_digits_fail(s, a, b - 1);
    }
}

/// Reads `s` as a 32-bit number.
pub fn parse_number(s: &Vec<char>) -> (r: Option<u32>)
    ensures
        r == number_of(s@),
{
    let start: usize = if s.len() > 0 && s[0] == '+' {
        1
    } else {
        0
    };
    assert(s@.skip(0) =~= s@);
    if start >= s.len() {
        assert(s@.skip(start as int).len() == 0);
        return None;
    }
    let ghost digits = s@.skip(start as int);
    assert(number_of(s@) == number_of_digits(digits));
    let mut value: u64 = 0;
    let mut i: usize = start;
    assert(digits.take(0) =~= Seq::<char>::empty());
    while i < s.len()
        invariant
            start <= i <= s.len(),
            digits == s@.skip(start as int),
            digits.len() > 0,
            number_of(s@) == number_of_digits(digits),
            digits_value(digits.take(i - start)) == Some(value as nat),
            value <= u32::MAX,
        decreases s.len() - i,
    {
        let c = s[i];
        assert(digits.take(i - start + 1).drop_last() =~= digits.take(i - start));
        assert(digits.take(i - start + 1).last() == c);
        if !(c >= '0' && c <= '9') {
            proof {
                assert(digits_value(digits.take(i - start + 1)) is None);
                lemma_digits_fail(digits, i - start + 1, digits.len() as int);
                assert(digits.take(digits.len() as int) =~= digits);
            }
            return None;
        }
        let d = (c as u64) - ('0' as u64);
        let next = value * 10 + d;
        assert(digits_value(digits.take(i - start + 1)) == Some(next as nat));
        if next > u32::MAX as u64 {
            proof {
                assert(digits.take(digits.len() as int) =~= digits);
                if digits_value(digits) is Some {
                    lemma_digits_grow(digits, i - start + 1, digits.len() as int);
                }
            }
            return None;
        }
        value = next;
        i += 1;
    }
    assert(digits.take(digits.len() as int) =~= digits);
    Some(value as u32)
}

} // verus!
