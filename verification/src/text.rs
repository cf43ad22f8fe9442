//! Words and numbers in a line of text.

use vstd::prelude::*;

verus! {

/// Whether `c` is white space: one of the code points that carry the Unicode
/// property White_Space.
pub open spec fn is_space(c: char) -> bool {
    ||| '\u{9}' <= c <= '\u{d}'
    ||| c == ' '
    ||| c == '\u{85}'
    ||| c == '\u{a0}'
    ||| c == '\u{1680}'
    ||| '\u{2000}' <= c <= '\u{200a}'
    ||| c == '\u{2028}'
    ||| c == '\u{2029}'
    ||| c == '\u{202f}'
    ||| c == '\u{205f}'
    ||| c == '\u{3000}'
}

/// The first index at or after `from` that holds no white space, or the
/// length of `s` if white space runs to the end.
pub open spec fn word_start(s: Seq<char>, from: int) -> int
    decreases s.len() - from,
{
    if 0 <= from < s.len() && is_space(s[from]) {
        word_start(s, from + 1)
    } else {
        from
    }
}

/// The first index at or after `from` that holds white space, or the length
/// of `s` if there is none.
pub open spec fn word_end(s: Seq<char>, from: int) -> int
    decreases s.len() - from,
{
    if 0 <= from < s.len() && !is_space(s[from]) {
        word_end(s, from + 1)
    } else {
        from
    }
}

/// The words of `s` that begin at or after `from`, in order. A word is a
/// longest run of characters that are not white space.
pub open spec fn words_from(s: Seq<char>, from: int) -> Seq<Seq<char>>
    decreases s.len() - from,
{
    let start = word_start(s, from);
    let end = word_end(s, start);
    if 0 <= from && start < s.len() {
        proof {
            lemma_word_bounds(s, from);
        }
        seq![s.subrange(start, end)] + words_from(s, end)
    } else {
        Seq::empty()
    }
}

/// The words of `s`, in order.
pub open spec fn words(s: Seq<char>) -> Seq<Seq<char>> {
    words_from(s, 0)
}

/// Whether `c` is one of the digits 0 to 9.
pub open spec fn is_digit(c: char) -> bool {
    '0' <= c <= '9'
}

/// The value of the digit `c`.
pub open spec fn digit_value(c: char) -> nat {
    (c as int - '0' as int) as nat
}

/// The number that a run of digits writes in base ten.
pub open spec fn decimal(s: Seq<char>) -> nat
    decreases s.len(),
{
    if s.len() == 0 {
        0
    } else {
        decimal(s.drop_last()) * 10 + digit_value(s.last())
    }
}

/// What is left of `s` without a leading plus sign.
pub open spec fn unsigned_part(s: Seq<char>) -> Seq<char> {
    if s.len() > 0 && s[0] == '+' {
        s.subrange(1, s.len() as int)
    } else {
        s
    }
}

/// The number that `s` writes: an optional plus sign, then one or more
/// digits whose value fits a `usize`. Anything else writes no number.
pub open spec fn number(s: Seq<char>) -> Option<usize> {
    let digits = unsigned_part(s);
    if digits.len() > 0 && (forall|i: int| 0 <= i < digits.len() ==> is_digit(#[trigger] digits[i]))
        && decimal(digits) <= usize::MAX {
        Some(decimal(digits) as usize)
    } else {
        None
    }
}

/// The texts that a sequence of words stands for.
pub open spec fn texts(words: Seq<Vec<char>>) -> Seq<Seq<char>> {
    Seq::new(words.len(), |i: int| words[i]@)
}

/// A word begins at or after the place the search for it starts, holds no
/// white space at its start, and ends after it begins.
pub proof fn lemma_word_bounds(s: Seq<char>, from: int)
    requires
        0 <= from,
    ensures
        from <= word_start(s, from),
        word_start(s, from) < s.len() ==> !is_space(s[word_start(s, from)]) && word_start(s, from)
            < word_end(s, word_start(s, from)) <= s.len(),
    decreases s.len() - from,
{
    if from < s.len() && is_space(s[from]) {
        lemma_word_bounds(s, from + 1);
    } else if from < s.len() {
        lemma_word_end_bounds(s, from + 1);
    }
}

/// A word ends at or after the place the search for its end starts, and
/// within `s` if the search starts there.
pub proof fn lemma_word_end_bounds(s: Seq<char>, from: int)
    requires
        0 <= from <= s.len(),
    ensures
        from <= word_end(s, from) <= s.len(),
    decreases s.len() - from,
{
    if from < s.len() && !is_space(s[from]) {
        lemma_word_end_bounds(s, from + 1);
    }
}

/// Every word is made of one character or more, none of them white space.
pub proof fn lemma_words_are_solid(s: Seq<char>, from: int)
    requires
        0 <= from,
    ensures
        forall|i: int|
            0 <= i < words_from(s, from).len() ==> (#[trigger] words_from(s, from)[i]).len() > 0,
        forall|i: int, j: int|
            0 <= i < words_from(s, from).len() && 0 <= j < words_from(s, from)[i].len()
                ==> !is_space(#[trigger] words_from(s, from)[i][j]),
    decreases s.len() - from,
{
    let start = word_start(s, from);
    let end = word_end(s, start);
    lemma_word_bounds(s, from);
    if start < s.len() {
        lemma_words_are_solid(s, end);
        lemma_word_holds_no_space(s, start, end);
        let rest = words_from(s, end);
        let all = words_from(s, from);
        assert(all == seq![s.subrange(start, end)] + rest);
        assert forall|i: int| 0 <= i < all.len() implies (#[trigger] all[i]).len() > 0 by {
            if i > 0 {
                assert(all[i] == rest[i - 1]);
            }
        }
        assert forall|i: int, j: int|
            0 <= i < all.len() && 0 <= j < all[i].len() implies !is_space(#[trigger] all[i][j]) by {
            if i > 0 {
                assert(all[i] == rest[i - 1]);
                assert(!is_space(rest[i - 1][j]));
            }
        }
    }
}

/// No character between the start of a word and its end is white space.
pub proof fn lemma_word_holds_no_space(s: Seq<char>, start: int, end: int)
    requires
        0 <= start <= s.len(),
        end == word_end(s, start),
    ensures
        forall|j: int| start <= j < end ==> !is_space(#[trigger] s[j]),
    decreases s.len() - start,
{
    if start < s.len() && !is_space(s[start]) {
        lemma_word_holds_no_space(s, start + 1, end);
    }
}

/// A number never shrinks when digits are written after it.
pub proof fn lemma_decimal_grows(s: Seq<char>, n: int)
    requires
        0 <= n <= s.len(),
    ensures
        decimal(s.take(n)) <= decimal(s),
    decreases s.len(),
{
    if n < s.len() {
        assert(s.drop_last().take(n) =~= s.take(n));
        lemma_decimal_grows(s.drop_last(), n);
    } else {
        assert(s.take(n) =~= s);
    }
}

/// Whether `c` is white space.
pub fn is_whitespace(c: char) -> (r: bool)
    ensures
        r == is_space(c),
{
    ('\u{9}' <= c && c <= '\u{d}') || c == ' ' || c == '\u{85}' || c == '\u{a0}' || c
        == '\u{1680}' || ('\u{2000}' <= c && c <= '\u{200a}') || c == '\u{2028}' || c
        == '\u{2029}' || c == '\u{202f}' || c == '\u{205f}' || c == '\u{3000}'
}

/// The characters of `s`.
pub fn to_chars(s: &str) -> (r: Vec<char>)
    ensures
        r@ == s@,
{
    let mut r: Vec<char> = Vec::new();
    for c in it: s.chars()
        invariant
            it.seq() == s@,
            r@ == s@.take(it.index() as int),
    {
        r.push(c);
        assert(r@ =~= s@.take(it.index() + 1));
    }
    assert(r@ =~= s@);
    r
}

/// Splits `s` into its words.
pub fn split_words(s: &Vec<char>) -> (r: Vec<Vec<char>>)
    ensures
        texts(r@) == words(s@),
{
    let mut r: Vec<Vec<char>> = Vec::new();
    let mut pos: usize = 0;
    assert(texts(r@) + words_from(s@, 0) =~= words(s@));
    loop
        invariant
            pos <= s.len(),
            texts(r@) + words_from(s@, pos as int) == words(s@),
        ensures
            texts(r@) == words(s@),
        decreases s.len() - pos,
    {
        let mut start: usize = pos;
        while start < s.len() && is_whitespace(s[start])
            invariant
                pos <= start <= s.len(),
                word_start(s@, start as int) == word_start(s@, pos as int),
            decreases s.len() - start,
        {
            start += 1;
        }
        if start >= s.len() {
            assert(texts(r@) + Seq::<Seq<char>>::empty() =~= texts(r@));
            break;
        }
        let mut word: Vec<char> = Vec::new();
        let mut end: usize = start;
        while end < s.len() && !is_whitespace(s[end])
            invariant
                start <= end <= s.len(),
                word_end(s@, end as int) == word_end(s@, start as int),
                word@ == s@.subrange(start as int, end as int),
            decreases s.len() - end,
        {
            word.push(s[end]);
            end += 1;
            assert(word@ =~= s@.subrange(start as int, end as int));
        }
        proof {
            let before = texts(r@);
            let rest = words_from(s@, end as int);
            assert(words_from(s@, pos as int) == seq![word@] + rest);
            assert(texts(r@.push(word)) =~= before.push(word@));
            assert(before.push(word@) + rest =~= before + (seq![word@] + rest));
        }
        r.push(word);
        pos = end;
    }
    r
}

/// Reads the number that `s` writes.
pub fn parse_number(s: &Vec<char>) -> (r: Option<usize>)
    ensures
        r == number(s@),
{
    let first: usize = if s.len() > 0 && s[0] == '+' {
        1
    } else {
        0
    };
    let ghost digits = unsigned_part(s@);
    if first >= s.len() {
        return None;
    }
    let mut value: usize = 0;
    let mut i: usize = first;
    while i < s.len()
        invariant
            first <= i <= s.len(),
            digits == unsigned_part(s@),
            digits == s@.subrange(first as int, s.len() as int),
            forall|j: int| 0 <= j < i - first ==> is_digit(#[trigger] digits[j]),
            value == decimal(digits.take(i - first)),
        decreases s.len() - i,
    {
        let c = s[i];
        assert(c == digits[i - first]);
        if !('0' <= c && c <= '9') {
            assert(!is_digit(digits[i - first]));
            return None;
        }
        let d = (c as u32 - '0' as u32) as usize;
        proof {
            let longer = digits.take(i - first + 1);
            assert(longer.drop_last() =~= digits.take(i - first));
            assert(longer.last() == c);
            assert(decimal(longer) == value * 10 + d);
            lemma_decimal_grows(digits, i - first + 1);
        }
        let scaled = match value.checked_mul(10) {
            Some(v) => v,
            None => {
                assert(decimal(digits) > usize::MAX);
                return None;
            },
        };
        value = match scaled.checked_add(d) {
            Some(v) => v,
            None => {
                assert(decimal(digits) > usize::MAX);
                return None;
            },
        };
        i += 1;
    }
    assert(digits.take(i - first) =~= digits);
    Some(value)
}

} // verus!
