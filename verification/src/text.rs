//! Character classes, text scans and small string builders.
//!
//! Everything the pattern matchers need is defined here over `Seq<char>`:
//! character classes, first/last occurrence scans, and lowercasing and
//! backslash stripping of whole strings.  The executable functions work on
//! `Vec<char>` so that indexing is cheap; `chars_of` and `string_of` move
//! between `str` and `Vec<char>`.

use vstd::prelude::*;
use vstd::string::StrSliceExecFns;

verus! {

/// An ASCII decimal digit.
pub open spec fn is_digit(c: char) -> bool {
    48 <= c as u32 && c as u32 <= 57
}

/// A word character: ASCII letter, digit or underscore.
pub open spec fn is_word_char(c: char) -> bool {
    ||| is_digit(c)
    ||| 97 <= c as u32 && c as u32 <= 122
    ||| 65 <= c as u32 && c as u32 <= 90
    ||| c == '_'
}

/// ASCII whitespace, the characters trimmed from header tokens.
pub open spec fn is_space(c: char) -> bool {
    c == ' ' || c == '\t' || c == '\r' || c == '\n'
}

pub fn digit_check(c: char) -> (r: bool)
    ensures
        r == is_digit(c),
{
    let u = c as u32;
    48 <= u && u <= 57
}

pub fn word_char_check(c: char) -> (r: bool)
    ensures
        r == is_word_char(c),
{
    let u = c as u32;
    (48 <= u && u <= 57) || (97 <= u && u <= 122) || (65 <= u && u <= 90) || c == '_'
}

pub fn space_check(c: char) -> (r: bool)
    ensures
        r == is_space(c),
{
    c == ' ' || c == '\t' || c == '\r' || c == '\n'
}

/// The ASCII lowercase counterpart of a character; anything that is not an
/// ASCII capital letter is left alone.
pub open spec fn lower_char(c: char) -> char {
    match c {
        'A' => 'a',
        'B' => 'b',
        'C' => 'c',
        'D' => 'd',
        'E' => 'e',
        'F' => 'f',
        'G' => 'g',
        'H' => 'h',
        'I' => 'i',
        'J' => 'j',
        'K' => 'k',
        'L' => 'l',
        'M' => 'm',
        'N' => 'n',
        'O' => 'o',
        'P' => 'p',
        'Q' => 'q',
        'R' => 'r',
        'S' => 's',
        'T' => 't',
        'U' => 'u',
        'V' => 'v',
        'W' => 'w',
        'X' => 'x',
        'Y' => 'y',
        'Z' => 'z',
        _ => c,
    }
}

pub fn lower_char_of(c: char) -> (r: char)
    ensures
        r == lower_char(c),
{
    match c {
        'A' => 'a',
        'B' => 'b',
        'C' => 'c',
        'D' => 'd',
        'E' => 'e',
        'F' => 'f',
        'G' => 'g',
        'H' => 'h',
        'I' => 'i',
        'J' => 'j',
        'K' => 'k',
        'L' => 'l',
        'M' => 'm',
        'N' => 'n',
        'O' => 'o',
        'P' => 'p',
        'Q' => 'q',
        'R' => 'r',
        'S' => 's',
        'T' => 't',
        'U' => 'u',
        'V' => 'v',
        'W' => 'w',
        'X' => 'x',
        'Y' => 'y',
        'Z' => 'z',
        _ => c,
    }
}

/// The string with every character ASCII-lowercased.
pub open spec fn lower_of(s: Seq<char>) -> Seq<char>
    decreases s.len(),
{
    if s.len() == 0 {
        Seq::empty()
    } else {
        lower_of(s.drop_last()).push(lower_char(s.last()))
    }
}

/// The string with every backslash character removed.
pub open spec fn strip_backslashes_of(s: Seq<char>) -> Seq<char>
    decreases s.len(),
{
    if s.len() == 0 {
        Seq::empty()
    } else if s.last() == '\\' {
        strip_backslashes_of(s.drop_last())
    } else {
        strip_backslashes_of(s.drop_last()).push(s.last())
    }
}

/// The pattern `p` occurs in `s` starting at index `i`.
pub open spec fn matches_at(s: Seq<char>, p: Seq<char>, i: int) -> bool {
    &&& 0 <= i
    &&& i + p.len() <= s.len()
    &&& s.subrange(i, i + p.len() as int) == p
}

/// Every character of `s` in `[i, j)` is a decimal digit.
pub open spec fn digits_in(s: Seq<char>, i: int, j: int) -> bool {
    forall|k: int| i <= k < j ==> is_digit(s[k])
}

/// Every character of `s` in `[i, j)` is a word character.
pub open spec fn word_chars_in(s: Seq<char>, i: int, j: int) -> bool {
    forall|k: int| i <= k < j ==> is_word_char(s[k])
}

/// No character of `s` in `[i, j)` equals `c`.
pub open spec fn free_of(s: Seq<char>, c: char, i: int, j: int) -> bool {
    forall|k: int| i <= k < j ==> s[k] != c
}

/// The first index at or after `from` where `c` occurs, if any.
pub open spec fn first_ch(s: Seq<char>, c: char, from: int) -> Option<int>
    decreases s.len() - from,
{
    if from < 0 || from >= s.len() {
        None
    } else if s[from] == c {
        Some(from)
    } else {
        first_ch(s, c, from + 1)
    }
}

/// The first index at or after `from` where the pattern `p` occurs, if any.
pub open spec fn first_occurrence(s: Seq<char>, p: Seq<char>, from: int) -> Option<int>
    decreases s.len() + 1 - from,
{
    if from < 0 || from + p.len() > s.len() {
        None
    } else if matches_at(s, p, from) {
        Some(from)
    } else {
        first_occurrence(s, p, from + 1)
    }
}

/// The last index strictly before `end` where `c` occurs, if any.
pub open spec fn last_ch_before(s: Seq<char>, c: char, end: int) -> Option<int>
    decreases end,
{
    if end <= 0 || end > s.len() {
        None
    } else if s[end - 1] == c {
        Some(end - 1)
    } else {
        last_ch_before(s, c, end - 1)
    }
}

/// What `first_ch` returns: the least occurrence index, or a guarantee
/// that the character is absent from the searched range.
pub proof fn lemma_first_ch(s: Seq<char>, c: char, from: int)
    requires
        0 <= from <= s.len(),
    ensures
        match first_ch(s, c, from) {
            Some(i) => from <= i < s.len() && s[i] == c && free_of(s, c, from, i),
            None => free_of(s, c, from, s.len() as int),
        },
    decreases s.len() - from,
{
    if from < s.len() && s[from] != c {
        lemma_first_ch(s, c, from + 1);
    }
}

/// What `first_occurrence` returns: the least match index, or a guarantee
/// that the pattern does not occur at or after `from`.
pub proof fn lemma_first_occurrence(s: Seq<char>, p: Seq<char>, from: int)
    requires
        0 <= from,
    ensures
        match first_occurrence(s, p, from) {
            Some(i) => from <= i && matches_at(s, p, i) && (forall|j: int|
                from <= j < i ==> !matches_at(s, p, j)),
            None => forall|j: int| from <= j ==> !matches_at(s, p, j),
        },
    decreases s.len() + 1 - from,
{
    if from + p.len() > s.len() {
        assert forall|j: int| from <= j implies !matches_at(s, p, j) by {}
    } else if !matches_at(s, p, from) {
        lemma_first_occurrence(s, p, from + 1);
    }
}

/// What `last_ch_before` returns: the greatest occurrence index below
/// `end`, or a guarantee that the character is absent below `end`.
pub proof fn lemma_last_ch_before(s: Seq<char>, c: char, end: int)
    requires
        0 <= end <= s.len(),
    ensures
        match last_ch_before(s, c, end) {
            Some(i) => 0 <= i < end && s[i] == c && free_of(s, c, i + 1, end),
            None => free_of(s, c, 0, end),
        },
    decreases end,
{
    if end > 0 && s[end - 1] != c {
        lemma_last_ch_before(s, c, end - 1);
    }
}

/// An executable index answer agrees with a ghost scan result.
pub open spec fn same_index(r: Option<usize>, o: Option<int>) -> bool {
    match (r, o) {
        (Some(a), Some(b)) => a as int == b,
        (None, None) => true,
        _ => false,
    }
}

/// The characters of a string, in order.
pub fn chars_of(s: &str) -> (r: Vec<char>)
    ensures
        r@ == s@,
{
    let n = s.unicode_len();
    let mut r: Vec<char> = Vec::new();
    let mut i: usize = 0;
    while i < n
        invariant
            i <= n,
            n == s@.len(),
            r@ == s@.take(i as int),
        decreases n - i,
    {
        let c = s.get_char(i);
        r.push(c);
        i += 1;
        assert(r@ =~= s@.take(i as int));
    }
    assert(r@ =~= s@);
    r
}

/// Relies on String::push: appends exactly one character at the end.
#[verifier::external_body]
pub fn push_char(s: &mut String, c: char)
    ensures
        final(s)@ == old(s)@ + seq![c],
{
    s.push(c);
}

/// A string holding exactly the given characters, in order.
pub fn string_of(v: &Vec<char>) -> (r: String)
    ensures
        r@ == v@,
{
    let mut r = String::new();
    let mut i: usize = 0;
    while i < v.len()
        invariant
            i <= v.len(),
            r@ == v@.take(i as int),
        decreases v.len() - i,
    {
        push_char(&mut r, v[i]);
        i += 1;
        assert(r@ =~= v@.take(i as int));
    }
    assert(r@ =~= v@);
    r
}

/// The ASCII-lowercased copy of a string.
pub fn lowercased(s: &str) -> (r: String)
    ensures
        r@ == lower_of(s@),
{
    let v = chars_of(s);
    let mut r = String::new();
    let mut i: usize = 0;
    while i < v.len()
        invariant
            i <= v.len(),
            v@ == s@,
            r@ == lower_of(s@.take(i as int)),
        decreases v.len() - i,
    {
        let c = lower_char_of(v[i]);
        push_char(&mut r, c);
        i += 1;
        assert(s@.take(i as int).drop_last() =~= s@.take(i - 1));
        assert(r@ =~= lower_of(s@.take(i as int)));
    }
    assert(s@.take(v.len() as int) =~= s@);
    r
}

/// The copy of a string with every backslash removed.
pub fn without_backslashes(s: &str) -> (r: String)
    ensures
        r@ == strip_backslashes_of(s@),
{
    let v = chars_of(s);
    let mut r = String::new();
    let mut i: usize = 0;
    while i < v.len()
        invariant
            i <= v.len(),
            v@ == s@,
            r@ == strip_backslashes_of(s@.take(i as int)),
        decreases v.len() - i,
    {
        let c = v[i];
        if c != '\\' {
            push_char(&mut r, c);
        }
        i += 1;
        assert(s@.take(i as int).drop_last() =~= s@.take(i - 1));
        assert(s@.take(i as int).last() == s@[i - 1]);
        if c != '\\' {
            assert(r@ =~= strip_backslashes_of(s@.take(i as int)));
        }
    }
    assert(s@.take(v.len() as int) =~= s@);
    r
}

/// Whether the pattern occurs at the given index.
pub fn check_match_at(v: &Vec<char>, p: &Vec<char>, i: usize) -> (r: bool)
    ensures
        r == matches_at(v@, p@, i as int),
{
    if i > v.len() || v.len() - i < p.len() {
        return false;
    }
    let mut k: usize = 0;
    while k < p.len()
        invariant
            k <= p.len(),
            i + p.len() <= v.len(),
            forall|j: int| 0 <= j < k ==> v@[i + j] == p@[j],
        decreases p.len() - k,
    {
        if v[i + k] != p[k] {
            assert(v@.subrange(i as int, i + p@.len() as int)[k as int] != p@[k as int]);
            return false;
        }
        k += 1;
    }
    assert(v@.subrange(i as int, i + p@.len() as int) =~= p@);
    true
}

/// The first occurrence of a character at or after `from`.
pub fn find_ch(v: &Vec<char>, c: char, from: usize) -> (r: Option<usize>)
    ensures
        same_index(r, first_ch(v@, c, from as int)),
{
    let mut i: usize = from;
    if i > v.len() {
        return None;
    }
    while i < v.len()
        invariant
            from <= i <= v.len(),
            first_ch(v@, c, from as int) == first_ch(v@, c, i as int),
        decreases v.len() - i,
    {
        if v[i] == c {
            return Some(i);
        }
        i += 1;
    }
    None
}

/// The first occurrence of a pattern at or after `from`.
pub fn find_seq(v: &Vec<char>, p: &Vec<char>, from: usize) -> (r: Option<usize>)
    requires
        p.len() >= 1,
    ensures
        same_index(r, first_occurrence(v@, p@, from as int)),
{
    if p.len() > v.len() || from > v.len() - p.len() {
        return None;
    }
    let bound = v.len() - p.len();
    let mut i: usize = from;
    while i <= bound
        invariant
            from <= i <= bound + 1,
            1 <= p.len() <= v.len(),
            bound == v.len() - p.len(),
            first_occurrence(v@, p@, from as int) == first_occurrence(v@, p@, i as int),
        decreases bound + 1 - i,
    {
        if check_match_at(v, p, i) {
            return Some(i);
        }
        i += 1;
    }
    None
}

/// The last occurrence of a character strictly before `end`.
pub fn rfind_ch_before(v: &Vec<char>, c: char, end: usize) -> (r: Option<usize>)
    ensures
        same_index(r, last_ch_before(v@, c, end as int)),
{
    if end > v.len() {
        return None;
    }
    let mut i: usize = end;
    while i > 0
        invariant
            i <= end <= v.len(),
            last_ch_before(v@, c, end as int) == last_ch_before(v@, c, i as int),
        decreases i,
    {
        if v[i - 1] == c {
            return Some(i - 1);
        }
        i -= 1;
    }
    None
}

/// Whether every character in `[i, j)` is a decimal digit.
pub fn check_digits_in(v: &Vec<char>, i: usize, j: usize) -> (r: bool)
    requires
        i <= j <= v.len(),
    ensures
        r == digits_in(v@, i as int, j as int),
{
    let mut k: usize = i;
    while k < j
        invariant
            i <= k <= j <= v.len(),
            digits_in(v@, i as int, k as int),
        decreases j - k,
    {
        if !digit_check(v[k]) {
            return false;
        }
        k += 1;
    }
    true
}

/// A copy of a list of strings.
pub fn clone_strings(v: &Vec<String>) -> (r: Vec<String>)
    ensures
        r@ == v@,
{
    let mut r: Vec<String> = Vec::new();
    let mut i: usize = 0;
    while i < v.len()
        invariant
            i <= v.len(),
            r@ == v@.take(i as int),
        decreases v.len() - i,
    {
        r.push(v[i].clone());
        i += 1;
        assert(r@ =~= v@.take(i as int));
    }
    assert(v@.take(v.len() as int) =~= v@);
    r
}

/// Whether some element of the list equals the given string.
pub fn contains_string(v: &Vec<String>, s: &String) -> (r: bool)
    ensures
        r == exists|k: int| 0 <= k < v@.len() && (#[trigger] v@[k])@ == s@,
{
    let mut k: usize = 0;
    while k < v.len()
        invariant
            k <= v.len(),
            forall|j: int| 0 <= j < k ==> (#[trigger] v@[j])@ != s@,
        decreases v.len() - k,
    {
        if v[k] == *s {
            return true;
        }
        k += 1;
    }
    false
}

/// Whether every character in `[i, j)` is a word character.
pub fn check_word_chars_in(v: &Vec<char>, i: usize, j: usize) -> (r: bool)
    requires
        i <= j <= v.len(),
    ensures
        r == word_chars_in(v@, i as int, j as int),
{
    let mut k: usize = i;
    while k < j
        invariant
            i <= k <= j <= v.len(),
            word_chars_in(v@, i as int, k as int),
        decreases j - k,
    {
        if !word_char_check(v[k]) {
            return false;
        }
        k += 1;
    }
    true
}

} // verus!
