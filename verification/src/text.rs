//! Character-level building blocks: white space, scanning by position,
//! decimal numerals, and conversions between strings and character vectors.

use vstd::prelude::*;

verus! {

/// Whether `c` is a Unicode white-space character.
pub open spec fn is_space(c: char) -> bool {
    let v = c as u32;
    (0x09 <= v && v <= 0x0D) || v == 0x20 || v == 0x85 || v == 0xA0 || v == 0x1680 || (0x2000 <= v
        && v <= 0x200A) || v == 0x2028 || v == 0x2029 || v == 0x202F || v == 0x205F || v == 0x3000
}

/// The first position at or after `pos` that holds no white space
/// (`s.len()` when only white space follows).
pub open spec fn skip_spaces(s: Seq<char>, pos: int) -> int
    decreases s.len() - pos,
{
    if 0 <= pos < s.len() && is_space(s[pos]) {
        skip_spaces(s, pos + 1)
    } else {
        pos
    }
}

/// The end of `s[from..end]` once its trailing white space is cut off.
pub open spec fn trim_end(s: Seq<char>, from: int, end: int) -> int
    decreases end - from,
{
    if 0 <= from < end <= s.len() && is_space(s[end - 1]) {
        trim_end(s, from, end - 1)
    } else {
        end
    }
}

/// The first position at or after `pos` that holds `c`
/// (`s.len()` when `c` does not occur there).
pub open spec fn find_char(s: Seq<char>, c: char, pos: int) -> int
    decreases s.len() - pos,
{
    if 0 <= pos < s.len() && s[pos] != c {
        find_char(s, c, pos + 1)
    } else {
        pos
    }
}

/// The first position `p` at or after `pos` with `s[p] == a` and
/// `s[p + 1] == b` (`s.len()` when the pair does not occur there).
pub open spec fn find_pair(s: Seq<char>, a: char, b: char, pos: int) -> int
    decreases s.len() - pos,
{
    if pos < 0 || pos >= s.len() {
        s.len() as int
    } else if pos + 1 < s.len() && s[pos] == a && s[pos + 1] == b {
        pos
    } else {
        find_pair(s, a, b, pos + 1)
    }
}

/// Whether `pat` stands in `s` at position `pos`.
pub open spec fn has_prefix_at(s: Seq<char>, pos: int, pat: Seq<char>) -> bool {
    0 <= pos && pos + pat.len() <= s.len() && s.subrange(pos, pos + pat.len()) == pat
}

/// Whether `s[from..to]` holds a white-space character.
pub open spec fn has_space(s: Seq<char>, from: int, to: int) -> bool {
    exists|k: int| from <= k < to && 0 <= k < s.len() && is_space(#[trigger] s[k])
}

/// All the pieces of `parts`, one after the other.
pub open spec fn concat_all(parts: Seq<Seq<char>>) -> Seq<char>
    decreases parts.len(),
{
    if parts.len() == 0 {
        Seq::<char>::empty()
    } else {
        concat_all(parts.drop_last()) + parts.last()
    }
}

/// The texts of `names`, one by one.
pub open spec fn texts(names: Seq<String>) -> Seq<Seq<char>> {
    Seq::new(names.len(), |i: int| names[i]@)
}

/// The character of the decimal digit `d`.
pub open spec fn digit(d: nat) -> char {
    if d == 0 {
        '0'
    } else if d == 1 {
        '1'
    } else if d == 2 {
        '2'
    } else if d == 3 {
        '3'
    } else if d == 4 {
        '4'
    } else if d == 5 {
        '5'
    } else if d == 6 {
        '6'
    } else if d == 7 {
        '7'
    } else if d == 8 {
        '8'
    } else {
        '9'
    }
}

/// The decimal numeral of `n`, without leading zeros.
pub open spec fn decimal(n: nat) -> Seq<char>
    decreases n,
{
    if n < 10 {
        seq![digit(n)]
    } else {
        decimal(n / 10).push(digit(n % 10))
    }
}

/// `skip_spaces` moves forward only, stays inside the text, passes over
/// white space alone and stops at the first other character.
pub proof fn lemma_skip_spaces(s: Seq<char>, pos: int)
    requires
        0 <= pos <= s.len(),
    ensures
        pos <= skip_spaces(s, pos) <= s.len(),
        forall|k: int| pos <= k < skip_spaces(s, pos) ==> is_space(#[trigger] s[k]),
        skip_spaces(s, pos) < s.len() ==> !is_space(s[skip_spaces(s, pos)]),
    decreases s.len() - pos,
{
    if pos < s.len() && is_space(s[pos]) {
        lemma_skip_spaces(s, pos + 1);
    }
}

/// `find_char` returns the first occurrence at or after `pos`, or the length.
pub proof fn lemma_find_char(s: Seq<char>, c: char, pos: int)
    requires
        0 <= pos <= s.len(),
    ensures
        pos <= find_char(s, c, pos) <= s.len(),
        forall|k: int| pos <= k < find_char(s, c, pos) ==> #[trigger] s[k] != c,
        find_char(s, c, pos) < s.len() ==> s[find_char(s, c, pos)] == c,
    decreases s.len() - pos,
{
    if pos < s.len() && s[pos] != c {
        lemma_find_char(s, c, pos + 1);
    }
}

/// `find_pair` returns the first occurrence of the pair at or after `pos`,
/// or the length.
pub proof fn lemma_find_pair(s: Seq<char>, a: char, b: char, pos: int)
    requires
        0 <= pos <= s.len(),
    ensures
        pos <= find_pair(s, a, b, pos) <= s.len(),
        forall|k: int|
            pos <= k < find_pair(s, a, b, pos) && k + 1 < s.len() ==> !(#[trigger] s[k] == a && s[k
                + 1] == b),
        find_pair(s, a, b, pos) < s.len() ==> find_pair(s, a, b, pos) + 1 < s.len() && s[find_pair(
            s,
            a,
            b,
            pos,
        )] == a && s[find_pair(s, a, b, pos) + 1] == b,
    decreases s.len() - pos,
{
    if pos < s.len() && !(pos + 1 < s.len() && s[pos] == a && s[pos + 1] == b) {
        lemma_find_pair(s, a, b, pos + 1);
    }
}

/// Taking one more piece appends it to what the pieces before it gave.
pub proof fn lemma_concat_all_step(parts: Seq<Seq<char>>, n: int)
    requires
        0 <= n < parts.len(),
    ensures
        concat_all(parts.take(n + 1)) == concat_all(parts.take(n)) + parts[n],
{
    assert(parts.take(n + 1).drop_last() =~= parts.take(n));
}

/// Whether `c` is a Unicode white-space character.
pub fn char_is_space(c: char) -> (b: bool)
    ensures
        b == is_space(c),
{
    let v: u32 = c as u32;
    (0x09 <= v && v <= 0x0D) || v == 0x20 || v == 0x85 || v == 0xA0 || v == 0x1680 || (0x2000 <= v
        && v <= 0x200A) || v == 0x2028 || v == 0x2029 || v == 0x202F || v == 0x205F || v == 0x3000
}

/// Appends one character with `String::push`: the text grows by exactly
/// that character at its end.
#[verifier::external_body]
pub(crate) fn push_char(s: &mut String, c: char)
    ensures
        final(s)@ == old(s)@.push(c),
{
    s.push(c)
}

/// The characters of `s`, in order.
pub fn to_chars(s: &str) -> (v: Vec<char>)
    ensures
        v@ == s@,
{
    let mut v: Vec<char> = Vec::new();
    for c in it: s.chars()
        invariant
            v@ == it.seq().take(it.index() as int),
            it.seq() == s@,
    {
        v.push(c);
    }
    v
}

/// The text `v[from..to]`.
pub(crate) fn string_of_range(v: &Vec<char>, from: usize, to: usize) -> (s: String)
    requires
        from <= to <= v.len(),
    ensures
        s@ == v@.subrange(from as int, to as int),
{
    let mut s = String::new();
    let mut i: usize = from;
    while i < to
        invariant
            from <= i <= to <= v.len(),
            s@ == v@.subrange(from as int, i as int),
        decreases to - i,
    {
        push_char(&mut s, v[i]);
        i += 1;
        assert(s@ =~= v@.subrange(from as int, i as int));
    }
    s
}

pub(crate) fn skip_spaces_at(v: &Vec<char>, pos: usize) -> (p: usize)
    requires
        pos <= v.len(),
    ensures
        p == skip_spaces(v@, pos as int),
        pos <= p <= v.len(),
{
    let mut i: usize = pos;
    while i < v.len() && char_is_space(v[i])
        invariant
            pos <= i <= v.len(),
            skip_spaces(v@, pos as int) == skip_spaces(v@, i as int),
        decreases v.len() - i,
    {
        i += 1;
    }
    i
}

pub(crate) fn trim_end_at(v: &Vec<char>, from: usize, end: usize) -> (e: usize)
    requires
        from <= end <= v.len(),
    ensures
        e == trim_end(v@, from as int, end as int),
        from <= e <= end,
{
    let mut i: usize = end;
    while from < i && char_is_space(v[i - 1])
        invariant
            from <= i <= end <= v.len(),
            trim_end(v@, from as int, end as int) == trim_end(v@, from as int, i as int),
        decreases i,
    {
        i -= 1;
    }
    i
}

pub(crate) fn find_char_at(v: &Vec<char>, c: char, pos: usize) -> (p: usize)
    requires
        pos <= v.len(),
    ensures
        p == find_char(v@, c, pos as int),
        pos <= p <= v.len(),
{
    let mut i: usize = pos;
    while i < v.len() && v[i] != c
        invariant
            pos <= i <= v.len(),
            find_char(v@, c, pos as int) == find_char(v@, c, i as int),
        decreases v.len() - i,
    {
        i += 1;
    }
    i
}

pub(crate) fn find_pair_at(v: &Vec<char>, a: char, b: char, pos: usize) -> (p: usize)
    requires
        pos <= v.len(),
    ensures
        p == find_pair(v@, a, b, pos as int),
        pos <= p <= v.len(),
{
    let mut i: usize = pos;
    while i < v.len()
        invariant
            pos <= i <= v.len(),
            find_pair(v@, a, b, pos as int) == find_pair(v@, a, b, i as int),
        decreases v.len() - i,
    {
        if i + 1 < v.len() && v[i] == a && v[i + 1] == b {
            return i;
        }
        i += 1;
    }
    i
}

pub(crate) fn starts_with_at(v: &Vec<char>, pos: usize, pat: &Vec<char>) -> (b: bool)
    requires
        pos <= v.len(),
    ensures
        b == has_prefix_at(v@, pos as int, pat@),
{
    if pat.len() > v.len() - pos {
        return false;
    }
    let mut i: usize = 0;
    while i < pat.len()
        invariant
            pos + pat.len() <= v.len(),
            i <= pat.len(),
            forall|k: int| 0 <= k < i ==> v@[pos + k] == pat@[k],
        decreases pat.len() - i,
    {
        if v[pos + i] != pat[i] {
            assert(v@.subrange(pos as int, pos + pat.len())[i as int] == v@[pos + i]);
            return false;
        }
        i += 1;
    }
    assert(v@.subrange(pos as int, pos + pat.len()) =~= pat@);
    true
}

pub(crate) fn contains_space(v: &Vec<char>, from: usize, to: usize) -> (b: bool)
    requires
        from <= to <= v.len(),
    ensures
        b == has_space(v@, from as int, to as int),
{
    let mut i: usize = from;
    while i < to
        invariant
            from <= i <= to <= v.len(),
            !has_space(v@, from as int, i as int),
        decreases to - i,
    {
        if char_is_space(v[i]) {
            return true;
        }
        i += 1;
    }
    false
}

pub(crate) fn digit_char(d: usize) -> (c: char)
    requires
        d < 10,
    ensures
        c == digit(d as nat),
{
    if d == 0 {
        '0'
    } else if d == 1 {
        '1'
    } else if d == 2 {
        '2'
    } else if d == 3 {
        '3'
    } else if d == 4 {
        '4'
    } else if d == 5 {
        '5'
    } else if d == 6 {
        '6'
    } else if d == 7 {
        '7'
    } else if d == 8 {
        '8'
    } else {
        '9'
    }
}

/// Appends the decimal numeral of `n`.
pub fn push_decimal(out: &mut String, n: usize)
    ensures
        final(out)@ == old(out)@ + decimal(n as nat),
    decreases n,
{
    if n >= 10 {
        push_decimal(out, n / 10);
    }
    push_char(out, digit_char(n % 10));
    assert(out@ =~= old(out)@ + decimal(n as nat));
}

} // verus!
