//! One line of a weapon script: does it open with a given key, which token
//! holds its value, and what the line looks like with another value.

use crate::text::char_is_space;
use crate::text::is_space;
use vstd::prelude::*;

verus! {

/// The first position at or after `i` that holds no whitespace, or the end
/// of `s`.
pub open spec fn skip_spaces(s: Seq<char>, i: int) -> int
    decreases s.len() - i,
{
    if 0 <= i < s.len() && is_space(s[i]) {
        skip_spaces(s, i + 1)
    } else {
        i
    }
}

/// The first position at or after `i` that holds whitespace, or the end of
/// `s`.
pub open spec fn skip_word(s: Seq<char>, i: int) -> int
    decreases s.len() - i,
{
    if 0 <= i < s.len() && !is_space(s[i]) {
        skip_word(s, i + 1)
    } else {
        i
    }
}

/// The position just behind the last character of `s` that is no
/// whitespace; 0 where `s` holds nothing else.
pub open spec fn content_end(s: Seq<char>) -> int
    decreases s.len(),
{
    if s.len() > 0 && is_space(s.last()) {
        content_end(s.drop_last())
    } else {
        s.len() as int
    }
}

/// `s` without the whitespace at its two ends.
pub open spec fn trimmed(s: Seq<char>) -> Seq<char> {
    let a = skip_spaces(s, 0);
    let b = content_end(s);
    if a <= b {
        s.subrange(a, b)
    } else {
        Seq::empty()
    }
}

/// Whether the trimmed line opens with `key`.
pub open spec fn starts_with(line: Seq<char>, key: Seq<char>) -> bool {
    key.is_prefix_of(trimmed(line))
}

/// Where the value token of `line` begins: its second run of characters
/// that are no whitespace. Equal to the line's length where there is none.
pub open spec fn value_start(line: Seq<char>) -> int {
    skip_spaces(line, skip_word(line, skip_spaces(line, 0)))
}

/// Where the value token of `line` ends.
pub open spec fn value_end(line: Seq<char>) -> int {
    skip_word(line, value_start(line))
}

/// Whether `line` has a second token.
pub open spec fn has_value(line: Seq<char>) -> bool {
    value_start(line) < line.len()
}

/// The second whitespace-separated token of `line`.
pub open spec fn value_token(line: Seq<char>) -> Seq<char> {
    line.subrange(value_start(line), value_end(line))
}

/// `s` without its double quotes.
pub open spec fn strip_quotes(s: Seq<char>) -> Seq<char>
    decreases s.len(),
{
    if s.len() == 0 {
        Seq::empty()
    } else if s.last() == '"' {
        strip_quotes(s.drop_last())
    } else {
        strip_quotes(s.drop_last()).push(s.last())
    }
}

/// The value that `line` holds: its second token without quotes.
pub open spec fn field_value(line: Seq<char>) -> Seq<char> {
    strip_quotes(value_token(line))
}

/// Whether `needle` stands in `hay` at position `i`.
pub open spec fn occurs_at(hay: Seq<char>, needle: Seq<char>, i: int) -> bool {
    0 <= i && i + needle.len() <= hay.len() && hay.subrange(i, i + needle.len()) == needle
}

/// The first position at or after `i` where `needle` stands in `hay`, or -1.
pub open spec fn find_from(hay: Seq<char>, needle: Seq<char>, i: int) -> int
    decreases hay.len() - i + 1,
{
    if i < 0 || i + needle.len() > hay.len() {
        -1
    } else if occurs_at(hay, needle, i) {
        i
    } else {
        find_from(hay, needle, i + 1)
    }
}

/// `hay` with the first occurrence of `needle` replaced by `with`; `hay`
/// itself where `needle` does not occur.
pub open spec fn replace_first(hay: Seq<char>, needle: Seq<char>, with: Seq<char>) -> Seq<char> {
    let i = find_from(hay, needle, 0);
    if i < 0 {
        hay
    } else {
        hay.take(i) + with + hay.skip(i + needle.len())
    }
}

/// The value token of `line` after writing `value`: the value sits between
/// the quotes that surrounded the old one.
pub open spec fn new_token(line: Seq<char>, value: Seq<char>) -> Seq<char> {
    replace_first(value_token(line), field_value(line), value)
}

/// `line` with `value` written into its value token. Everything before and
/// behind the token stays as it is. A line without a value token is left
/// unchanged.
pub open spec fn with_value(line: Seq<char>, value: Seq<char>) -> Seq<char> {
    if has_value(line) {
        line.take(value_start(line)) + new_token(line, value) + line.skip(value_end(line))
    } else {
        line
    }
}

/// Executable [`skip_spaces`].
pub(crate) fn skip_spaces_from(s: &Vec<char>, i: usize) -> (j: usize)
    requires
        i <= s.len(),
    ensures
        j == skip_spaces(s@, i as int),
        i <= j <= s.len(),
{
    let mut j: usize = i;
    while j < s.len() && char_is_space(s[j])
        invariant
            i <= j <= s.len(),
            skip_spaces(s@, i as int) == skip_spaces(s@, j as int),
        decreases s.len() - j,
    {
        j += 1;
    }
    j
}

/// Executable [`skip_word`].
pub(crate) fn skip_word_from(s: &Vec<char>, i: usize) -> (j: usize)
    requires
        i <= s.len(),
    ensures
        j == skip_word(s@, i as int),
        i <= j <= s.len(),
{
    let mut j: usize = i;
    while j < s.len() && !char_is_space(s[j])
        invariant
            i <= j <= s.len(),
            skip_word(s@, i as int) == skip_word(s@, j as int),
        decreases s.len() - j,
    {
        j += 1;
    }
    j
}

/// Executable [`content_end`].
pub(crate) fn content_end_of(s: &Vec<char>) -> (b: usize)
    ensures
        b == content_end(s@),
        b <= s.len(),
{
    let mut b: usize = s.len();
    assert(s@.take(b as int) =~= s@);
    while b > 0 && char_is_space(s[b - 1])
        invariant
            b <= s.len(),
            content_end(s@) == content_end(s@.take(b as int)),
        decreases b,
    {
        assert(s@.take(b as int).drop_last() =~= s@.take(b - 1));
        b -= 1;
    }
    b
}

/// Whether the trimmed `line` opens with `key`.
pub fn line_starts_with(line: &Vec<char>, key: &Vec<char>) -> (b: bool)
    ensures
        b == starts_with(line@, key@),
{
    let a = skip_spaces_from(line, 0);
    let e = content_end_of(line);
    if a > e {
        return key.len() == 0;
    }
    if e - a < key.len() {
        return false;
    }
    let ghost t = trimmed(line@);
    let mut k: usize = 0;
    while k < key.len()
        invariant
            a <= e <= line.len(),
            e - a >= key.len(),
            k <= key.len(),
            t == trimmed(line@),
            t == line@.subrange(a as int, e as int),
            forall|j: int| 0 <= j < k ==> key@[j] == t[j],
        decreases key.len() - k,
    {
        if line[a + k] != key[k] {
            assert(t[k as int] != key@[k as int]);
            assert(t.subrange(0, key@.len() as int)[k as int] == t[k as int]);
            return false;
        }
        k += 1;
    }
    assert(key@ =~= t.subrange(0, key@.len() as int));
    true
}

/// A copy of the characters of `s` from `from` up to `to`.
pub(crate) fn slice_of(s: &Vec<char>, from: usize, to: usize) -> (r: Vec<char>)
    requires
        from <= to <= s.len(),
    ensures
        r@ == s@.subrange(from as int, to as int),
{
    let mut r: Vec<char> = Vec::new();
    let mut i: usize = from;
    while i < to
        invariant
            from <= i <= to <= s.len(),
            r@ == s@.subrange(from as int, i as int),
        decreases to - i,
    {
        r.push(s[i]);
        i += 1;
        assert(r@ =~= s@.subrange(from as int, i as int));
    }
    r
}

/// Appends the characters of `s` from `from` up to `to` to `out`.
pub(crate) fn append_slice(out: &mut Vec<char>, s: &Vec<char>, from: usize, to: usize)
    requires
        from <= to <= s.len(),
    ensures
        final(out)@ == old(out)@ + s@.subrange(from as int, to as int),
{
    let mut i: usize = from;
    while i < to
        invariant
            from <= i <= to <= s.len(),
            out@ == old(out)@ + s@.subrange(from as int, i as int),
        decreases to - i,
    {
        out.push(s[i]);
        i += 1;
        assert(out@ =~= old(out)@ + s@.subrange(from as int, i as int));
    }
}

/// Executable [`strip_quotes`].
pub(crate) fn without_quotes(s: &Vec<char>) -> (r: Vec<char>)
    ensures
        r@ == strip_quotes(s@),
{
    let mut r: Vec<char> = Vec::new();
    let mut i: usize = 0;
    while i < s.len()
        invariant
            i <= s.len(),
            r@ == strip_quotes(s@.take(i as int)),
        decreases s.len() - i,
    {
        let c = s[i];
        assert(s@.take(i + 1).drop_last() =~= s@.take(i as int));
        if c != '"' {
            r.push(c);
        }
        i += 1;
    }
    assert(s@.take(s.len() as int) =~= s@);
    r
}

/// Whether `needle` stands in `hay` at position `i`.
pub(crate) fn occurs_at_index(hay: &Vec<char>, needle: &Vec<char>, i: usize) -> (b: bool)
    requires
        i + needle.len() <= hay.len(),
    ensures
        b == occurs_at(hay@, needle@, i as int),
{
    let ghost part = hay@.subrange(i as int, i + needle@.len());
    let mut k: usize = 0;
    while k < needle.len()
        invariant
            i + needle.len() <= hay.len(),
            k <= needle.len(),
            part == hay@.subrange(i as int, i + needle@.len()),
            forall|j: int| 0 <= j < k ==> part[j] == needle@[j],
        decreases needle.len() - k,
    {
        if hay[i + k] != needle[k] {
            assert(part[k as int] != needle@[k as int]);
            return false;
        }
        k += 1;
    }
    assert(part =~= needle@);
    true
}

/// The first position where `needle` stands in `hay`.
pub(crate) fn find_first(hay: &Vec<char>, needle: &Vec<char>) -> (r: Option<usize>)
    ensures
        match r {
            Some(i) => i == find_from(hay@, needle@, 0) && i + needle.len() <= hay.len(),
            None => find_from(hay@, needle@, 0) == -1,
        },
{
    if needle.len() > hay.len() {
        return None;
    }
    let last: usize = hay.len() - needle.len();
    let mut i: usize = 0;
    loop
        invariant
            last == hay.len() - needle.len(),
            i <= last,
            find_from(hay@, needle@, 0) == find_from(hay@, needle@, i as int),
        decreases last - i,
    {
        if occurs_at_index(hay, needle, i) {
            return Some(i);
        }
        if i == last {
            assert(find_from(hay@, needle@, i + 1) == -1);
            return None;
        }
        i += 1;
    }
}

/// Writes `value` into the value token of `line`. `None` where the line has
/// no value token.
pub fn line_with_value(line: &Vec<char>, value: &Vec<char>) -> (r: Option<Vec<char>>)
    ensures
        r is Some <==> has_value(line@),
        r matches Some(l) ==> l@ == with_value(line@, value@),
{
    let a = skip_spaces_from(line, 0);
    let b = skip_word_from(line, a);
    let start = skip_spaces_from(line, b);
    if start >= line.len() {
        return None;
    }
    let end = skip_word_from(line, start);
    let token = slice_of(line, start, end);
    let old_value = without_quotes(&token);
    let mut out = slice_of(line, 0, start);
    match find_first(&token, &old_value) {
        Some(at) => {
            append_slice(&mut out, &token, 0, at);
            append_slice(&mut out, value, 0, value.len());
            append_slice(&mut out, &token, at + old_value.len(), token.len());
            assert(value@.subrange(0, value@.len() as int) =~= value@);
        },
        None => {
            append_slice(&mut out, &token, 0, token.len());
            assert(token@.subrange(0, token@.len() as int) =~= token@);
        },
    }
    append_slice(&mut out, line, end, line.len());
    assert(out@ =~= with_value(line@, value@));
    Some(out)
}

/// The value that `line` holds. `None` where the line has no value token.
pub fn line_value(line: &Vec<char>) -> (r: Option<Vec<char>>)
    ensures
        r is Some <==> has_value(line@),
        r matches Some(v) ==> v@ == field_value(line@),
{
    let a = skip_spaces_from(line, 0);
    let b = skip_word_from(line, a);
    let start = skip_spaces_from(line, b);
    if start >= line.len() {
        return None;
    }
    let end = skip_word_from(line, start);
    let token = slice_of(line, start, end);
    Some(without_quotes(&token))
}

} // verus!
