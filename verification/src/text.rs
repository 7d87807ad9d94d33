//! Character-level text primitives: whitespace, conversion between strings
//! and character vectors, and splitting a text into lines that keep their
//! terminators.

use vstd::prelude::*;

verus! {

/// Whether `c` is whitespace: a character with the Unicode `White_Space`
/// property.
pub open spec fn is_space(c: char) -> bool {
    let n = c as u32;
    ||| 0x09 <= n <= 0x0D
    ||| n == 0x20
    ||| n == 0x85
    ||| n == 0xA0
    ||| n == 0x1680
    ||| 0x2000 <= n <= 0x200A
    ||| n == 0x2028
    ||| n == 0x2029
    ||| n == 0x202F
    ||| n == 0x205F
    ||| n == 0x3000
}

/// Executable test for [`is_space`].
pub fn char_is_space(c: char) -> (b: bool)
    ensures
        b == is_space(c),
{
    let n: u32 = c as u32;
    (0x09 <= n && n <= 0x0D) || n == 0x20 || n == 0x85 || n == 0xA0 || n == 0x1680 || (0x2000 <= n
        && n <= 0x200A) || n == 0x2028 || n == 0x2029 || n == 0x202F || n == 0x205F || n == 0x3000
}

/// Collects the characters of `s` in order.
pub fn chars_of(s: &str) -> (v: Vec<char>)
    ensures
        v@ == s@,
{
    let mut v: Vec<char> = Vec::new();
    append_str(&mut v, s);
    v
}

/// Appends the characters of `s` to `out`.
pub fn append_str(out: &mut Vec<char>, s: &str)
    ensures
        final(out)@ == old(out)@ + s@,
{
    for c in it: s.chars()
        invariant
            it.seq() == s@,
            out@ == old(out)@ + s@.take(it.index()),
    {
        out.push(c);
        assert(s@.take(it.index() + 1) =~= s@.take(it.index()).push(c));
        assert(out@ =~= old(out)@ + s@.take(it.index() + 1));
    }
    assert(s@.take(s@.len() as int) =~= s@);
}

/// Whether `a` and `b` hold the same characters.
pub fn same_chars(a: &Vec<char>, b: &Vec<char>) -> (r: bool)
    ensures
        r == (a@ == b@),
{
    if a.len() != b.len() {
        return false;
    }
    let mut i: usize = 0;
    while i < a.len()
        invariant
            a.len() == b.len(),
            i <= a.len(),
            forall|j: int| 0 <= j < i ==> a@[j] == b@[j],
        decreases a.len() - i,
    {
        if a[i] != b[i] {
            return false;
        }
        i += 1;
    }
    assert(a@ =~= b@);
    true
}

/// Whether `s` reads `text`.
pub fn reads(s: &Vec<char>, text: &str) -> (b: bool)
    ensures
        b == (s@ == text@),
{
    let t = chars_of(text);
    same_chars(s, &t)
}

/// `String::push` appends one character to the end of the string.
pub assume_specification[ String::push ](s: &mut String, c: char)
    ensures
        final(s)@ == old(s)@.push(c),
;

/// Builds the string that holds the characters of `v` in order.
pub fn string_of(v: &Vec<char>) -> (s: String)
    ensures
        s@ == v@,
{
    let mut s = String::new();
    let mut i: usize = 0;
    while i < v.len()
        invariant
            i <= v.len(),
            s@ == v@.take(i as int),
        decreases v.len() - i,
    {
        s.push(v[i]);
        i += 1;
        assert(v@.take(i as int) =~= v@.take(i as int - 1).push(v@[i as int - 1]));
    }
    assert(v@.take(v.len() as int) =~= v@);
    s
}

/// The views of a vector of lines.
pub open spec fn line_seqs(lines: Seq<Vec<char>>) -> Seq<Seq<char>> {
    Seq::new(lines.len(), |i: int| lines[i]@)
}

/// Length of the first line of `s`, its line feed included. The first line
/// runs up to and including the first `'\n'`, or to the end of `s` where no
/// line feed is left.
pub open spec fn first_line_len(s: Seq<char>) -> nat
    decreases s.len(),
{
    if s.len() == 0 {
        0
    } else if s[0] == '\n' {
        1
    } else {
        1 + first_line_len(s.skip(1))
    }
}

/// The lines of `s`, each with its terminator. Nothing is dropped: joining
/// the lines gives `s` back (see [`lemma_join_split`]).
pub open spec fn split_lines(s: Seq<char>) -> Seq<Seq<char>>
    decreases s.len(),
{
    if s.len() == 0 {
        Seq::empty()
    } else {
        proof {
            lemma_first_line_len_bounds(s);
        }
        let n = first_line_len(s) as int;
        seq![s.take(n)] + split_lines(s.skip(n))
    }
}

/// The concatenation of `lines`, in order.
pub open spec fn join_lines(lines: Seq<Seq<char>>) -> Seq<char>
    decreases lines.len(),
{
    if lines.len() == 0 {
        Seq::empty()
    } else {
        join_lines(lines.drop_last()) + lines.last()
    }
}

/// A first line is never empty and never longer than the text.
pub proof fn lemma_first_line_len_bounds(s: Seq<char>)
    ensures
        first_line_len(s) <= s.len(),
        s.len() > 0 ==> first_line_len(s) >= 1,
    decreases s.len(),
{
    if s.len() > 0 && s[0] != '\n' {
        lemma_first_line_len_bounds(s.skip(1));
    }
}

/// Where the first `k` characters of `s` hold no line feed, the first line
/// ends with the line feed at `k`, or with the text.
pub proof fn lemma_first_line_len_at(s: Seq<char>, k: int)
    requires
        0 <= k <= s.len(),
        forall|j: int| 0 <= j < k ==> s[j] != '\n',
        k < s.len() ==> s[k] == '\n',
    ensures
        first_line_len(s) == if k < s.len() { k + 1 } else { k },
    decreases k,
{
    if k > 0 {
        let t = s.skip(1);
        assert forall|j: int| 0 <= j < k - 1 implies t[j] != '\n' by {
            assert(t[j] == s[j + 1]);
        }
        lemma_first_line_len_at(t, k - 1);
    }
}

/// Joining distributes over putting one line in front.
pub proof fn lemma_join_prepend(first: Seq<char>, rest: Seq<Seq<char>>)
    ensures
        join_lines(seq![first] + rest) == first + join_lines(rest),
    decreases rest.len(),
{
    let all = seq![first] + rest;
    if rest.len() == 0 {
        assert(all.drop_last() =~= rest);
        assert(join_lines(all) =~= first + join_lines(rest));
    } else {
        assert(all.drop_last() =~= seq![first] + rest.drop_last());
        assert(all.last() == rest.last());
        lemma_join_prepend(first, rest.drop_last());
        assert(join_lines(all) =~= first + join_lines(rest));
    }
}

/// Splitting a text into lines and joining them again gives the text back.
pub proof fn lemma_join_split(s: Seq<char>)
    ensures
        join_lines(split_lines(s)) == s,
    decreases s.len(),
{
    if s.len() > 0 {
        let n = first_line_len(s) as int;
        lemma_first_line_len_bounds(s);
        lemma_join_split(s.skip(n));
        lemma_join_prepend(s.take(n), split_lines(s.skip(n)));
        assert(s.take(n) + s.skip(n) =~= s);
    }
}

/// Whether `line` can be a line of a text: it is not empty and holds no
/// line feed but, possibly, at its end.
pub open spec fn is_line(line: Seq<char>) -> bool {
    line.len() > 0 && forall|k: int| 0 <= k < line.len() - 1 ==> #[trigger] line[k] != '\n'
}

/// Whether `lines` are the lines of some text: each is a line, and each but
/// the last ends in a line feed.
pub open spec fn is_line_list(lines: Seq<Seq<char>>) -> bool {
    &&& forall|i: int| 0 <= i < lines.len() ==> is_line(#[trigger] lines[i])
    &&& forall|i: int| 0 <= i < lines.len() - 1 ==> (#[trigger] lines[i]).last() == '\n'
}

/// The first line holds no line feed before its end, and ends in one
/// where more text follows.
pub proof fn lemma_first_line_shape(s: Seq<char>)
    requires
        s.len() > 0,
    ensures
        1 <= first_line_len(s) <= s.len(),
        forall|k: int| 0 <= k < first_line_len(s) - 1 ==> #[trigger] s[k] != '\n',
        first_line_len(s) < s.len() ==> s[first_line_len(s) - 1] == '\n',
    decreases s.len(),
{
    if s[0] != '\n' {
        let t = s.skip(1);
        if t.len() > 0 {
            lemma_first_line_shape(t);
            assert forall|k: int| 0 <= k < first_line_len(s) - 1 implies #[trigger] s[k]
                != '\n' by {
                if k > 0 {
                    assert(t[k - 1] == s[k]);
                }
            }
            if first_line_len(s) < s.len() {
                assert(t[first_line_len(t) - 1] == s[first_line_len(s) - 1]);
            }
        }
    }
}

/// The lines of a text are lines.
pub proof fn lemma_split_gives_lines(s: Seq<char>)
    ensures
        is_line_list(split_lines(s)),
        s.len() > 0 ==> split_lines(s).len() > 0,
    decreases s.len(),
{
    if s.len() > 0 {
        lemma_first_line_shape(s);
        let n = first_line_len(s) as int;
        let rest = s.skip(n);
        lemma_split_gives_lines(rest);
        let first = s.take(n);
        let lines = split_lines(s);
        assert(lines == seq![first] + split_lines(rest));
        assert forall|i: int| 0 <= i < lines.len() implies is_line(#[trigger] lines[i]) by {
            if i > 0 {
                assert(lines[i] == split_lines(rest)[i - 1]);
            }
        }
        assert forall|i: int| 0 <= i < lines.len() - 1 implies (#[trigger] lines[i]).last()
            == '\n' by {
            if i > 0 {
                assert(lines[i] == split_lines(rest)[i - 1]);
            } else {
                assert(rest.len() > 0);
            }
        }
    }
}

/// Joining lines and splitting the text again gives the lines back.
pub proof fn lemma_split_join(lines: Seq<Seq<char>>)
    requires
        is_line_list(lines),
    ensures
        split_lines(join_lines(lines)) == lines,
    decreases lines.len(),
{
    if lines.len() == 0 {
        assert(split_lines(join_lines(lines)) =~= lines);
    } else {
        let first = lines[0];
        let rest = lines.skip(1);
        assert(lines =~= seq![first] + rest);
        lemma_join_prepend(first, rest);
        let s = first + join_lines(rest);
        assert(is_line(first));
        assert forall|i: int| 0 <= i < rest.len() implies is_line(#[trigger] rest[i]) by {
            assert(rest[i] == lines[i + 1]);
        }
        assert forall|i: int| 0 <= i < rest.len() - 1 implies (#[trigger] rest[i]).last()
            == '\n' by {
            assert(rest[i] == lines[i + 1]);
        }
        lemma_split_join(rest);
        assert forall|j: int| 0 <= j < first.len() - 1 implies s[j] != '\n' by {
            assert(s[j] == first[j]);
        }
        if first.last() == '\n' {
            assert(s[first.len() - 1] == '\n');
            lemma_first_line_len_at(s, first.len() - 1);
        } else {
            assert(rest.len() == 0);
            assert(join_lines(rest) =~= Seq::<char>::empty());
            assert(s =~= first);
            assert(s[first.len() - 1] != '\n');
            lemma_first_line_len_at(s, first.len() as int);
        }
        assert(first_line_len(s) == first.len());
        assert(s.take(first.len() as int) =~= first);
        assert(s.skip(first.len() as int) =~= join_lines(rest));
        assert(split_lines(s) =~= seq![first] + split_lines(join_lines(rest)));
    }
}

/// Splits `text` into its lines, each with its terminator.
pub fn lines_of(text: &Vec<char>) -> (lines: Vec<Vec<char>>)
    ensures
        line_seqs(lines@) == split_lines(text@),
{
    let mut lines: Vec<Vec<char>> = Vec::new();
    let mut cur: Vec<char> = Vec::new();
    let mut start: usize = 0;
    let mut i: usize = 0;
    assert(line_seqs(lines@) =~= Seq::<Seq<char>>::empty());
    assert(text@.skip(0) =~= text@);
    assert(line_seqs(lines@) + split_lines(text@.skip(0)) =~= split_lines(text@));
    while i < text.len()
        invariant
            start <= i <= text.len(),
            cur@ == text@.subrange(start as int, i as int),
            forall|j: int| start <= j < i ==> text@[j] != '\n',
            line_seqs(lines@) + split_lines(text@.skip(start as int)) == split_lines(text@),
        decreases text.len() - i,
    {
        let c = text[i];
        cur.push(c);
        assert(cur@ =~= text@.subrange(start as int, i + 1));
        if c == '\n' {
            proof {
                let rest = text@.skip(start as int);
                assert forall|j: int| 0 <= j < i - start implies rest[j] != '\n' by {
                    assert(rest[j] == text@[start + j]);
                }
                lemma_first_line_len_at(rest, i - start);
                assert(rest.take(i - start + 1) =~= cur@);
                assert(rest.skip(i - start + 1) =~= text@.skip(i + 1));
                assert(line_seqs(lines@.push(cur)) =~= line_seqs(lines@) + seq![cur@]);
            }
            lines.push(cur);
            cur = Vec::new();
            start = i + 1;
            assert(cur@ =~= text@.subrange(start as int, i + 1));
        }
        i += 1;
    }
    if start < text.len() {
        proof {
            let rest = text@.skip(start as int);
            assert forall|j: int| 0 <= j < rest.len() implies rest[j] != '\n' by {
                assert(rest[j] == text@[start + j]);
            }
            lemma_first_line_len_at(rest, rest.len() as int);
            assert(rest.take(rest.len() as int) =~= cur@);
            assert(split_lines(rest.skip(rest.len() as int)) =~= Seq::<Seq<char>>::empty());
            assert(split_lines(rest) =~= seq![cur@]);
            assert(line_seqs(lines@.push(cur)) =~= line_seqs(lines@) + seq![cur@]);
        }
        lines.push(cur);
    } else {
        assert(text@.skip(start as int).len() == 0);
        assert(line_seqs(lines@) =~= line_seqs(lines@) + split_lines(text@.skip(start as int)));
    }
    lines
}

/// Concatenates `lines` into one text.
pub fn join_of(lines: &Vec<Vec<char>>) -> (text: Vec<char>)
    ensures
        text@ == join_lines(line_seqs(lines@)),
{
    let mut text: Vec<char> = Vec::new();
    let mut i: usize = 0;
    assert(line_seqs(lines@).take(0) =~= Seq::<Seq<char>>::empty());
    while i < lines.len()
        invariant
            i <= lines.len(),
            text@ == join_lines(line_seqs(lines@).take(i as int)),
        decreases lines.len() - i,
    {
        let line = &lines[i];
        let ghost before = text@;
        let mut j: usize = 0;
        while j < line.len()
            invariant
                j <= line.len(),
                text@ == before + line@.take(j as int),
            decreases line.len() - j,
        {
            text.push(line[j]);
            j += 1;
            assert(line@.take(j as int) =~= line@.take(j - 1).push(line@[j - 1]));
            assert(text@ =~= before + line@.take(j as int));
        }
        proof {
            let done = line_seqs(lines@).take(i + 1);
            assert(done.drop_last() =~= line_seqs(lines@).take(i as int));
            assert(done.last() == line@);
            assert(line@.take(line.len() as int) =~= line@);
        }
        i += 1;
    }
    assert(line_seqs(lines@).take(lines.len() as int) =~= line_seqs(lines@));
    text
}

} // verus!
