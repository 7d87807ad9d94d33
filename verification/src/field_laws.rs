//! What holds of a line and of the line that a new value gives.

use crate::field::content_end;
use crate::field::field_value;
use crate::field::find_from;
use crate::field::has_value;
use crate::field::new_token;
use crate::field::occurs_at;
use crate::field::replace_first;
use crate::field::skip_spaces;
use crate::field::skip_word;
use crate::field::starts_with;
use crate::field::strip_quotes;
use crate::field::trimmed;
use crate::field::value_end;
use crate::field::value_start;
use crate::field::value_token;
use crate::field::with_value;
use crate::text::is_line;
use crate::text::is_space;
use vstd::prelude::*;

verus! {

/// No character of `s` is whitespace.
pub open spec fn no_space(s: Seq<char>) -> bool {
    forall|i: int| 0 <= i < s.len() ==> !is_space(#[trigger] s[i])
}

/// No character of `s` is a double quote.
pub open spec fn no_quote(s: Seq<char>) -> bool {
    forall|i: int| 0 <= i < s.len() ==> #[trigger] s[i] != '"'
}

/// Every character of `s` is a double quote.
pub open spec fn all_quotes(s: Seq<char>) -> bool {
    forall|i: int| 0 <= i < s.len() ==> #[trigger] s[i] == '"'
}

/// `value` can stand as the value of a line and be read back: it is not
/// empty and holds neither whitespace nor a double quote.
pub open spec fn token_safe(value: Seq<char>) -> bool {
    value.len() > 0 && no_space(value) && no_quote(value)
}

/// The value of `line` stands in its token in one piece, so that it can be
/// replaced: the token holds quotes only in front of the value and behind
/// it.
pub open spec fn holds_value_whole(line: Seq<char>) -> bool {
    has_value(line) && find_from(value_token(line), field_value(line), 0) >= 0
}

/// `skip_spaces` stays inside the text.
pub proof fn lemma_skip_spaces_bounds(s: Seq<char>, i: int)
    requires
        0 <= i <= s.len(),
    ensures
        i <= skip_spaces(s, i) <= s.len(),
    decreases s.len() - i,
{
    if i < s.len() && is_space(s[i]) {
        lemma_skip_spaces_bounds(s, i + 1);
    }
}

/// `skip_word` stays inside the text.
pub proof fn lemma_skip_word_bounds(s: Seq<char>, i: int)
    requires
        0 <= i <= s.len(),
    ensures
        i <= skip_word(s, i) <= s.len(),
    decreases s.len() - i,
{
    if i < s.len() && !is_space(s[i]) {
        lemma_skip_word_bounds(s, i + 1);
    }
}

/// `skip_spaces` passes over whitespace only.
pub proof fn lemma_skip_spaces_passes(s: Seq<char>, i: int)
    requires
        0 <= i <= s.len(),
    ensures
        forall|k: int| i <= k < skip_spaces(s, i) ==> is_space(#[trigger] s[k]),
        skip_spaces(s, i) < s.len() ==> !is_space(s[skip_spaces(s, i)]),
    decreases s.len() - i,
{
    if i < s.len() && is_space(s[i]) {
        lemma_skip_spaces_passes(s, i + 1);
    }
}

/// `skip_word` passes over characters that are no whitespace, and stops at
/// whitespace.
pub proof fn lemma_skip_word_passes(s: Seq<char>, i: int)
    requires
        0 <= i <= s.len(),
    ensures
        forall|k: int| i <= k < skip_word(s, i) ==> !is_space(#[trigger] s[k]),
        skip_word(s, i) < s.len() ==> is_space(s[skip_word(s, i)]),
    decreases s.len() - i,
{
    if i < s.len() && !is_space(s[i]) {
        lemma_skip_word_passes(s, i + 1);
    }
}

/// The value token lies inside the line, and is not empty where the line
/// has one.
pub proof fn lemma_value_bounds(line: Seq<char>)
    ensures
        0 <= value_start(line) <= value_end(line) <= line.len(),
        has_value(line) ==> value_start(line) < value_end(line),
{
    lemma_skip_spaces_bounds(line, 0);
    let a = skip_spaces(line, 0);
    lemma_skip_word_bounds(line, a);
    let b = skip_word(line, a);
    lemma_skip_spaces_bounds(line, b);
    let c = skip_spaces(line, b);
    lemma_skip_word_bounds(line, c);
    lemma_skip_spaces_passes(line, b);
    if c < line.len() {
        lemma_skip_word_bounds(line, c + 1);
    }
}

/// A run of whitespace from `i` to `j` that ends the text, or is followed
/// by another character, is what `skip_spaces` passes over.
pub proof fn lemma_skip_spaces_run(s: Seq<char>, i: int, j: int)
    requires
        0 <= i <= j <= s.len(),
        forall|k: int| i <= k < j ==> is_space(#[trigger] s[k]),
        j < s.len() ==> !is_space(s[j]),
    ensures
        skip_spaces(s, i) == j,
    decreases j - i,
{
    if i < j {
        assert(is_space(s[i]));
        lemma_skip_spaces_run(s, i + 1, j);
    }
}

/// A run of characters that are no whitespace from `i` to `j` that ends the
/// text, or is followed by whitespace, is what `skip_word` passes over.
pub proof fn lemma_skip_word_run(s: Seq<char>, i: int, j: int)
    requires
        0 <= i <= j <= s.len(),
        forall|k: int| i <= k < j ==> !is_space(#[trigger] s[k]),
        j < s.len() ==> is_space(s[j]),
    ensures
        skip_word(s, i) == j,
    decreases j - i,
{
    if i < j {
        assert(!is_space(s[i]));
        lemma_skip_word_run(s, i + 1, j);
    }
}

/// The content of a text ends behind its last character that is no
/// whitespace.
pub proof fn lemma_content_end_bounds(s: Seq<char>)
    ensures
        0 <= content_end(s) <= s.len(),
        forall|k: int| 0 <= k < s.len() && !is_space(#[trigger] s[k]) ==> k < content_end(s),
    decreases s.len(),
{
    if s.len() > 0 && is_space(s.last()) {
        lemma_content_end_bounds(s.drop_last());
        assert forall|k: int| 0 <= k < s.len() && !is_space(#[trigger] s[k]) implies k
            < content_end(s) by {
            assert(s.drop_last()[k] == s[k]);
        }
    }
}

/// Stripping the quotes goes through a concatenation.
pub proof fn lemma_strip_quotes_concat(a: Seq<char>, b: Seq<char>)
    ensures
        strip_quotes(a + b) == strip_quotes(a) + strip_quotes(b),
    decreases b.len(),
{
    if b.len() == 0 {
        assert(a + b =~= a);
        assert(strip_quotes(a) + strip_quotes(b) =~= strip_quotes(a));
    } else {
        assert((a + b).drop_last() =~= a + b.drop_last());
        assert((a + b).last() == b.last());
        lemma_strip_quotes_concat(a, b.drop_last());
        assert(strip_quotes(a + b) =~= strip_quotes(a) + strip_quotes(b));
    }
}

/// What is left after stripping holds no quote and is no longer than the
/// text; a text without quotes is left as it is, and a text of quotes
/// alone leaves nothing.
pub proof fn lemma_strip_quotes_shape(s: Seq<char>)
    ensures
        no_quote(strip_quotes(s)),
        strip_quotes(s).len() <= s.len(),
        no_quote(s) ==> strip_quotes(s) == s,
        strip_quotes(s).len() == 0 <==> all_quotes(s),
        no_space(s) ==> no_space(strip_quotes(s)),
    decreases s.len(),
{
    if s.len() > 0 {
        let t = s.drop_last();
        lemma_strip_quotes_shape(t);
        if no_quote(s) {
            assert forall|i: int| 0 <= i < t.len() implies #[trigger] t[i] != '"' by {
                assert(t[i] == s[i]);
            }
            assert(strip_quotes(s) =~= s);
        }
        if all_quotes(s) {
            assert forall|i: int| 0 <= i < t.len() implies #[trigger] t[i] == '"' by {
                assert(t[i] == s[i]);
            }
            assert(s.last() == s[s.len() - 1]);
        }
        if strip_quotes(s).len() == 0 {
            assert(s.last() == '"');
            assert forall|i: int| 0 <= i < s.len() implies #[trigger] s[i] == '"' by {
                if i < t.len() {
                    assert(t[i] == s[i]);
                }
            }
        }
        if no_space(s) {
            assert forall|i: int| 0 <= i < t.len() implies !is_space(#[trigger] t[i]) by {
                assert(t[i] == s[i]);
            }
            assert(!is_space(s[s.len() - 1]));
        }
    }
}

/// `find_from` gives the first position at or after `i` where the needle
/// stands, and -1 only where it stands at none.
pub proof fn lemma_find_from_first(hay: Seq<char>, needle: Seq<char>, i: int)
    requires
        0 <= i,
    ensures
        find_from(hay, needle, i) == -1 || (i <= find_from(hay, needle, i) && occurs_at(
            hay,
            needle,
            find_from(hay, needle, i),
        )),
        forall|j: int|
            i <= j && (find_from(hay, needle, i) == -1 || j < find_from(hay, needle, i))
                ==> !occurs_at(hay, needle, j),
    decreases hay.len() - i + 1,
{
    if i + needle.len() <= hay.len() && !occurs_at(hay, needle, i) {
        lemma_find_from_first(hay, needle, i + 1);
    }
}

/// Where the needle stands at `r` and nowhere from `i` up to `r`,
/// `find_from` gives `r`.
pub proof fn lemma_find_from_is(hay: Seq<char>, needle: Seq<char>, i: int, r: int)
    requires
        0 <= i <= r,
        occurs_at(hay, needle, r),
        forall|j: int| i <= j < r ==> !occurs_at(hay, needle, j),
    ensures
        find_from(hay, needle, i) == r,
    decreases r - i,
{
    if i < r {
        lemma_find_from_is(hay, needle, i + 1, r);
    }
}

/// Where the value stands in its token in one piece, the token holds
/// nothing but quotes around it.
pub proof fn lemma_whole_value_shape(token: Seq<char>)
    requires
        find_from(token, strip_quotes(token), 0) >= 0,
    ensures
        ({
            let value = strip_quotes(token);
            let at = find_from(token, value, 0);
            &&& at + value.len() <= token.len()
            &&& all_quotes(token.take(at))
            &&& all_quotes(token.skip(at + value.len()))
            &&& token == token.take(at) + value + token.skip(at + value.len())
        }),
{
    let value = strip_quotes(token);
    let at = find_from(token, value, 0);
    lemma_find_from_first(token, value, 0);
    let front = token.take(at);
    let back = token.skip(at + value.len());
    assert(token =~= front + value + back);
    lemma_strip_quotes_concat(front + value, back);
    lemma_strip_quotes_concat(front, value);
    lemma_strip_quotes_shape(token);
    lemma_strip_quotes_shape(value);
    lemma_strip_quotes_shape(front);
    lemma_strip_quotes_shape(back);
    assert(strip_quotes(token) == strip_quotes(front) + value + strip_quotes(back));
    assert(strip_quotes(front).len() == 0);
    assert(strip_quotes(back).len() == 0);
}

/// A value without quotes, with quotes alone in front of it, is first
/// found behind those quotes.
pub proof fn lemma_find_behind_quotes(front: Seq<char>, value: Seq<char>, back: Seq<char>)
    requires
        all_quotes(front),
        no_quote(value),
        value.len() > 0,
    ensures
        find_from(front + value + back, value, 0) == front.len(),
{
    let token = front + value + back;
    let at = front.len() as int;
    assert(token.subrange(at, at + value.len()) =~= value);
    assert forall|j: int| 0 <= j < at implies !occurs_at(token, value, j) by {
        if occurs_at(token, value, j) {
            assert(token.subrange(j, j + value.len())[0] == token[j]);
            assert(token[j] == front[j]);
            assert(value[0] != '"');
        }
    }
    lemma_find_from_is(token, value, 0, at);
}

/// The token of a line is not empty and holds no whitespace.
pub proof fn lemma_value_token_shape(line: Seq<char>)
    requires
        has_value(line),
    ensures
        value_token(line).len() > 0,
        no_space(value_token(line)),
{
    lemma_value_bounds(line);
    lemma_skip_word_passes(line, value_start(line));
    let token = value_token(line);
    assert forall|i: int| 0 <= i < token.len() implies !is_space(#[trigger] token[i]) by {
        assert(token[i] == line[value_start(line) + i]);
    }
}

/// The token that a safe value gives is not empty and holds no whitespace.
/// Where the old value stood in one piece, the new token reads as the new
/// value and writing that value again changes nothing; elsewhere the token
/// stays as it was.
pub proof fn lemma_new_token(line: Seq<char>, value: Seq<char>)
    requires
        has_value(line),
        token_safe(value),
    ensures
        new_token(line, value).len() > 0,
        no_space(new_token(line, value)),
        holds_value_whole(line) ==> {
            &&& strip_quotes(new_token(line, value)) == value
            &&& replace_first(new_token(line, value), value, value) == new_token(line, value)
        },
        !holds_value_whole(line) ==> new_token(line, value) == value_token(line),
{
    let token = value_token(line);
    lemma_value_token_shape(line);
    if holds_value_whole(line) {
        let old_value = strip_quotes(token);
        let at = find_from(token, old_value, 0);
        lemma_whole_value_shape(token);
        let front = token.take(at);
        let back = token.skip(at + old_value.len());
        let fresh = front + value + back;
        assert(new_token(line, value) == fresh);
        assert forall|i: int| 0 <= i < fresh.len() implies !is_space(#[trigger] fresh[i]) by {
            if i < at {
                assert(fresh[i] == token[i]);
            } else if i < at + value.len() {
                assert(fresh[i] == value[i - at]);
            } else {
                assert(fresh[i] == token[i - value.len() + old_value.len()]);
            }
        }
        lemma_strip_quotes_concat(front + value, back);
        lemma_strip_quotes_concat(front, value);
        lemma_strip_quotes_shape(value);
        lemma_strip_quotes_shape(front);
        lemma_strip_quotes_shape(back);
        assert(strip_quotes(fresh) =~= value);
        lemma_find_behind_quotes(front, value, back);
        assert(fresh.take(at) =~= front);
        assert(fresh.skip(at + value.len()) =~= back);
    }
}

/// A line whose token is exchanged for another one without whitespace
/// has that token as its value token, at the same place, and the same
/// first token.
pub proof fn lemma_rebuilt_value(line: Seq<char>, token: Seq<char>)
    requires
        has_value(line),
        token.len() > 0,
        no_space(token),
    ensures
        ({
            let rebuilt = line.take(value_start(line)) + token + line.skip(value_end(line));
            &&& has_value(rebuilt)
            &&& skip_spaces(rebuilt, 0) == skip_spaces(line, 0)
            &&& skip_word(rebuilt, skip_spaces(line, 0)) == skip_word(line, skip_spaces(line, 0))
            &&& value_start(rebuilt) == value_start(line)
            &&& value_end(rebuilt) == value_start(line) + token.len()
            &&& value_token(rebuilt) == token
            &&& rebuilt.take(value_start(line)) == line.take(value_start(line))
            &&& rebuilt.skip(value_start(line) + token.len()) == line.skip(value_end(line))
        }),
{
    let a = skip_spaces(line, 0);
    let e = skip_word(line, a);
    let vs = value_start(line);
    let ve = value_end(line);
    lemma_skip_spaces_bounds(line, 0);
    lemma_skip_word_bounds(line, a);
    lemma_skip_spaces_bounds(line, e);
    lemma_value_bounds(line);
    lemma_skip_spaces_passes(line, 0);
    lemma_skip_word_passes(line, a);
    lemma_skip_spaces_passes(line, e);
    lemma_skip_word_passes(line, vs);
    let rebuilt = line.take(vs) + token + line.skip(ve);
    assert forall|k: int| 0 <= k < vs implies rebuilt[k] == line[k] by {}
    assert forall|k: int| vs <= k < vs + token.len() implies rebuilt[k] == token[k - vs] by {}
    assert(vs + token.len() < rebuilt.len() ==> rebuilt[vs + token.len()] == line[ve]);
    assert(vs < line.len());
    assert(e < vs) by {
        if e == vs {
            assert(is_space(line[e]));
        }
    }
    assert(a < e) by {
        if a == e {
            assert(!is_space(line[a]));
            assert(is_space(line[e]));
        }
    }
    lemma_skip_spaces_run(rebuilt, 0, a);
    lemma_skip_word_run(rebuilt, a, e);
    assert(!is_space(token[0]));
    lemma_skip_spaces_run(rebuilt, e, vs);
    assert forall|k: int| vs <= k < vs + token.len() implies !is_space(#[trigger] rebuilt[k]) by {
        assert(!is_space(token[k - vs]));
    }
    lemma_skip_word_run(rebuilt, vs, vs + token.len());
    assert(rebuilt.subrange(vs, vs + token.len()) =~= token);
    assert(rebuilt.take(vs) =~= line.take(vs));
    assert(rebuilt.skip(vs + token.len()) =~= line.skip(ve));
}

/// A safe value written into a line whose value stood in one piece is
/// read back from the new line.
pub proof fn lemma_with_value_reads_back(line: Seq<char>, value: Seq<char>)
    requires
        holds_value_whole(line),
        token_safe(value),
    ensures
        has_value(with_value(line, value)),
        field_value(with_value(line, value)) == value,
{
    lemma_new_token(line, value);
    lemma_rebuilt_value(line, new_token(line, value));
}

/// Writing a safe value twice gives what writing it once gives.
pub proof fn lemma_with_value_idempotent(line: Seq<char>, value: Seq<char>)
    requires
        token_safe(value),
    ensures
        with_value(with_value(line, value), value) == with_value(line, value),
        has_value(with_value(line, value)) == has_value(line),
{
    if has_value(line) {
        let token = new_token(line, value);
        lemma_new_token(line, value);
        lemma_rebuilt_value(line, token);
        let once = with_value(line, value);
        if holds_value_whole(line) {
            assert(new_token(once, value) == token);
            assert(with_value(once, value) =~= once);
        } else {
            lemma_value_bounds(line);
            assert(once =~= line);
        }
    }
}

/// Writing into a line the value that it holds leaves the line as it is.
pub proof fn lemma_with_own_value(line: Seq<char>)
    ensures
        with_value(line, field_value(line)) == line,
{
    if has_value(line) {
        lemma_value_bounds(line);
        let token = value_token(line);
        let value = field_value(line);
        let at = find_from(token, value, 0);
        lemma_find_from_first(token, value, 0);
        if at >= 0 {
            assert(token.take(at) + value + token.skip(at + value.len()) =~= token);
        }
        assert(new_token(line, value) == token);
        assert(line.take(value_start(line)) + token + line.skip(value_end(line)) =~= line);
    }
}

/// Whether a line opens with a key without whitespace depends on nothing
/// but the line up to the end of its first token.
pub proof fn lemma_starts_with_by_first_token(a: Seq<char>, b: Seq<char>, key: Seq<char>)
    requires
        no_space(key),
        skip_spaces(a, 0) == skip_spaces(b, 0),
        skip_word(a, skip_spaces(a, 0)) == skip_word(b, skip_spaces(b, 0)),
        skip_spaces(a, 0) < skip_word(a, skip_spaces(a, 0)),
        a.take(skip_word(a, skip_spaces(a, 0))) == b.take(skip_word(a, skip_spaces(a, 0))),
    ensures
        starts_with(a, key) ==> starts_with(b, key),
{
    let from = skip_spaces(a, 0);
    let to = skip_word(a, from);
    lemma_skip_spaces_bounds(a, 0);
    lemma_skip_word_bounds(a, from);
    lemma_skip_spaces_bounds(b, 0);
    lemma_skip_word_bounds(b, from);
    lemma_skip_word_passes(a, from);
    lemma_skip_word_passes(b, from);
    lemma_content_end_bounds(a);
    lemma_content_end_bounds(b);
    assert(a[to - 1] == a.take(to)[to - 1]);
    assert(b[to - 1] == b.take(to)[to - 1]);
    assert(!is_space(a[to - 1]));
    assert(!is_space(b[to - 1]));
    if starts_with(a, key) {
        let ta = trimmed(a);
        let tb = trimmed(b);
        assert(key =~= ta.subrange(0, key.len() as int));
        // the key lies in the first token
        assert(from + key.len() <= to) by {
            if from + key.len() > to {
                assert(ta[to - from] == a[to]);
                assert(key[to - from] == ta.subrange(0, key.len() as int)[to - from]);
                assert(is_space(a[to]));
                assert(!is_space(key[to - from]));
            }
        }
        assert forall|k: int| 0 <= k < key.len() implies key[k] == tb[k] by {
            assert(key[k] == ta.subrange(0, key.len() as int)[k]);
            assert(ta[k] == a[from + k]);
            assert(a[from + k] == a.take(to)[from + k]);
            assert(b[from + k] == b.take(to)[from + k]);
            assert(tb[k] == b[from + k]);
        }
        assert(key =~= tb.subrange(0, key.len() as int));
    }
}

/// A safe value written into a line changes no key that the line opens
/// with.
pub proof fn lemma_with_value_keeps_key(line: Seq<char>, value: Seq<char>, key: Seq<char>)
    requires
        token_safe(value),
        no_space(key),
    ensures
        starts_with(with_value(line, value), key) == starts_with(line, key),
{
    if has_value(line) {
        let token = new_token(line, value);
        lemma_new_token(line, value);
        lemma_rebuilt_value(line, token);
        let fresh = with_value(line, value);
        let from = skip_spaces(line, 0);
        let to = skip_word(line, from);
        lemma_skip_spaces_bounds(line, 0);
        lemma_skip_word_bounds(line, from);
        lemma_skip_spaces_bounds(line, to);
        lemma_value_bounds(line);
        lemma_skip_spaces_passes(line, 0);
        lemma_skip_word_passes(line, from);
        assert(from < to) by {
            if from == to {
                lemma_skip_spaces_passes(line, to);
            }
        }
        assert(fresh.take(to) =~= line.take(to)) by {
            assert(fresh.take(value_start(line)) == line.take(value_start(line)));
            assert forall|k: int| 0 <= k < to implies fresh[k] == line[k] by {
                assert(fresh.take(value_start(line))[k] == fresh[k]);
                assert(line.take(value_start(line))[k] == line[k]);
            }
        }
        lemma_starts_with_by_first_token(line, fresh, key);
        lemma_starts_with_by_first_token(fresh, line, key);
    }
}

/// A safe value written into a line of a text gives a line of a text, with
/// a line feed at its end where the old line had one.
pub proof fn lemma_with_value_keeps_line(line: Seq<char>, value: Seq<char>)
    requires
        is_line(line),
        token_safe(value),
    ensures
        is_line(with_value(line, value)),
        (with_value(line, value).last() == '\n') == (line.last() == '\n'),
{
    if has_value(line) {
        let token = new_token(line, value);
        lemma_new_token(line, value);
        lemma_rebuilt_value(line, token);
        lemma_value_bounds(line);
        lemma_skip_word_passes(line, value_start(line));
        let vs = value_start(line);
        let ve = value_end(line);
        let fresh = with_value(line, value);
        assert(is_space('\n'));
        assert(fresh.len() == vs + token.len() + (line.len() - ve));
        assert forall|k: int| 0 <= k < fresh.len() - 1 implies #[trigger] fresh[k] != '\n' by {
            if k < vs {
                assert(fresh[k] == line[k]);
            } else if k < vs + token.len() {
                assert(fresh[k] == token[k - vs]);
                assert(!is_space(token[k - vs]));
            } else {
                assert(fresh[k] == line[k - vs - token.len() + ve]);
            }
        }
        if ve < line.len() {
            assert(fresh.last() == line.last());
        } else {
            assert(fresh.last() == token[token.len() - 1]);
            assert(!is_space(token[token.len() - 1]));
            assert(!is_space(line[ve - 1]));
        }
    }
}

} // verus!
