//! What holds of reading and rewriting a weapon script as a whole.

use crate::crosshair::CrosshairItemView;
use crate::effect::EffectView;
use crate::effect::ExplosionKey;
use crate::error::Error;
use crate::field::field_value;
use crate::field::has_value;
use crate::field::starts_with;
use crate::field::trimmed;
use crate::field::with_value;
use crate::field_laws::holds_value_whole;
use crate::field_laws::lemma_with_own_value;
use crate::field_laws::lemma_with_value_idempotent;
use crate::field_laws::lemma_with_value_keeps_key;
use crate::field_laws::lemma_with_value_keeps_line;
use crate::field_laws::lemma_with_value_reads_back;
use crate::field_laws::no_quote;
use crate::field_laws::no_space;
use crate::field_laws::token_safe;
use crate::load::crosshair_line;
use crate::load::crosshair_of;
use crate::load::explosion_line;
use crate::load::explosion_of;
use crate::load::is_explosion_capable;
use crate::number::decimal;
use crate::number::digits;
use crate::number::is_digit;
use crate::number::lemma_digits_are_digits;
use crate::patch::crosshair_block_ok;
use crate::patch::crosshair_patch;
use crate::patch::crosshair_patch_line;
use crate::patch::crosshair_text;
use crate::patch::explosion_patch;
use crate::patch::explosion_patch_line;
use crate::patch::patched_crosshair;
use crate::patch::patched_explosion;
use crate::patch::thumbnail_prefix;
use crate::path::file_stem;
use crate::path::names_file;
use crate::script::block_end;
use crate::script::block_start;
use crate::script::closes_block;
use crate::script::crosshair_field;
use crate::script::crosshair_key;
use crate::script::CrosshairField;
use crate::script::explosion_key;
use crate::script::explosion_key_text;
use crate::script::file_key;
use crate::script::find_line;
use crate::script::has_block;
use crate::script::height_key;
use crate::script::in_block;
use crate::script::lemma_block_end_bounds;
use crate::script::lemma_find_line_bounds;
use crate::script::width_key;
use crate::script::x_key;
use crate::script::y_key;
use crate::text::is_line;
use crate::text::is_line_list;
use crate::text::is_space;
use crate::text::join_lines;
use crate::text::lemma_join_split;
use crate::text::lemma_split_gives_lines;
use crate::text::lemma_split_join;
use crate::text::split_lines;
use crate::weapon::loaded;
use crate::weapon::WeaponFileView;
use vstd::prelude::*;

verus! {

/// Whether `s` holds neither whitespace nor a double quote.
pub open spec fn plain(s: Seq<char>) -> bool {
    no_space(s) && no_quote(s)
}

/// The keys of a script hold no whitespace.
pub proof fn lemma_keys_have_no_space()
    ensures
        no_space(crosshair_key()),
        no_space(file_key()),
        no_space(x_key()),
        no_space(y_key()),
        no_space(width_key()),
        no_space(height_key()),
        no_space(explosion_key_text(ExplosionKey::Effect)),
        no_space(explosion_key_text(ExplosionKey::PlayerEffect)),
        no_space(explosion_key_text(ExplosionKey::WaterEffect)),
{
    reveal_strlit("\"crosshair\"");
    reveal_strlit("\"file\"");
    reveal_strlit("\"x\"");
    reveal_strlit("\"y\"");
    reveal_strlit("\"width\"");
    reveal_strlit("\"height\"");
    reveal_strlit("\"ExplosionEffect\"");
    reveal_strlit("\"ExplosionPlayerEffect\"");
    reveal_strlit("\"ExplosionWaterEffect\"");
}

/// A line opens with no two keys that differ in their second character.
pub proof fn lemma_keys_exclude(line: Seq<char>, a: Seq<char>, b: Seq<char>)
    requires
        a.len() >= 2,
        b.len() >= 2,
        a[1] != b[1],
        starts_with(line, a),
    ensures
        !starts_with(line, b),
{
    let t = trimmed(line);
    if starts_with(line, b) {
        assert(a[1] == t.subrange(0, a.len() as int)[1]);
        assert(b[1] == t.subrange(0, b.len() as int)[1]);
    }
}

/// A line that holds a crosshair field, or opens the crosshair block,
/// holds no explosion key, and the other way round.
pub proof fn lemma_crosshair_and_explosion_keys_exclude(line: Seq<char>)
    ensures
        explosion_key(line) is Some ==> crosshair_field(line) is None && !starts_with(
            line,
            crosshair_key(),
        ),
{
    reveal_strlit("\"crosshair\"");
    reveal_strlit("\"file\"");
    reveal_strlit("\"x\"");
    reveal_strlit("\"y\"");
    reveal_strlit("\"width\"");
    reveal_strlit("\"height\"");
    reveal_strlit("\"ExplosionEffect\"");
    reveal_strlit("\"ExplosionPlayerEffect\"");
    reveal_strlit("\"ExplosionWaterEffect\"");
    if explosion_key(line) is Some {
        let key = explosion_key_text(explosion_key(line).unwrap());
        assert(starts_with(line, key));
        lemma_keys_exclude(line, key, crosshair_key());
        lemma_keys_exclude(line, key, file_key());
        lemma_keys_exclude(line, key, x_key());
        lemma_keys_exclude(line, key, y_key());
        lemma_keys_exclude(line, key, width_key());
        lemma_keys_exclude(line, key, height_key());
    }
}

/// A number in decimal notation can stand as the value of a line.
pub proof fn lemma_decimal_is_safe(n: int)
    ensures
        token_safe(decimal(n)),
{
    let d = if n < 0 {
        digits((-n) as nat)
    } else {
        digits(n as nat)
    };
    if n < 0 {
        lemma_digits_are_digits((-n) as nat);
    } else {
        lemma_digits_are_digits(n as nat);
    }
    let s = decimal(n);
    assert forall|i: int| 0 <= i < s.len() implies !is_space(#[trigger] s[i]) && s[i] != '"' by {
        if n < 0 {
            if i > 0 {
                assert(s[i] == d[i - 1]);
                assert(is_digit(d[i - 1]));
            }
        } else {
            assert(is_digit(d[i]));
        }
    }
}

/// What a crosshair writes can stand as the value of a line, where the
/// stem of the crosshair's file name holds neither whitespace nor a quote.
pub proof fn lemma_crosshair_text_is_safe(field: CrosshairField, item: CrosshairItemView)
    requires
        plain(file_stem(item.path)),
    ensures
        token_safe(crosshair_text(field, item)),
{
    reveal_strlit("vgui/replay/thumbnails/");
    reveal_strlit("0");
    reveal_strlit("64");
    lemma_decimal_is_safe(item.size.0 as int);
    lemma_decimal_is_safe(item.size.1 as int);
    let stem = file_stem(item.path);
    let text = thumbnail_prefix() + stem;
    assert forall|i: int| 0 <= i < text.len() implies !is_space(#[trigger] text[i]) && text[i]
        != '"' by {
        if i >= thumbnail_prefix().len() {
            assert(text[i] == stem[i - thumbnail_prefix().len()]);
        }
    }
}

/// `b` is `a`, or `a` with a safe value written into it.
pub open spec fn rewritten(a: Seq<char>, b: Seq<char>) -> bool {
    b == a || exists|value: Seq<char>| token_safe(value) && b == #[trigger] with_value(a, value)
}

/// `b` holds the lines of `a`, some of them with a safe value written into
/// them.
pub open spec fn rewritten_lines(a: Seq<Seq<char>>, b: Seq<Seq<char>>) -> bool {
    a.len() == b.len() && forall|i: int| 0 <= i < a.len() ==> rewritten(#[trigger] a[i], b[i])
}

/// A rewritten line opens with the keys it opened with, has a value where
/// it had one, and ends as it ended.
pub proof fn lemma_rewritten_line(a: Seq<char>, b: Seq<char>)
    requires
        rewritten(a, b),
    ensures
        forall|key: Seq<char>| no_space(key) ==> #[trigger] starts_with(b, key) == starts_with(a, key),
        crosshair_field(b) == crosshair_field(a),
        explosion_key(b) == explosion_key(a),
        has_value(b) == has_value(a),
        is_line(a) ==> is_line(b) && (b.last() == '\n') == (a.last() == '\n'),
{
    lemma_keys_have_no_space();
    if b != a {
        let value = choose|value: Seq<char>| token_safe(value) && b == #[trigger] with_value(a, value);
        assert forall|key: Seq<char>| no_space(key) implies #[trigger] starts_with(b, key)
            == starts_with(a, key) by {
            lemma_with_value_keeps_key(a, value, key);
        }
        lemma_with_value_idempotent(a, value);
        if is_line(a) {
            lemma_with_value_keeps_line(a, value);
        }
    }
    assert(starts_with(b, file_key()) == starts_with(a, file_key()));
    assert(starts_with(b, x_key()) == starts_with(a, x_key()));
    assert(starts_with(b, y_key()) == starts_with(a, y_key()));
    assert(starts_with(b, width_key()) == starts_with(a, width_key()));
    assert(starts_with(b, height_key()) == starts_with(a, height_key()));
    assert(starts_with(b, explosion_key_text(ExplosionKey::Effect)) == starts_with(
        a,
        explosion_key_text(ExplosionKey::Effect),
    ));
    assert(starts_with(b, explosion_key_text(ExplosionKey::PlayerEffect)) == starts_with(
        a,
        explosion_key_text(ExplosionKey::PlayerEffect),
    ));
    assert(starts_with(b, explosion_key_text(ExplosionKey::WaterEffect)) == starts_with(
        a,
        explosion_key_text(ExplosionKey::WaterEffect),
    ));
}

/// The first line that opens with a key is at the same place in rewritten
/// lines.
pub proof fn lemma_find_line_rewritten(
    a: Seq<Seq<char>>,
    b: Seq<Seq<char>>,
    key: Seq<char>,
    from: int,
)
    requires
        rewritten_lines(a, b),
        no_space(key),
    ensures
        find_line(b, key, from) == find_line(a, key, from),
    decreases a.len() - from,
{
    if 0 <= from < a.len() {
        lemma_rewritten_line(a[from], b[from]);
        if !starts_with(a[from], key) {
            lemma_find_line_rewritten(a, b, key, from + 1);
        }
    }
}

/// Rewritten lines of a text are the lines of a text.
pub proof fn lemma_rewritten_lines_are_lines(a: Seq<Seq<char>>, b: Seq<Seq<char>>)
    requires
        rewritten_lines(a, b),
        is_line_list(a),
    ensures
        is_line_list(b),
        split_lines(join_lines(b)) == b,
{
    assert forall|i: int| 0 <= i < b.len() implies is_line(#[trigger] b[i]) by {
        assert(is_line(a[i]));
        lemma_rewritten_line(a[i], b[i]);
    }
    assert forall|i: int| 0 <= i < b.len() - 1 implies (#[trigger] b[i]).last() == '\n' by {
        assert(is_line(a[i]));
        assert(a[i].last() == '\n');
        lemma_rewritten_line(a[i], b[i]);
    }
    lemma_split_join(b);
}

/// The end of the crosshair block is at the same place in two scripts
/// whose lines close the block alike.
pub proof fn lemma_block_end_same(a: Seq<Seq<char>>, b: Seq<Seq<char>>, from: int)
    requires
        a.len() == b.len(),
        forall|i: int| 0 <= i < a.len() ==> closes_block(#[trigger] a[i]) == closes_block(b[i]),
    ensures
        block_end(b, from) == block_end(a, from),
    decreases a.len() - from,
{
    if 0 <= from < a.len() {
        assert(closes_block(a[from]) == closes_block(b[from]));
        if !closes_block(a[from]) {
            lemma_block_end_same(a, b, from + 1);
        }
    }
}

/// What writing a crosshair into a script leaves as it is: the place and
/// the extent of the crosshair block, the field that each line holds, and
/// that the lines are the lines of a text.
pub proof fn lemma_crosshair_patch_shape(lines: Seq<Seq<char>>, item: CrosshairItemView)
    requires
        plain(file_stem(item.path)),
    ensures
        ({
            let patched = crosshair_patch(lines, item);
            &&& rewritten_lines(lines, patched)
            &&& has_block(patched) == has_block(lines)
            &&& block_start(patched) == block_start(lines)
            &&& block_end(patched, block_start(lines)) == block_end(lines, block_start(lines))
            &&& crosshair_line(patched) == crosshair_line(lines)
            &&& forall|i: int|
                0 <= i < lines.len() ==> crosshair_field(#[trigger] patched[i]) == crosshair_field(
                    lines[i],
                ) && has_value(patched[i]) == has_value(lines[i])
            &&& forall|i: int| in_block(patched, i) == in_block(lines, i)
        }),
{
    let patched = crosshair_patch(lines, item);
    lemma_keys_have_no_space();
    assert forall|i: int| 0 <= i < lines.len() implies rewritten(#[trigger] lines[i], patched[i]) by {
        match crosshair_field(lines[i]) {
            Some(field) => {
                lemma_crosshair_text_is_safe(field, item);
                if in_block(lines, i) {
                    assert(patched[i] == with_value(lines[i], crosshair_text(field, item)));
                }
            },
            None => {},
        }
    }
    assert forall|i: int| 0 <= i < lines.len() implies crosshair_field(#[trigger] patched[i])
        == crosshair_field(lines[i]) && has_value(patched[i]) == has_value(lines[i])
        && closes_block(patched[i]) == closes_block(lines[i]) by {
        lemma_rewritten_line(lines[i], patched[i]);
        if crosshair_field(lines[i]) is None {
            assert(patched[i] == lines[i]);
        }
    }
    lemma_find_line_rewritten(lines, patched, crosshair_key(), 0);
    lemma_find_line_rewritten(lines, patched, file_key(), block_start(lines));
    lemma_block_end_same(lines, patched, block_start(lines));
}

/// Round trip of a crosshair. Take a script with a crosshair block whose
/// crosshair line holds its value in one piece, and a crosshair whose file
/// stem holds neither whitespace nor a quote. If the crosshair can be
/// written into the script, the new text names that crosshair: reading it
/// gives `vgui/replay/thumbnails/` and the stem.
pub proof fn law_crosshair_round_trip(content: Seq<char>, item: CrosshairItemView)
    requires
        has_block(split_lines(content)),
        patched_crosshair(content, item) is Ok,
        plain(file_stem(item.path)),
        holds_value_whole(split_lines(content)[crosshair_line(split_lines(content))]),
    ensures
        crosshair_of(split_lines(patched_crosshair(content, item).unwrap())) == Ok::<
            Seq<char>,
            Error,
        >(thumbnail_prefix() + file_stem(item.path)),
{
    let lines = split_lines(content);
    let patched = crosshair_patch(lines, item);
    let at = crosshair_line(lines);
    lemma_split_gives_lines(content);
    lemma_crosshair_patch_shape(lines, item);
    lemma_rewritten_lines_are_lines(lines, patched);
    lemma_find_line_bounds(lines, crosshair_key(), 0);
    lemma_find_line_bounds(lines, file_key(), block_start(lines));
    lemma_block_end_bounds(lines, block_start(lines));
    assert(in_block(lines, at));
    assert(crosshair_field(lines[at]) == Some(CrosshairField::File));
    lemma_crosshair_text_is_safe(CrosshairField::File, item);
    lemma_with_value_reads_back(lines[at], crosshair_text(CrosshairField::File, item));
    assert(patched[at] == crosshair_patch_line(lines, item, at));
}

/// Writing a crosshair is idempotent: written into the text that writing
/// it gave, it gives that text again. The crosshair's file stem holds
/// neither whitespace nor a quote.
pub proof fn law_crosshair_patch_idempotent(content: Seq<char>, item: CrosshairItemView)
    requires
        patched_crosshair(content, item) is Ok,
        plain(file_stem(item.path)),
    ensures
        patched_crosshair(patched_crosshair(content, item).unwrap(), item) == patched_crosshair(
            content,
            item,
        ),
{
    let lines = split_lines(content);
    let patched = crosshair_patch(lines, item);
    lemma_split_gives_lines(content);
    lemma_crosshair_patch_shape(lines, item);
    lemma_rewritten_lines_are_lines(lines, patched);
    let twice = crosshair_patch(patched, item);
    assert forall|i: int| 0 <= i < lines.len() implies twice[i] == patched[i] by {
        assert(crosshair_field(patched[i]) == crosshair_field(lines[i]));
        match crosshair_field(lines[i]) {
            Some(field) => {
                if in_block(lines, i) {
                    lemma_crosshair_text_is_safe(field, item);
                    lemma_with_value_idempotent(lines[i], crosshair_text(field, item));
                    assert(patched[i] == with_value(lines[i], crosshair_text(field, item)));
                    assert(twice[i] == with_value(patched[i], crosshair_text(field, item)));
                }
            },
            None => {},
        }
    }
    assert(twice =~= patched);
    assert(crosshair_block_ok(patched)) by {
        if has_block(patched) {
            assert forall|i: int|
                in_block(patched, i) && crosshair_field(#[trigger] patched[i]) is Some implies has_value(
                patched[i],
            ) by {
                lemma_find_line_bounds(lines, crosshair_key(), 0);
                lemma_block_end_bounds(lines, block_start(lines));
                assert(in_block(lines, i));
                assert(crosshair_field(lines[i]) is Some);
            }
        }
    }
}

/// A line that holds the value that the crosshair would write into it is
/// left as it is. So a crosshair written into a script that names it
/// already changes nothing but the offsets `"x"` and `"y"`, which it sets
/// to 0.
pub proof fn law_crosshair_patch_keeps_equal_values(
    lines: Seq<Seq<char>>,
    item: CrosshairItemView,
    i: int,
)
    requires
        0 <= i < lines.len(),
        crosshair_field(lines[i]) matches Some(field) ==> field_value(lines[i]) == crosshair_text(
            field,
            item,
        ),
    ensures
        crosshair_patch(lines, item)[i] == lines[i],
{
    lemma_with_own_value(lines[i]);
}

/// A crosshair written into a script whose crosshair block holds its
/// values already gives the text of the script.
pub proof fn law_same_crosshair_same_text(content: Seq<char>, item: CrosshairItemView)
    requires
        patched_crosshair(content, item) is Ok,
        forall|i: int|
            in_block(split_lines(content), i) ==> (crosshair_field(
                #[trigger] split_lines(content)[i],
            ) matches Some(field) ==> field_value(split_lines(content)[i]) == crosshair_text(
                field,
                item,
            )),
    ensures
        patched_crosshair(content, item) == Ok::<Seq<char>, Error>(content),
{
    let lines = split_lines(content);
    let patched = crosshair_patch(lines, item);
    assert forall|i: int| 0 <= i < lines.len() implies patched[i] == lines[i] by {
        if in_block(lines, i) {
            lemma_with_own_value(lines[i]);
        }
    }
    assert(patched =~= lines);
    lemma_join_split(content);
}

/// Round trip with the crosshair that a script names already. Take a
/// script into which the crosshair can be written, and whose crosshair
/// block holds the crosshair's path and size already. Then writing the
/// crosshair changes nothing but the values of `"x"` and `"y"`, which
/// become 0, and the new text names the crosshair that the old one named.
pub proof fn law_same_crosshair_round_trip(content: Seq<char>, item: CrosshairItemView)
    requires
        patched_crosshair(content, item) is Ok,
        forall|i: int|
            in_block(split_lines(content), i) ==> (crosshair_field(
                #[trigger] split_lines(content)[i],
            ) matches Some(field) ==> field == CrosshairField::X || field == CrosshairField::Y
                || field_value(split_lines(content)[i]) == crosshair_text(field, item)),
    ensures
        split_lines(patched_crosshair(content, item).unwrap()) == crosshair_patch(
            split_lines(content),
            item,
        ),
        forall|i: int|
            0 <= i < split_lines(content).len() ==> #[trigger] crosshair_patch(
                split_lines(content),
                item,
            )[i] == if in_block(split_lines(content), i) && (crosshair_field(
                split_lines(content)[i],
            ) == Some(CrosshairField::X) || crosshair_field(split_lines(content)[i]) == Some(
                CrosshairField::Y,
            )) {
                with_value(split_lines(content)[i], "0"@)
            } else {
                split_lines(content)[i]
            },
        crosshair_of(split_lines(patched_crosshair(content, item).unwrap())) == crosshair_of(
            split_lines(content),
        ),
{
    let lines = split_lines(content);
    let patched = crosshair_patch(lines, item);
    reveal_strlit("0");
    lemma_split_gives_lines(content);
    lemma_keys_have_no_space();
    assert(token_safe("0"@));
    assert forall|i: int| 0 <= i < lines.len() implies #[trigger] patched[i] == if in_block(lines, i)
        && (crosshair_field(lines[i]) == Some(CrosshairField::X) || crosshair_field(lines[i])
        == Some(CrosshairField::Y)) {
        with_value(lines[i], "0"@)
    } else {
        lines[i]
    } by {
        if in_block(lines, i) {
            lemma_with_own_value(lines[i]);
        }
    }
    assert forall|i: int| 0 <= i < lines.len() implies rewritten(#[trigger] lines[i], patched[i]) by {
        assert(patched[i] == lines[i] || patched[i] == with_value(lines[i], "0"@));
    }
    lemma_rewritten_lines_are_lines(lines, patched);
    lemma_find_line_rewritten(lines, patched, crosshair_key(), 0);
    lemma_find_line_rewritten(lines, patched, file_key(), block_start(lines));
    let at = crosshair_line(lines);
    lemma_find_line_bounds(lines, crosshair_key(), 0);
    lemma_find_line_bounds(lines, file_key(), block_start(lines));
    if has_block(lines) && at < lines.len() {
        assert(crosshair_field(lines[at]) == Some(CrosshairField::File));
        assert(patched[at] == lines[at]);
    }
}

/// Writing a crosshair changes no line outside the crosshair block, and in
/// the block none but the lines of the five fields.
pub proof fn law_crosshair_patch_is_confined(lines: Seq<Seq<char>>, item: CrosshairItemView, i: int)
    requires
        0 <= i < lines.len(),
        !in_block(lines, i) || crosshair_field(lines[i]) is None,
    ensures
        crosshair_patch(lines, item)[i] == lines[i],
{
}

/// Writing a crosshair changes no line that holds an explosion key.
pub proof fn law_crosshair_patch_keeps_explosion_lines(
    lines: Seq<Seq<char>>,
    item: CrosshairItemView,
    i: int,
)
    requires
        0 <= i < lines.len(),
        explosion_key(lines[i]) is Some,
    ensures
        crosshair_patch(lines, item)[i] == lines[i],
{
    lemma_crosshair_and_explosion_keys_exclude(lines[i]);
}

/// Writing an explosion effect changes no line but those that hold an
/// explosion key.
pub proof fn law_explosion_patch_is_confined(lines: Seq<Seq<char>>, effect: EffectView, i: int)
    requires
        0 <= i < lines.len(),
        explosion_key(lines[i]) is None,
    ensures
        explosion_patch(lines, effect)[i] == lines[i],
{
}

/// Writing an explosion effect changes neither the line that opens the
/// crosshair block nor a line that holds one of the crosshair's fields.
pub proof fn law_explosion_patch_keeps_crosshair_lines(
    lines: Seq<Seq<char>>,
    effect: EffectView,
    i: int,
)
    requires
        0 <= i < lines.len(),
        starts_with(lines[i], crosshair_key()) || crosshair_field(lines[i]) is Some,
    ensures
        explosion_patch(lines, effect)[i] == lines[i],
{
    lemma_crosshair_and_explosion_keys_exclude(lines[i]);
}

/// The default effect is written under each key by that key's own
/// identifier: `ExplosionCore_wall`, `ExplosionCore_MidAir` and
/// `ExplosionCore_MidAir_underwater`.
pub proof fn law_default_fan_out(lines: Seq<Seq<char>>, i: int)
    requires
        0 <= i < lines.len(),
    ensures
        explosion_key(lines[i]) == Some(ExplosionKey::Effect) ==> explosion_patch(
            lines,
            EffectView::Default,
        )[i] == with_value(lines[i], "ExplosionCore_wall"@),
        explosion_key(lines[i]) == Some(ExplosionKey::PlayerEffect) ==> explosion_patch(
            lines,
            EffectView::Default,
        )[i] == with_value(lines[i], "ExplosionCore_MidAir"@),
        explosion_key(lines[i]) == Some(ExplosionKey::WaterEffect) ==> explosion_patch(
            lines,
            EffectView::Default,
        )[i] == with_value(lines[i], "ExplosionCore_MidAir_underwater"@),
{
}

/// The script of a weapon that shows an explosion, and holds no
/// `"ExplosionEffect"` line, is refused for the missing field.
pub proof fn law_missing_explosion_effect(
    path: Seq<char>,
    class: Seq<char>,
    slot: u8,
    content: Seq<char>,
)
    requires
        names_file(path),
        is_explosion_capable(file_stem(path)),
        explosion_line(split_lines(content)) >= split_lines(content).len(),
    ensures
        loaded(path, class, slot, content) == Err::<WeaponFileView, Error>(
            Error::MissingRequiredField,
        ),
{
}

/// A weapon that is read has an explosion effect if and only if it shows
/// an explosion.
pub proof fn law_loaded_is_well_formed(
    path: Seq<char>,
    class: Seq<char>,
    slot: u8,
    content: Seq<char>,
)
    requires
        loaded(path, class, slot, content) is Ok,
    ensures
        loaded(path, class, slot, content).unwrap().well_formed(),
{
}

/// Whether the effect can be written into a script and read back: an
/// effect that this library does not know needs an identifier that is not
/// empty and holds neither whitespace nor a quote.
pub open spec fn writable(effect: EffectView) -> bool {
    effect matches EffectView::Other(identifier) ==> token_safe(identifier)
}

/// The identifiers of a writable effect can stand as the value of a line.
pub proof fn lemma_identifier_is_safe(effect: EffectView, key: ExplosionKey)
    requires
        writable(effect),
    ensures
        token_safe(effect.identifier_for(key)),
{
    reveal_strlit("ExplosionCore_wall");
    reveal_strlit("ExplosionCore_MidAir");
    reveal_strlit("ExplosionCore_MidAir_underwater");
    reveal_strlit("eotl_pyro_pool_explosion_flash");
    reveal_strlit("muzzle_minigun_starflash01");
    reveal_strlit("ExplosionCore_sapperdestroyed");
    reveal_strlit("electrocuted_red_flash");
}

/// Each of the five known effects is read back from the identifier that it
/// is written by under `"ExplosionEffect"`.
pub proof fn law_known_effect_reads_back(effect: EffectView)
    requires
        !(effect is Other),
    ensures
        EffectView::from_identifier(effect.identifier_for(ExplosionKey::Effect)) == effect,
{
    reveal_strlit("ExplosionCore_wall");
    reveal_strlit("eotl_pyro_pool_explosion_flash");
    reveal_strlit("muzzle_minigun_starflash01");
    reveal_strlit("ExplosionCore_sapperdestroyed");
    reveal_strlit("electrocuted_red_flash");
    assert("ExplosionCore_wall"@.len() == 18);
    assert("eotl_pyro_pool_explosion_flash"@.len() == 30);
    assert("muzzle_minigun_starflash01"@.len() == 26);
    assert("ExplosionCore_sapperdestroyed"@.len() == 29);
    assert("electrocuted_red_flash"@.len() == 22);
}

/// Each of the five known effects is read back from the name that it goes
/// by on screen.
pub proof fn law_known_effect_goes_by_its_name(effect: EffectView)
    requires
        !(effect is Other),
    ensures
        EffectView::from_display_name(effect.display_name()) == effect,
{
    reveal_strlit("Default");
    reveal_strlit("Pyro Pool");
    reveal_strlit("Muzzle Flash");
    reveal_strlit("Sapper Destroyed");
    reveal_strlit("Electric Shock");
    assert("Default"@.len() == 7);
    assert("Pyro Pool"@.len() == 9);
    assert("Muzzle Flash"@.len() == 12);
    assert("Sapper Destroyed"@.len() == 16);
    assert("Electric Shock"@.len() == 14);
}

/// Round trip of an explosion effect. Take a script whose first
/// `"ExplosionEffect"` line holds its value in one piece, and a writable
/// effect. If the effect can be written into the script, reading the new
/// text gives the effect of the identifier written under
/// `"ExplosionEffect"`: for each of the five known effects, the effect
/// itself.
pub proof fn law_explosion_round_trip(content: Seq<char>, effect: EffectView)
    requires
        patched_explosion(content, effect) is Ok,
        writable(effect),
        explosion_line(split_lines(content)) < split_lines(content).len(),
        holds_value_whole(split_lines(content)[explosion_line(split_lines(content))]),
    ensures
        explosion_of(split_lines(patched_explosion(content, effect).unwrap())) == Ok::<
            EffectView,
            Error,
        >(EffectView::from_identifier(effect.identifier_for(ExplosionKey::Effect))),
        !(effect is Other) ==> explosion_of(
            split_lines(patched_explosion(content, effect).unwrap()),
        ) == Ok::<EffectView, Error>(effect),
{
    let lines = split_lines(content);
    let patched = explosion_patch(lines, effect);
    let at = explosion_line(lines);
    let key = explosion_key_text(ExplosionKey::Effect);
    lemma_split_gives_lines(content);
    lemma_keys_have_no_space();
    assert forall|i: int| 0 <= i < lines.len() implies rewritten(#[trigger] lines[i], patched[i]) by {
        match explosion_key(lines[i]) {
            Some(k) => {
                lemma_identifier_is_safe(effect, k);
                assert(patched[i] == with_value(lines[i], effect.identifier_for(k)));
            },
            None => {},
        }
    }
    lemma_rewritten_lines_are_lines(lines, patched);
    lemma_find_line_rewritten(lines, patched, key, 0);
    lemma_find_line_bounds(lines, key, 0);
    assert(explosion_key(lines[at]) == Some(ExplosionKey::Effect));
    lemma_identifier_is_safe(effect, ExplosionKey::Effect);
    lemma_with_value_reads_back(lines[at], effect.identifier_for(ExplosionKey::Effect));
    assert(patched[at] == explosion_patch_line(lines, effect, at));
    if !(effect is Other) {
        law_known_effect_reads_back(effect);
    }
}

/// Writing an explosion effect leaves the crosshair that the script names
/// as it is, and writing a crosshair leaves the explosion effect.
pub proof fn law_patches_keep_the_other_field(
    content: Seq<char>,
    item: CrosshairItemView,
    effect: EffectView,
)
    requires
        writable(effect),
        plain(file_stem(item.path)),
    ensures
        patched_explosion(content, effect) matches Ok(text) ==> crosshair_of(split_lines(text))
            == crosshair_of(split_lines(content)),
        patched_crosshair(content, item) matches Ok(text) ==> explosion_of(split_lines(text))
            == explosion_of(split_lines(content)),
{
    let lines = split_lines(content);
    lemma_split_gives_lines(content);
    lemma_keys_have_no_space();
    if patched_explosion(content, effect) is Ok {
        let patched = explosion_patch(lines, effect);
        assert forall|i: int| 0 <= i < lines.len() implies rewritten(
            #[trigger] lines[i],
            patched[i],
        ) by {
            match explosion_key(lines[i]) {
                Some(k) => {
                    lemma_identifier_is_safe(effect, k);
                    assert(patched[i] == with_value(lines[i], effect.identifier_for(k)));
                },
                None => {},
            }
        }
        lemma_rewritten_lines_are_lines(lines, patched);
        lemma_find_line_rewritten(lines, patched, crosshair_key(), 0);
        lemma_find_line_rewritten(lines, patched, file_key(), block_start(lines));
        let at = crosshair_line(lines);
        lemma_find_line_bounds(lines, crosshair_key(), 0);
        lemma_find_line_bounds(lines, file_key(), block_start(lines));
        if has_block(lines) && at < lines.len() {
            law_explosion_patch_keeps_crosshair_lines(lines, effect, at);
        }
    }
    if patched_crosshair(content, item) is Ok {
        let patched = crosshair_patch(lines, item);
        lemma_crosshair_patch_shape(lines, item);
        lemma_rewritten_lines_are_lines(lines, patched);
        let key = explosion_key_text(ExplosionKey::Effect);
        lemma_find_line_rewritten(lines, patched, key, 0);
        let at = explosion_line(lines);
        lemma_find_line_bounds(lines, key, 0);
        if at < lines.len() {
            assert(explosion_key(lines[at]) == Some(ExplosionKey::Effect));
            law_crosshair_patch_keeps_explosion_lines(lines, item, at);
        }
    }
}

} // verus!
