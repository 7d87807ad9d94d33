//! Writes a new crosshair, or a new explosion effect, into the text of a
//! weapon script. Only the value tokens of the lines concerned change.

use crate::crosshair::CrosshairItem;
use crate::crosshair::CrosshairItemView;
use crate::effect::EffectView;
use crate::effect::ExplosionEffect;
use crate::error::Error;
use crate::field::append_slice;
use crate::field::has_value;
use crate::field::line_with_value;
use crate::field::with_value;
use crate::number::decimal;
use crate::number::decimal_of;
use crate::path::file_stem;
use crate::path::file_stem_of;
use crate::script::block_end;
use crate::script::block_start;
use crate::script::closes_block;
use crate::script::crosshair_field;
use crate::script::crosshair_key;
use crate::script::CrosshairField;
use crate::script::CrosshairKeys;
use crate::script::explosion_key;
use crate::script::ExplosionKeys;
use crate::script::file_key;
use crate::script::find_line;
use crate::script::find_line_from;
use crate::script::has_block;
use crate::script::has_closing_brace;
use crate::script::in_block;
use crate::script::lemma_block_end_bounds;
use crate::script::lemma_find_line_bounds;
use crate::text::chars_of;
use crate::text::join_lines;
use crate::text::join_of;
use crate::text::line_seqs;
use crate::text::lines_of;
use crate::text::split_lines;
use crate::text::string_of;
use vstd::prelude::*;

verus! {

/// The directory under which a script names its crosshair image.
pub open spec fn thumbnail_prefix() -> Seq<char> {
    "vgui/replay/thumbnails/"@
}

/// The size written for a crosshair: `size` in decimal notation, or 64
/// where the size is not known.
pub open spec fn size_text(size: i32) -> Seq<char> {
    if size != 0 {
        decimal(size as int)
    } else {
        "64"@
    }
}

/// The value that a new crosshair writes into `field`.
pub open spec fn crosshair_text(field: CrosshairField, item: CrosshairItemView) -> Seq<char> {
    match field {
        CrosshairField::File => thumbnail_prefix() + file_stem(item.path),
        CrosshairField::X => "0"@,
        CrosshairField::Y => "0"@,
        CrosshairField::Width => size_text(item.size.0),
        CrosshairField::Height => size_text(item.size.1),
    }
}

/// Line `i` of the script after the crosshair `item` was written: a field
/// line of the crosshair block holds the new value, any other line is as it
/// was.
pub open spec fn crosshair_patch_line(
    lines: Seq<Seq<char>>,
    item: CrosshairItemView,
    i: int,
) -> Seq<char> {
    match crosshair_field(lines[i]) {
        Some(field) if in_block(lines, i) => with_value(lines[i], crosshair_text(field, item)),
        _ => lines[i],
    }
}

/// The lines of the script after the crosshair `item` was written.
pub open spec fn crosshair_patch(lines: Seq<Seq<char>>, item: CrosshairItemView) -> Seq<
    Seq<char>,
> {
    Seq::new(lines.len(), |i: int| crosshair_patch_line(lines, item, i))
}

/// Whether a crosshair can be written into the script: every field line of
/// the crosshair block holds a value, and the block holds a `"file"` line.
/// A script without a crosshair block has nothing to write into and is
/// accepted.
pub open spec fn crosshair_block_ok(lines: Seq<Seq<char>>) -> bool {
    has_block(lines) ==> {
        &&& forall|i: int|
            in_block(lines, i) && crosshair_field(#[trigger] lines[i]) is Some ==> has_value(
                lines[i],
            )
        &&& find_line(lines, file_key(), block_start(lines)) < block_end(
            lines,
            block_start(lines),
        )
    }
}

/// The text of the script `content` after the crosshair `item` was
/// written.
pub open spec fn patched_crosshair(content: Seq<char>, item: CrosshairItemView) -> Result<
    Seq<char>,
    Error,
> {
    let lines = split_lines(content);
    if crosshair_block_ok(lines) {
        Ok(join_lines(crosshair_patch(lines, item)))
    } else {
        Err(Error::MalformedField)
    }
}

/// Line `i` of the script after the explosion effect was written: a line
/// under one of the three explosion keys holds the effect's identifier for
/// that key, any other line is as it was.
pub open spec fn explosion_patch_line(lines: Seq<Seq<char>>, effect: EffectView, i: int) -> Seq<
    char,
> {
    match explosion_key(lines[i]) {
        Some(key) => with_value(lines[i], effect.identifier_for(key)),
        None => lines[i],
    }
}

/// The lines of the script after the explosion effect was written.
pub open spec fn explosion_patch(lines: Seq<Seq<char>>, effect: EffectView) -> Seq<Seq<char>> {
    Seq::new(lines.len(), |i: int| explosion_patch_line(lines, effect, i))
}

/// Whether an explosion effect can be written into the script: every line
/// under an explosion key holds a value.
pub open spec fn explosion_lines_ok(lines: Seq<Seq<char>>) -> bool {
    forall|i: int|
        0 <= i < lines.len() && explosion_key(#[trigger] lines[i]) is Some ==> has_value(lines[i])
}

/// The text of the script `content` after the explosion effect was
/// written.
pub open spec fn patched_explosion(content: Seq<char>, effect: EffectView) -> Result<
    Seq<char>,
    Error,
> {
    let lines = split_lines(content);
    if explosion_lines_ok(lines) {
        Ok(join_lines(explosion_patch(lines, effect)))
    } else {
        Err(Error::MalformedField)
    }
}

/// The values that a crosshair writes, as characters.
struct CrosshairTexts {
    file: Vec<char>,
    zero: Vec<char>,
    width: Vec<char>,
    height: Vec<char>,
}

impl CrosshairTexts {
    spec fn stands_for(&self, item: CrosshairItemView) -> bool {
        &&& self.file@ == crosshair_text(CrosshairField::File, item)
        &&& self.zero@ == crosshair_text(CrosshairField::X, item)
        &&& self.zero@ == crosshair_text(CrosshairField::Y, item)
        &&& self.width@ == crosshair_text(CrosshairField::Width, item)
        &&& self.height@ == crosshair_text(CrosshairField::Height, item)
    }

    fn new(item: &CrosshairItem) -> (texts: CrosshairTexts)
        ensures
            texts.stands_for(item@),
    {
        let mut file = chars_of("vgui/replay/thumbnails/");
        let path = chars_of(item.path.as_str());
        let stem = file_stem_of(&path);
        append_slice(&mut file, &stem, 0, stem.len());
        assert(stem@.subrange(0, stem@.len() as int) =~= stem@);
        CrosshairTexts {
            file,
            zero: chars_of("0"),
            width: size_text_of(item.size.0),
            height: size_text_of(item.size.1),
        }
    }

    fn get(&self, field: CrosshairField) -> (text: &Vec<char>)
        ensures
            forall|item: CrosshairItemView|
                self.stands_for(item) ==> text@ == crosshair_text(field, item),
    {
        match field {
            CrosshairField::File => &self.file,
            CrosshairField::X => &self.zero,
            CrosshairField::Y => &self.zero,
            CrosshairField::Width => &self.width,
            CrosshairField::Height => &self.height,
        }
    }
}

/// Executable [`size_text`].
fn size_text_of(size: i32) -> (text: Vec<char>)
    ensures
        text@ == size_text(size),
{
    if size != 0 {
        decimal_of(size)
    } else {
        chars_of("64")
    }
}

/// Writes the crosshair `item` into `lines`. On failure the lines hold a
/// part of the change and are of no use.
fn patch_crosshair_lines(lines: &mut Vec<Vec<char>>, item: &CrosshairItem) -> (ok: bool)
    ensures
        ok == crosshair_block_ok(line_seqs(old(lines)@)),
        ok ==> line_seqs(final(lines)@) == crosshair_patch(line_seqs(old(lines)@), item@),
{
    let ghost orig = line_seqs(lines@);
    let keys = CrosshairKeys::new();
    let header = find_line_from(lines, &keys.crosshair, 0);
    if header >= lines.len() {
        assert(line_seqs(lines@) =~= crosshair_patch(orig, item@));
        return true;
    }
    proof {
        lemma_find_line_bounds(orig, file_key(), header + 2);
        lemma_block_end_bounds(orig, header + 2);
    }
    if lines.len() - header <= 2 {
        return false;
    }
    let texts = CrosshairTexts::new(item);
    let start: usize = header + 2;
    let mut seen_file = false;
    let mut i: usize = start;
    let mut closed = false;
    while i < lines.len() && !closed
        invariant
            orig == line_seqs(old(lines)@),
            orig.len() == lines.len(),
            header == find_line(orig, crosshair_key(), 0),
            header < lines.len(),
            start == header + 2,
            start <= i <= lines.len(),
            keys.well_formed(),
            texts.stands_for(item@),
            closed ==> i < lines.len() && closes_block(orig[i as int]),
            block_end(orig, start as int) == block_end(orig, i as int),
            seen_file ==> find_line(orig, file_key(), start as int) < i,
            !seen_file ==> find_line(orig, file_key(), start as int) == find_line(
                orig,
                file_key(),
                i as int,
            ),
            forall|j: int|
                start <= j < i && crosshair_field(#[trigger] orig[j]) is Some ==> has_value(
                    orig[j],
                ),
            forall|j: int|
                0 <= j < i ==> (#[trigger] lines@[j])@ == crosshair_patch_line(orig, item@, j),
            forall|j: int| i <= j < lines.len() ==> (#[trigger] lines@[j])@ == orig[j],
        decreases lines.len() - i, if closed { 0int } else { 1int },
    {
        proof {
            lemma_block_end_bounds(orig, i as int + 1);
            lemma_find_line_bounds(orig, file_key(), i as int + 1);
        }
        match keys.field_of(&lines[i]) {
            Some(field) => {
                let text = texts.get(field);
                match line_with_value(&lines[i], text) {
                    Some(line) => {
                        lines.set(i, line);
                    },
                    None => {
                        assert(in_block(orig, i as int));
                        return false;
                    },
                }
                if !seen_file {
                    match field {
                        CrosshairField::File => {
                            seen_file = true;
                        },
                        _ => {},
                    }
                }
                i += 1;
            },
            None => {
                if has_closing_brace(&lines[i]) {
                    closed = true;
                } else {
                    i += 1;
                }
            },
        }
    }
    proof {
        lemma_find_line_bounds(orig, file_key(), i as int);
        assert(block_end(orig, start as int) == i);
        assert forall|j: int| 0 <= j < lines.len() implies (#[trigger] lines@[j])@
            == crosshair_patch_line(orig, item@, j) by {}
        assert(line_seqs(lines@) =~= crosshair_patch(orig, item@));
    }
    seen_file
}

/// Writes the explosion effect into `lines`. On failure the lines hold a
/// part of the change and are of no use.
fn patch_explosion_lines(lines: &mut Vec<Vec<char>>, effect: &ExplosionEffect) -> (ok: bool)
    ensures
        ok == explosion_lines_ok(line_seqs(old(lines)@)),
        ok ==> line_seqs(final(lines)@) == explosion_patch(line_seqs(old(lines)@), effect@),
{
    let ghost orig = line_seqs(lines@);
    let keys = ExplosionKeys::new();
    let mut i: usize = 0;
    while i < lines.len()
        invariant
            orig == line_seqs(old(lines)@),
            orig.len() == lines.len(),
            i <= lines.len(),
            keys.well_formed(),
            forall|j: int|
                0 <= j < i && explosion_key(#[trigger] orig[j]) is Some ==> has_value(orig[j]),
            forall|j: int|
                0 <= j < i ==> (#[trigger] lines@[j])@ == explosion_patch_line(orig, effect@, j),
            forall|j: int| i <= j < lines.len() ==> (#[trigger] lines@[j])@ == orig[j],
        decreases lines.len() - i,
    {
        match keys.key_of(&lines[i]) {
            Some(key) => {
                let text = chars_of(effect.identifier_for(key));
                match line_with_value(&lines[i], &text) {
                    Some(line) => {
                        lines.set(i, line);
                    },
                    None => {
                        return false;
                    },
                }
            },
            None => {},
        }
        i += 1;
    }
    assert(line_seqs(lines@) =~= explosion_patch(orig, effect@));
    true
}

/// Writes the crosshair `item` into the script `content` and gives the new
/// text.
///
/// The crosshair block begins two lines behind the first line that opens
/// with `"crosshair"` and ends before the first line that holds `}` and no
/// field. In it, `"file"` gets the crosshair's path under
/// `vgui/replay/thumbnails/`, `"x"` and `"y"` get `0`, `"width"` and
/// `"height"` get the crosshair's size, or `64` where that is not known.
/// Fails with [`Error::MalformedField`] where a field line of the block has
/// no value, or the block has no `"file"` line.
pub fn patch_crosshair(content: &str, item: &CrosshairItem) -> (r: Result<String, Error>)
    ensures
        match r {
            Ok(text) => patched_crosshair(content@, item@) == Ok::<Seq<char>, Error>(text@),
            Err(e) => patched_crosshair(content@, item@) == Err::<Seq<char>, Error>(e),
        },
{
    let text = chars_of(content);
    let mut lines = lines_of(&text);
    if patch_crosshair_lines(&mut lines, item) {
        Ok(string_of(&join_of(&lines)))
    } else {
        Err(Error::MalformedField)
    }
}

/// Writes the explosion effect into the script `content` and gives the new
/// text.
///
/// Every line that opens with `"ExplosionEffect"`, `"ExplosionPlayerEffect"`
/// or `"ExplosionWaterEffect"` gets the effect's identifier for that key.
/// Fails with [`Error::MalformedField`] where such a line has no value.
pub fn patch_explosion(content: &str, effect: &ExplosionEffect) -> (r: Result<String, Error>)
    ensures
        match r {
            Ok(text) => patched_explosion(content@, effect@) == Ok::<Seq<char>, Error>(text@),
            Err(e) => patched_explosion(content@, effect@) == Err::<Seq<char>, Error>(e),
        },
{
    let text = chars_of(content);
    let mut lines = lines_of(&text);
    if patch_explosion_lines(&mut lines, effect) {
        Ok(string_of(&join_of(&lines)))
    } else {
        Err(Error::MalformedField)
    }
}

} // verus!
