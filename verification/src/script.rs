//! The shape of a weapon script: its keys, the line that opens the
//! `"crosshair"` block, and the lines that belong to that block.

use crate::effect::ExplosionKey;
use crate::field::line_starts_with;
use crate::field::starts_with;
use crate::text::chars_of;
use vstd::prelude::*;

verus! {

/// The key that opens the crosshair block.
pub open spec fn crosshair_key() -> Seq<char> {
    "\"crosshair\""@
}

/// The key of the crosshair's image.
pub open spec fn file_key() -> Seq<char> {
    "\"file\""@
}

/// The key of the crosshair's horizontal offset.
pub open spec fn x_key() -> Seq<char> {
    "\"x\""@
}

/// The key of the crosshair's vertical offset.
pub open spec fn y_key() -> Seq<char> {
    "\"y\""@
}

/// The key of the crosshair's width.
pub open spec fn width_key() -> Seq<char> {
    "\"width\""@
}

/// The key of the crosshair's height.
pub open spec fn height_key() -> Seq<char> {
    "\"height\""@
}

/// The text of an explosion key.
pub open spec fn explosion_key_text(key: ExplosionKey) -> Seq<char> {
    match key {
        ExplosionKey::Effect => "\"ExplosionEffect\""@,
        ExplosionKey::PlayerEffect => "\"ExplosionPlayerEffect\""@,
        ExplosionKey::WaterEffect => "\"ExplosionWaterEffect\""@,
    }
}

/// The fields of a crosshair block that a new crosshair rewrites.
#[derive(Clone, Copy, Debug, PartialEq, Eq, Structural)]
pub enum CrosshairField {
    File,
    X,
    Y,
    Width,
    Height,
}

/// The crosshair field that `line` holds, if any.
pub open spec fn crosshair_field(line: Seq<char>) -> Option<CrosshairField> {
    if starts_with(line, file_key()) {
        Some(CrosshairField::File)
    } else if starts_with(line, x_key()) {
        Some(CrosshairField::X)
    } else if starts_with(line, y_key()) {
        Some(CrosshairField::Y)
    } else if starts_with(line, width_key()) {
        Some(CrosshairField::Width)
    } else if starts_with(line, height_key()) {
        Some(CrosshairField::Height)
    } else {
        None
    }
}

/// The explosion key that `line` holds, if any.
pub open spec fn explosion_key(line: Seq<char>) -> Option<ExplosionKey> {
    if starts_with(line, explosion_key_text(ExplosionKey::Effect)) {
        Some(ExplosionKey::Effect)
    } else if starts_with(line, explosion_key_text(ExplosionKey::PlayerEffect)) {
        Some(ExplosionKey::PlayerEffect)
    } else if starts_with(line, explosion_key_text(ExplosionKey::WaterEffect)) {
        Some(ExplosionKey::WaterEffect)
    } else {
        None
    }
}

/// The first line at or after `from` that opens with `key`; the number of
/// lines where there is none.
pub open spec fn find_line(lines: Seq<Seq<char>>, key: Seq<char>, from: int) -> int
    decreases lines.len() - from,
{
    if from < 0 || from >= lines.len() {
        lines.len() as int
    } else if starts_with(lines[from], key) {
        from
    } else {
        find_line(lines, key, from + 1)
    }
}

/// Whether the script has a line that opens a crosshair block.
pub open spec fn has_block(lines: Seq<Seq<char>>) -> bool {
    find_line(lines, crosshair_key(), 0) < lines.len()
}

/// The first line of the crosshair block that is looked at. The line that
/// follows the `"crosshair"` line, where the opening brace stands, is
/// passed over.
pub open spec fn block_start(lines: Seq<Seq<char>>) -> int {
    find_line(lines, crosshair_key(), 0) + 2
}

/// Whether `line` ends the crosshair block: it holds a closing brace and
/// none of the crosshair fields.
pub open spec fn closes_block(line: Seq<char>) -> bool {
    crosshair_field(line) is None && line.contains('}')
}

/// The first line at or after `from` that closes the block; the number of
/// lines where there is none.
pub open spec fn block_end(lines: Seq<Seq<char>>, from: int) -> int
    decreases lines.len() - from,
{
    if from < 0 || from >= lines.len() {
        lines.len() as int
    } else if closes_block(lines[from]) {
        from
    } else {
        block_end(lines, from + 1)
    }
}

/// Whether line `i` lies in the crosshair block: behind the passed-over
/// line and before the line that closes the block.
pub open spec fn in_block(lines: Seq<Seq<char>>, i: int) -> bool {
    has_block(lines) && block_start(lines) <= i < block_end(lines, block_start(lines))
}

/// `find_line` gives a line at or after `from`, or the number of lines.
pub proof fn lemma_find_line_bounds(lines: Seq<Seq<char>>, key: Seq<char>, from: int)
    requires
        0 <= from,
    ensures
        find_line(lines, key, from) <= lines.len(),
        from <= lines.len() ==> from <= find_line(lines, key, from),
        find_line(lines, key, from) < lines.len() ==> starts_with(
            lines[find_line(lines, key, from)],
            key,
        ),
    decreases lines.len() - from,
{
    if from < lines.len() && !starts_with(lines[from], key) {
        lemma_find_line_bounds(lines, key, from + 1);
    }
}

/// `block_end` gives a line at or after `from`, or the number of lines.
pub proof fn lemma_block_end_bounds(lines: Seq<Seq<char>>, from: int)
    requires
        0 <= from,
    ensures
        block_end(lines, from) <= lines.len(),
        from <= lines.len() ==> from <= block_end(lines, from),
    decreases lines.len() - from,
{
    if from < lines.len() && !closes_block(lines[from]) {
        lemma_block_end_bounds(lines, from + 1);
    }
}

/// The keys of the crosshair block as characters, made once for a scan.
pub(crate) struct CrosshairKeys {
    pub crosshair: Vec<char>,
    pub file: Vec<char>,
    pub x: Vec<char>,
    pub y: Vec<char>,
    pub width: Vec<char>,
    pub height: Vec<char>,
}

impl CrosshairKeys {
    /// Whether each field holds the text of its key.
    pub(crate) open spec fn well_formed(&self) -> bool {
        &&& self.crosshair@ == crosshair_key()
        &&& self.file@ == file_key()
        &&& self.x@ == x_key()
        &&& self.y@ == y_key()
        &&& self.width@ == width_key()
        &&& self.height@ == height_key()
    }

    pub(crate) fn new() -> (keys: CrosshairKeys)
        ensures
            keys.well_formed(),
    {
        CrosshairKeys {
            crosshair: chars_of("\"crosshair\""),
            file: chars_of("\"file\""),
            x: chars_of("\"x\""),
            y: chars_of("\"y\""),
            width: chars_of("\"width\""),
            height: chars_of("\"height\""),
        }
    }

    /// Executable [`crosshair_field`].
    pub(crate) fn field_of(&self, line: &Vec<char>) -> (r: Option<CrosshairField>)
        requires
            self.well_formed(),
        ensures
            r == crosshair_field(line@),
    {
        if line_starts_with(line, &self.file) {
            Some(CrosshairField::File)
        } else if line_starts_with(line, &self.x) {
            Some(CrosshairField::X)
        } else if line_starts_with(line, &self.y) {
            Some(CrosshairField::Y)
        } else if line_starts_with(line, &self.width) {
            Some(CrosshairField::Width)
        } else if line_starts_with(line, &self.height) {
            Some(CrosshairField::Height)
        } else {
            None
        }
    }
}

/// The three explosion keys as characters, made once for a scan.
pub(crate) struct ExplosionKeys {
    pub effect: Vec<char>,
    pub player_effect: Vec<char>,
    pub water_effect: Vec<char>,
}

impl ExplosionKeys {
    /// Whether each field holds the text of its key.
    pub(crate) open spec fn well_formed(&self) -> bool {
        &&& self.effect@ == explosion_key_text(ExplosionKey::Effect)
        &&& self.player_effect@ == explosion_key_text(ExplosionKey::PlayerEffect)
        &&& self.water_effect@ == explosion_key_text(ExplosionKey::WaterEffect)
    }

    pub(crate) fn new() -> (keys: ExplosionKeys)
        ensures
            keys.well_formed(),
    {
        ExplosionKeys {
            effect: chars_of("\"ExplosionEffect\""),
            player_effect: chars_of("\"ExplosionPlayerEffect\""),
            water_effect: chars_of("\"ExplosionWaterEffect\""),
        }
    }

    /// Executable [`explosion_key`].
    pub(crate) fn key_of(&self, line: &Vec<char>) -> (r: Option<ExplosionKey>)
        requires
            self.well_formed(),
        ensures
            r == explosion_key(line@),
    {
        if line_starts_with(line, &self.effect) {
            Some(ExplosionKey::Effect)
        } else if line_starts_with(line, &self.player_effect) {
            Some(ExplosionKey::PlayerEffect)
        } else if line_starts_with(line, &self.water_effect) {
            Some(ExplosionKey::WaterEffect)
        } else {
            None
        }
    }
}

/// Executable [`find_line`].
pub(crate) fn find_line_from(lines: &Vec<Vec<char>>, key: &Vec<char>, from: usize) -> (i: usize)
    ensures
        i == find_line(crate::text::line_seqs(lines@), key@, from as int),
        i <= lines.len(),
        from <= lines.len() ==> from <= i,
{
    let ghost all = crate::text::line_seqs(lines@);
    if from >= lines.len() {
        return lines.len();
    }
    let mut i: usize = from;
    while i < lines.len()
        invariant
            from <= i <= lines.len(),
            all == crate::text::line_seqs(lines@),
            find_line(all, key@, from as int) == find_line(all, key@, i as int),
        decreases lines.len() - i,
    {
        if line_starts_with(&lines[i], key) {
            return i;
        }
        i += 1;
    }
    i
}

/// Whether `line` holds a closing brace.
pub(crate) fn has_closing_brace(line: &Vec<char>) -> (b: bool)
    ensures
        b == line@.contains('}'),
{
    let mut i: usize = 0;
    while i < line.len()
        invariant
            i <= line.len(),
            forall|j: int| 0 <= j < i ==> line@[j] != '}',
        decreases line.len() - i,
    {
        if line[i] == '}' {
            return true;
        }
        i += 1;
    }
    false
}

} // verus!
