//! Reads the crosshair and the explosion effect out of the text of a weapon
//! script. The two scans are independent of each other.

use crate::effect::EffectView;
use crate::effect::ExplosionEffect;
use crate::effect::ExplosionKey;
use crate::error::Error;
use crate::field::field_value;
use crate::field::has_value;
use crate::field::line_value;
use crate::script::block_start;
use crate::script::CrosshairKeys;
use crate::script::explosion_key_text;
use crate::script::ExplosionKeys;
use crate::script::file_key;
use crate::script::find_line;
use crate::script::find_line_from;
use crate::script::has_block;
use crate::text::chars_of;
use crate::text::line_seqs;
use crate::text::lines_of;
use crate::text::reads;
use crate::text::split_lines;
use crate::text::string_of;
use vstd::prelude::*;

verus! {

/// Whether the weapon `name` shows an explosion, and so has an explosion
/// effect in its script.
pub open spec fn is_explosion_capable(name: Seq<char>) -> bool {
    ||| name == "tf_weapon_rocketlauncher"@
    ||| name == "tf_weapon_particle_cannon"@
    ||| name == "tf_weapon_rocketlauncher_directhit"@
    ||| name == "tf_weapon_rocketlauncher_airstrike"@
    ||| name == "tf_weapon_grenadelauncher"@
    ||| name == "tf_weapon_cannon"@
    ||| name == "tf_weapon_pipebomblauncher"@
}

/// The line that holds the crosshair of the script: the first line that
/// opens with `"file"`, two lines or more behind the first line that opens
/// with `"crosshair"`. The number of lines where there is none.
pub open spec fn crosshair_line(lines: Seq<Seq<char>>) -> int {
    find_line(lines, file_key(), block_start(lines))
}

/// The crosshair that the script names: the value of its crosshair line,
/// or nothing where it has no such line.
pub open spec fn crosshair_of(lines: Seq<Seq<char>>) -> Result<Seq<char>, Error> {
    let at = crosshair_line(lines);
    if !has_block(lines) || at >= lines.len() {
        Ok(Seq::empty())
    } else if has_value(lines[at]) {
        Ok(field_value(lines[at]))
    } else {
        Err(Error::MalformedField)
    }
}

/// The line that holds the explosion effect of the script: the first line
/// that opens with `"ExplosionEffect"`. The number of lines where there is
/// none.
pub open spec fn explosion_line(lines: Seq<Seq<char>>) -> int {
    find_line(lines, explosion_key_text(ExplosionKey::Effect), 0)
}

/// The explosion effect that the script names.
pub open spec fn explosion_of(lines: Seq<Seq<char>>) -> Result<EffectView, Error> {
    let at = explosion_line(lines);
    if at >= lines.len() {
        Err(Error::MissingRequiredField)
    } else if has_value(lines[at]) {
        Ok(EffectView::from_identifier(field_value(lines[at])))
    } else {
        Err(Error::MalformedField)
    }
}

/// Whether the weapon `name` shows an explosion.
pub fn uses_explosion(name: &str) -> (b: bool)
    ensures
        b == is_explosion_capable(name@),
{
    let n = chars_of(name);
    reads(&n, "tf_weapon_rocketlauncher") || reads(&n, "tf_weapon_particle_cannon") || reads(
        &n,
        "tf_weapon_rocketlauncher_directhit",
    ) || reads(&n, "tf_weapon_rocketlauncher_airstrike") || reads(&n, "tf_weapon_grenadelauncher")
        || reads(&n, "tf_weapon_cannon") || reads(&n, "tf_weapon_pipebomblauncher")
}

/// The crosshair that the lines of a script name.
pub fn crosshair_in(lines: &Vec<Vec<char>>) -> (r: Result<Vec<char>, Error>)
    ensures
        match r {
            Ok(value) => crosshair_of(line_seqs(lines@)) == Ok::<Seq<char>, Error>(value@),
            Err(e) => crosshair_of(line_seqs(lines@)) == Err::<Seq<char>, Error>(e),
        },
{
    let keys = CrosshairKeys::new();
    let header = find_line_from(lines, &keys.crosshair, 0);
    if header >= lines.len() || lines.len() - header <= 2 {
        return Ok(Vec::new());
    }
    let at = find_line_from(lines, &keys.file, header + 2);
    if at >= lines.len() {
        return Ok(Vec::new());
    }
    match line_value(&lines[at]) {
        Some(value) => Ok(value),
        None => Err(Error::MalformedField),
    }
}

/// The explosion effect that the lines of a script name.
pub fn explosion_in(lines: &Vec<Vec<char>>) -> (r: Result<ExplosionEffect, Error>)
    ensures
        match r {
            Ok(effect) => explosion_of(line_seqs(lines@)) == Ok::<EffectView, Error>(effect@),
            Err(e) => explosion_of(line_seqs(lines@)) == Err::<EffectView, Error>(e),
        },
{
    let keys = ExplosionKeys::new();
    let at = find_line_from(lines, &keys.effect, 0);
    if at >= lines.len() {
        return Err(Error::MissingRequiredField);
    }
    match line_value(&lines[at]) {
        Some(value) => {
            let identifier = string_of(&value);
            Ok(ExplosionEffect::from_weapon_file_str(identifier.as_str()))
        },
        None => Err(Error::MalformedField),
    }
}

/// The crosshair that the script `content` names; the empty string where
/// it names none.
///
/// Fails with [`Error::MalformedField`] where the crosshair line has no
/// value.
pub fn read_crosshair(content: &str) -> (r: Result<String, Error>)
    ensures
        match r {
            Ok(value) => crosshair_of(split_lines(content@)) == Ok::<Seq<char>, Error>(value@),
            Err(e) => crosshair_of(split_lines(content@)) == Err::<Seq<char>, Error>(e),
        },
{
    let text = chars_of(content);
    let lines = lines_of(&text);
    match crosshair_in(&lines) {
        Ok(value) => Ok(string_of(&value)),
        Err(e) => Err(e),
    }
}

/// The explosion effect that the script `content` names.
///
/// Fails with [`Error::MissingRequiredField`] where no line opens with
/// `"ExplosionEffect"`, and with [`Error::MalformedField`] where the first
/// such line has no value.
pub fn read_explosion(content: &str) -> (r: Result<ExplosionEffect, Error>)
    ensures
        match r {
            Ok(effect) => explosion_of(split_lines(content@)) == Ok::<EffectView, Error>(effect@),
            Err(e) => explosion_of(split_lines(content@)) == Err::<EffectView, Error>(e),
        },
{
    let text = chars_of(content);
    let lines = lines_of(&text);
    explosion_in(&lines)
}

} // verus!
