//! A weapon as its script describes it.

use crate::crosshair::CrosshairItem;
use crate::crosshair::message_views;
use crate::effect::EffectView;
use crate::effect::ExplosionEffect;
use crate::error::Error;
use crate::error::error_text;
use crate::field::field_value;
use crate::field::has_value;
use crate::field::line_value;
use crate::field::line_with_value;
use crate::field::with_value;
use crate::load::crosshair_in;
use crate::load::crosshair_of;
use crate::load::explosion_in;
use crate::load::explosion_of;
use crate::load::is_explosion_capable;
use crate::load::uses_explosion;
use crate::patch::patch_crosshair;
use crate::patch::patch_explosion;
use crate::patch::patched_crosshair;
use crate::patch::patched_explosion;
use crate::path::file_name;
use crate::path::file_name_of;
use crate::path::file_stem;
use crate::path::file_stem_of;
use crate::path::names_file;
use crate::path::path_names_file;
use crate::text::append_str;
use crate::text::chars_of;
use crate::text::lines_of;
use crate::text::same_chars;
use crate::text::split_lines;
use crate::text::string_of;
use vstd::prelude::*;

verus! {

/// A weapon, read from its script.
#[derive(Clone, Debug)]
pub struct WeaponFile {
    /// The weapon's identifier: the stem of the script's file name.
    pub name: String,
    /// Where the script lies.
    pub path: String,
    /// The class that carries the weapon.
    pub class: String,
    /// The slot that the weapon takes.
    pub slot: u8,
    /// The crosshair that the script names; empty where it names none.
    pub crosshair: String,
    /// The explosion effect that the script names. Present for the weapons
    /// that show an explosion, and for no other.
    pub explosion_effect: Option<ExplosionEffect>,
}

/// The mathematical value of a [`WeaponFile`].
pub struct WeaponFileView {
    pub name: Seq<char>,
    pub path: Seq<char>,
    pub class: Seq<char>,
    pub slot: u8,
    pub crosshair: Seq<char>,
    pub explosion_effect: Option<EffectView>,
}

impl View for WeaponFile {
    type V = WeaponFileView;

    open spec fn view(&self) -> WeaponFileView {
        WeaponFileView {
            name: self.name@,
            path: self.path@,
            class: self.class@,
            slot: self.slot,
            crosshair: self.crosshair@,
            explosion_effect: match self.explosion_effect {
                Some(effect) => Some(effect@),
                None => None,
            },
        }
    }
}

impl WeaponFileView {
    /// A weapon has an explosion effect if and only if it shows an
    /// explosion.
    pub open spec fn well_formed(self) -> bool {
        self.explosion_effect is Some <==> is_explosion_capable(self.name)
    }
}

/// The explosion effect of the weapon `name` as its script gives it: none
/// for a weapon that shows no explosion.
pub open spec fn effect_of(name: Seq<char>, lines: Seq<Seq<char>>) -> Result<
    Option<EffectView>,
    Error,
> {
    if is_explosion_capable(name) {
        match explosion_of(lines) {
            Ok(effect) => Ok(Some(effect)),
            Err(e) => Err(e),
        }
    } else {
        Ok(None)
    }
}

/// The weapon that the script `content` at `path` describes.
pub open spec fn loaded(path: Seq<char>, class: Seq<char>, slot: u8, content: Seq<char>) -> Result<
    WeaponFileView,
    Error,
> {
    let lines = split_lines(content);
    if !names_file(path) {
        Err(Error::NotFound)
    } else {
        match (effect_of(file_stem(path), lines), crosshair_of(lines)) {
            (Err(e), _) => Err(e),
            (Ok(_), Err(e)) => Err(e),
            (Ok(explosion_effect), Ok(crosshair)) => Ok(
                WeaponFileView {
                    name: file_stem(path),
                    path,
                    class,
                    slot,
                    crosshair,
                    explosion_effect,
                },
            ),
        }
    }
}

impl WeaponFile {
    /// Reads the weapon that the script `content`, found at `path`,
    /// describes.
    ///
    /// The weapon's name is the stem of the file name. Its crosshair is the
    /// value of the first `"file"` line two lines or more behind the first
    /// `"crosshair"` line. A weapon that shows an explosion takes its effect
    /// from the first `"ExplosionEffect"` line.
    ///
    /// Fails with [`Error::NotFound`] where `path` names no file, with
    /// [`Error::MissingRequiredField`] where a weapon that shows an
    /// explosion has no `"ExplosionEffect"` line, and with
    /// [`Error::MalformedField`] where one of the two lines has no value.
    pub fn new(path: &str, class: String, slot: u8, content: &str) -> (r: Result<
        WeaponFile,
        Error,
    >)
        ensures
            match r {
                Ok(weapon) => loaded(path@, class@, slot, content@) == Ok::<WeaponFileView, Error>(
                    weapon@,
                ) && weapon@.well_formed(),
                Err(e) => loaded(path@, class@, slot, content@) == Err::<WeaponFileView, Error>(e),
            },
    {
        let path_chars = chars_of(path);
        if !path_names_file(&path_chars) {
            return Err(Error::NotFound);
        }
        let name = string_of(&file_stem_of(&path_chars));
        let text = chars_of(content);
        let lines = lines_of(&text);
        let explosion_effect = if uses_explosion(name.as_str()) {
            match explosion_in(&lines) {
                Ok(effect) => Some(effect),
                Err(e) => {
                    return Err(e);
                },
            }
        } else {
            None
        };
        let crosshair = match crosshair_in(&lines) {
            Ok(value) => string_of(&value),
            Err(e) => {
                return Err(e);
            },
        };
        Ok(WeaponFile { name, path: string_of(&path_chars), class, slot, crosshair, explosion_effect })
    }

    /// The value of `line`: its second token, without the quotes.
    ///
    /// Fails with [`Error::MalformedField`] where the line has no second
    /// token.
    pub fn get_value(line: &str) -> (r: Result<String, Error>)
        ensures
            match r {
                Ok(value) => has_value(line@) && value@ == field_value(line@),
                Err(e) => !has_value(line@) && e == Error::MalformedField,
            },
    {
        match line_value(&chars_of(line)) {
            Some(value) => Ok(string_of(&value)),
            None => Err(Error::MalformedField),
        }
    }

    /// Writes `value` into the value token of line `i`. The other lines, and
    /// the rest of line `i`, stay as they are.
    ///
    /// Fails with [`Error::MalformedField`], and changes nothing, where the
    /// line has no value token.
    pub fn replace_value(vec: &mut Vec<String>, i: usize, value: &str) -> (r: Result<(), Error>)
        requires
            i < old(vec).len(),
        ensures
            final(vec).len() == old(vec).len(),
            forall|j: int| 0 <= j < old(vec).len() && j != i ==> final(vec)@[j] == old(vec)@[j],
            match r {
                Ok(_) => has_value(old(vec)@[i as int]@) && final(vec)@[i as int]@ == with_value(
                    old(vec)@[i as int]@,
                    value@,
                ),
                Err(e) => !has_value(old(vec)@[i as int]@) && e == Error::MalformedField
                    && final(vec)@ == old(vec)@,
            },
    {
        let line = chars_of(vec[i].as_str());
        match line_with_value(&line, &chars_of(value)) {
            Some(new_line) => {
                vec.set(i, string_of(&new_line));
                Ok(())
            },
            None => Err(Error::MalformedField),
        }
    }

    /// The text of the weapon's script `content` with the crosshair
    /// `crosshair` written into it: see [`patch_crosshair`].
    pub fn replace_crosshair(&self, content: &str, crosshair: &CrosshairItem) -> (r: Result<
        String,
        Error,
    >)
        ensures
            match r {
                Ok(text) => patched_crosshair(content@, crosshair@) == Ok::<Seq<char>, Error>(
                    text@,
                ),
                Err(e) => patched_crosshair(content@, crosshair@) == Err::<Seq<char>, Error>(e),
            },
    {
        patch_crosshair(content, crosshair)
    }

    /// The text of the weapon's script `content` with the explosion effect
    /// `explosion` written into it: see [`patch_explosion`].
    ///
    /// Fails with [`Error::UnsupportedOperation`] where the weapon shows no
    /// explosion.
    pub fn replace_explosion(&self, content: &str, explosion: &ExplosionEffect) -> (r: Result<
        String,
        Error,
    >)
        ensures
            !is_explosion_capable(self@.name) ==> r == Err::<String, Error>(
                Error::UnsupportedOperation,
            ),
            is_explosion_capable(self@.name) ==> match r {
                Ok(text) => patched_explosion(content@, explosion@) == Ok::<Seq<char>, Error>(
                    text@,
                ),
                Err(e) => patched_explosion(content@, explosion@) == Err::<Seq<char>, Error>(e),
            },
    {
        if !uses_explosion(self.name.as_str()) {
            return Err(Error::UnsupportedOperation);
        }
        patch_explosion(content, explosion)
    }
}

/// The row that the list of weapons shows for a weapon: its class, its
/// name on screen and the file name of its crosshair, each in a column of
/// its own. A marked row has `> ` in front of the class.
pub open spec fn row_text(weapon: WeaponFileView, display: Seq<char>, marked: bool) -> Seq<char> {
    "@f"@ + (if marked {
        "> "@
    } else {
        ""@
    }) + weapon.class + "\t@f"@ + display + "\t@f"@ + file_name(weapon.crosshair)
}

impl WeaponFile {
    /// The row that the list of weapons shows for the weapon, which goes by
    /// `display` on screen.
    pub fn list_row(&self, display: &str, marked: bool) -> (r: String)
        ensures
            r@ == row_text(self@, display@, marked),
    {
        let mut out: Vec<char> = Vec::new();
        append_str(&mut out, "@f");
        append_str(&mut out, if marked {
            "> "
        } else {
            ""
        });
        append_str(&mut out, self.class.as_str());
        append_str(&mut out, "\t@f");
        append_str(&mut out, display);
        append_str(&mut out, "\t@f");
        let name = string_of(&file_name_of(&chars_of(self.crosshair.as_str())));
        append_str(&mut out, name.as_str());
        string_of(&out)
    }
}

/// Whether `picked` holds, in rising order, exactly the positions of the
/// weapons that `wanted` accepts.
pub open spec fn picks(
    picked: Seq<usize>,
    weapons: Seq<WeaponFile>,
    wanted: spec_fn(WeaponFileView) -> bool,
) -> bool {
    &&& forall|k: int|
        0 <= k < picked.len() ==> (#[trigger] picked[k]) < weapons.len() && wanted(
            weapons[picked[k] as int]@,
        )
    &&& forall|k: int, l: int| 0 <= k < l < picked.len() ==> picked[k] < picked[l]
    &&& forall|i: int|
        0 <= i < weapons.len() && wanted((#[trigger] weapons[i])@) ==> picked.contains(i as usize)
}

/// The positions of the weapons of the class `class`, in rising order.
pub fn all_class(weapons: &Vec<WeaponFile>, class: &str) -> (picked: Vec<usize>)
    ensures
        picks(picked@, weapons@, |w: WeaponFileView| w.class == class@),
{
    let wanted = chars_of(class);
    let ghost accept = |w: WeaponFileView| w.class == class@;
    let mut picked: Vec<usize> = Vec::new();
    let mut i: usize = 0;
    while i < weapons.len()
        invariant
            i <= weapons.len(),
            wanted@ == class@,
            accept == (|w: WeaponFileView| w.class == class@),
            forall|k: int|
                0 <= k < picked.len() ==> (#[trigger] picked@[k]) < i && accept(
                    weapons@[picked@[k] as int]@,
                ),
            forall|k: int, l: int| 0 <= k < l < picked.len() ==> picked@[k] < picked@[l],
            forall|j: int|
                0 <= j < i && accept((#[trigger] weapons@[j])@) ==> picked@.contains(j as usize),
        decreases weapons.len() - i,
    {
        let class_chars = chars_of(weapons[i].class.as_str());
        if same_chars(&class_chars, &wanted) {
            let ghost before = picked@;
            picked.push(i);
            assert forall|j: int|
                0 <= j < i + 1 && accept((#[trigger] weapons@[j])@) implies picked@.contains(
                j as usize,
            ) by {
                if j < i {
                    let k = choose|k: int| 0 <= k < before.len() && before[k] == j as usize;
                    assert(picked@[k] == j as usize);
                } else {
                    assert(picked@[picked.len() - 1] == j as usize);
                }
            }
        }
        i += 1;
    }
    picked
}

/// The positions of the weapons that take the slot `slot`, in rising
/// order.
pub fn all_slot(weapons: &Vec<WeaponFile>, slot: u8) -> (picked: Vec<usize>)
    ensures
        picks(picked@, weapons@, |w: WeaponFileView| w.slot == slot),
{
    let ghost accept = |w: WeaponFileView| w.slot == slot;
    let mut picked: Vec<usize> = Vec::new();
    let mut i: usize = 0;
    while i < weapons.len()
        invariant
            i <= weapons.len(),
            accept == (|w: WeaponFileView| w.slot == slot),
            forall|k: int|
                0 <= k < picked.len() ==> (#[trigger] picked@[k]) < i && accept(
                    weapons@[picked@[k] as int]@,
                ),
            forall|k: int, l: int| 0 <= k < l < picked.len() ==> picked@[k] < picked@[l],
            forall|j: int|
                0 <= j < i && accept((#[trigger] weapons@[j])@) ==> picked@.contains(j as usize),
        decreases weapons.len() - i,
    {
        if weapons[i].slot == slot {
            let ghost before = picked@;
            picked.push(i);
            assert forall|j: int|
                0 <= j < i + 1 && accept((#[trigger] weapons@[j])@) implies picked@.contains(
                j as usize,
            ) by {
                if j < i {
                    let k = choose|k: int| 0 <= k < before.len() && before[k] == j as usize;
                    assert(picked@[k] == j as usize);
                } else {
                    assert(picked@[picked.len() - 1] == j as usize);
                }
            }
        }
        i += 1;
    }
    picked
}

/// The script of a weapon of the catalog: where it lies, what the catalog
/// says of the weapon, and the text that was read, or why it could not be
/// read.
pub struct ScriptFile {
    pub path: String,
    pub class: String,
    pub slot: u8,
    pub content: Result<String, Error>,
}

/// The mathematical value of a [`ScriptFile`].
pub struct ScriptFileView {
    pub path: Seq<char>,
    pub class: Seq<char>,
    pub slot: u8,
    pub content: Result<Seq<char>, Error>,
}

impl View for ScriptFile {
    type V = ScriptFileView;

    open spec fn view(&self) -> ScriptFileView {
        ScriptFileView {
            path: self.path@,
            class: self.class@,
            slot: self.slot,
            content: match self.content {
                Ok(text) => Ok(text@),
                Err(e) => Err(e),
            },
        }
    }
}

/// The views of a sequence of scripts.
pub open spec fn script_views(scripts: Seq<ScriptFile>) -> Seq<ScriptFileView> {
    Seq::new(scripts.len(), |i: int| scripts[i]@)
}

/// The views of a sequence of weapons.
pub open spec fn weapon_views(weapons: Seq<WeaponFile>) -> Seq<WeaponFileView> {
    Seq::new(weapons.len(), |i: int| weapons[i]@)
}

/// What reading a script gives: the weapon, the failure of reading the
/// file, or the failure of reading the weapon out of its text.
pub open spec fn loaded_script(script: ScriptFileView) -> Result<WeaponFileView, Error> {
    match script.content {
        Ok(text) => loaded(script.path, script.class, script.slot, text),
        Err(e) => Err(e),
    }
}

/// The message that tells of a script that was passed over.
pub open spec fn skipped_script(script: ScriptFileView, e: Error) -> Seq<char> {
    "Skipping "@ + file_stem(script.path) + "; "@ + error_text(e)
}

/// The weapons of the scripts that could be read, in the order of the
/// scripts.
pub open spec fn loaded_weapons(scripts: Seq<ScriptFileView>) -> Seq<WeaponFileView>
    decreases scripts.len(),
{
    if scripts.len() == 0 {
        Seq::empty()
    } else {
        match loaded_script(scripts.last()) {
            Ok(weapon) => loaded_weapons(scripts.drop_last()).push(weapon),
            Err(_) => loaded_weapons(scripts.drop_last()),
        }
    }
}

/// The messages for the scripts that could not be read, in the order of
/// the scripts.
pub open spec fn skipped_scripts(scripts: Seq<ScriptFileView>) -> Seq<Seq<char>>
    decreases scripts.len(),
{
    if scripts.len() == 0 {
        Seq::empty()
    } else {
        match loaded_script(scripts.last()) {
            Ok(_) => skipped_scripts(scripts.drop_last()),
            Err(e) => skipped_scripts(scripts.drop_last()).push(
                skipped_script(scripts.last(), e),
            ),
        }
    }
}

/// What reading the scripts of the catalog gives.
pub struct WeaponScan {
    /// The weapons that could be read.
    pub weapons: Vec<WeaponFile>,
    /// One message for each script that could not be read.
    pub skipped: Vec<String>,
}

/// Every script gives a weapon or a message: the two add up to the number
/// of scripts.
pub proof fn law_every_script_is_counted(scripts: Seq<ScriptFileView>)
    ensures
        loaded_weapons(scripts).len() + skipped_scripts(scripts).len() == scripts.len(),
    decreases scripts.len(),
{
    if scripts.len() > 0 {
        law_every_script_is_counted(scripts.drop_last());
    }
}

/// Reads the weapons of the scripts.
///
/// A script that cannot be read does not stand in the way of the others:
/// it gives a message that names the weapon and the failure, and the scan
/// goes on.
pub fn load_weapons(scripts: &Vec<ScriptFile>) -> (scan: WeaponScan)
    ensures
        weapon_views(scan.weapons@) == loaded_weapons(script_views(scripts@)),
        message_views(scan.skipped@) == skipped_scripts(script_views(scripts@)),
        scan.weapons.len() + scan.skipped.len() == scripts.len(),
{
    let ghost all = script_views(scripts@);
    let mut weapons: Vec<WeaponFile> = Vec::new();
    let mut skipped: Vec<String> = Vec::new();
    let mut i: usize = 0;
    assert(all.take(0) =~= Seq::<ScriptFileView>::empty());
    assert(weapon_views(weapons@) =~= loaded_weapons(all.take(0)));
    assert(message_views(skipped@) =~= skipped_scripts(all.take(0)));
    while i < scripts.len()
        invariant
            i <= scripts.len(),
            all == script_views(scripts@),
            weapon_views(weapons@) == loaded_weapons(all.take(i as int)),
            message_views(skipped@) == skipped_scripts(all.take(i as int)),
            weapons.len() + skipped.len() == i,
        decreases scripts.len() - i,
    {
        let script = &scripts[i];
        proof {
            let done = all.take(i + 1);
            assert(done.drop_last() =~= all.take(i as int));
            assert(done.last() == script@);
        }
        let outcome = match &script.content {
            Ok(text) => WeaponFile::new(
                script.path.as_str(),
                script.class.clone(),
                script.slot,
                text.as_str(),
            ),
            Err(e) => Err(*e),
        };
        match outcome {
            Ok(weapon) => {
                let ghost before = weapon_views(weapons@);
                let ghost view = weapon@;
                weapons.push(weapon);
                assert(weapon_views(weapons@) =~= before.push(view));
            },
            Err(e) => {
                let mut message: Vec<char> = Vec::new();
                append_str(&mut message, "Skipping ");
                let stem = string_of(&file_stem_of(&chars_of(script.path.as_str())));
                append_str(&mut message, stem.as_str());
                append_str(&mut message, "; ");
                append_str(&mut message, e.to_str());
                let ghost before = message_views(skipped@);
                skipped.push(string_of(&message));
                assert(message_views(skipped@) =~= before.push(message@));
            },
        }
        i += 1;
    }
    assert(all.take(scripts.len() as int) =~= all);
    WeaponScan { weapons, skipped }
}

} // verus!
