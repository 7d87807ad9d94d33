//! The explosion effect of a weapon: its name on screen and its identifiers
//! in a weapon script.

use crate::text::chars_of;
use crate::text::reads;
use crate::text::string_of;
use vstd::prelude::*;

verus! {

/// The explosion effect that a weapon shows.
#[derive(Clone, Debug, PartialEq)]
pub enum ExplosionEffect {
    Default,
    PyroPool,
    MuzzleFlash,
    SapperDestroyed,
    ElectricShock,
    /// An effect that a script names and this library does not know.
    Other(String),
}

/// The mathematical value of an [`ExplosionEffect`].
pub enum EffectView {
    Default,
    PyroPool,
    MuzzleFlash,
    SapperDestroyed,
    ElectricShock,
    Other(Seq<char>),
}

/// The three keys of a weapon script that hold an explosion effect.
#[derive(Clone, Copy, Debug, PartialEq, Eq, Structural)]
pub enum ExplosionKey {
    /// `"ExplosionEffect"`
    Effect,
    /// `"ExplosionPlayerEffect"`
    PlayerEffect,
    /// `"ExplosionWaterEffect"`
    WaterEffect,
}

impl View for ExplosionEffect {
    type V = EffectView;

    open spec fn view(&self) -> EffectView {
        match self {
            ExplosionEffect::Default => EffectView::Default,
            ExplosionEffect::PyroPool => EffectView::PyroPool,
            ExplosionEffect::MuzzleFlash => EffectView::MuzzleFlash,
            ExplosionEffect::SapperDestroyed => EffectView::SapperDestroyed,
            ExplosionEffect::ElectricShock => EffectView::ElectricShock,
            ExplosionEffect::Other(s) => EffectView::Other(s@),
        }
    }
}

impl EffectView {
    /// The name under which the effect is offered on screen.
    pub open spec fn display_name(self) -> Seq<char> {
        match self {
            EffectView::Default => "Default"@,
            EffectView::PyroPool => "Pyro Pool"@,
            EffectView::MuzzleFlash => "Muzzle Flash"@,
            EffectView::SapperDestroyed => "Sapper Destroyed"@,
            EffectView::ElectricShock => "Electric Shock"@,
            EffectView::Other(s) => s,
        }
    }

    /// The effect that goes by `name` on screen. A name that belongs to no
    /// known effect stands for itself.
    pub open spec fn from_display_name(name: Seq<char>) -> EffectView {
        if name == "Default"@ {
            EffectView::Default
        } else if name == "Pyro Pool"@ {
            EffectView::PyroPool
        } else if name == "Muzzle Flash"@ {
            EffectView::MuzzleFlash
        } else if name == "Sapper Destroyed"@ {
            EffectView::SapperDestroyed
        } else if name == "Electric Shock"@ {
            EffectView::ElectricShock
        } else {
            EffectView::Other(name)
        }
    }

    /// The identifier of the effect in a weapon script. The default effect
    /// has no single identifier: see [`EffectView::identifier_for`].
    pub open spec fn identifier(self) -> Seq<char>
        recommends
            !(self is Default),
    {
        match self {
            EffectView::Default => Seq::empty(),
            EffectView::PyroPool => "eotl_pyro_pool_explosion_flash"@,
            EffectView::MuzzleFlash => "muzzle_minigun_starflash01"@,
            EffectView::SapperDestroyed => "ExplosionCore_sapperdestroyed"@,
            EffectView::ElectricShock => "electrocuted_red_flash"@,
            EffectView::Other(s) => s,
        }
    }

    /// The identifier written for the effect under `key`. The default
    /// effect is written differently under each of the three keys.
    pub open spec fn identifier_for(self, key: ExplosionKey) -> Seq<char> {
        match self {
            EffectView::Default => match key {
                ExplosionKey::Effect => "ExplosionCore_wall"@,
                ExplosionKey::PlayerEffect => "ExplosionCore_MidAir"@,
                ExplosionKey::WaterEffect => "ExplosionCore_MidAir_underwater"@,
            },
            _ => self.identifier(),
        }
    }

    /// The effect that a script names by `identifier` under the key
    /// `"ExplosionEffect"`. An identifier of no known effect stands for
    /// itself.
    pub open spec fn from_identifier(identifier: Seq<char>) -> EffectView {
        if identifier == "ExplosionCore_wall"@ {
            EffectView::Default
        } else if identifier == "eotl_pyro_pool_explosion_flash"@ {
            EffectView::PyroPool
        } else if identifier == "muzzle_minigun_starflash01"@ {
            EffectView::MuzzleFlash
        } else if identifier == "ExplosionCore_sapperdestroyed"@ {
            EffectView::SapperDestroyed
        } else if identifier == "electrocuted_red_flash"@ {
            EffectView::ElectricShock
        } else {
            EffectView::Other(identifier)
        }
    }
}

impl ExplosionEffect {
    /// The name under which the effect is offered on screen.
    pub fn to_str(&self) -> (r: &str)
        ensures
            r@ == self@.display_name(),
    {
        match self {
            Self::Default => "Default",
            Self::PyroPool => "Pyro Pool",
            Self::MuzzleFlash => "Muzzle Flash",
            Self::SapperDestroyed => "Sapper Destroyed",
            Self::ElectricShock => "Electric Shock",
            Self::Other(s) => s.as_str(),
        }
    }

    /// The identifier of the effect in a weapon script. The default effect
    /// has three and is left out here: [`ExplosionEffect::identifier_for`]
    /// takes the key.
    pub fn to_weapon_file_str(&self) -> (r: &str)
        requires
            !(self@ is Default),
        ensures
            r@ == self@.identifier(),
    {
        match self {
            ExplosionEffect::Default => "",
            ExplosionEffect::PyroPool => "eotl_pyro_pool_explosion_flash",
            ExplosionEffect::MuzzleFlash => "muzzle_minigun_starflash01",
            ExplosionEffect::SapperDestroyed => "ExplosionCore_sapperdestroyed",
            ExplosionEffect::ElectricShock => "electrocuted_red_flash",
            ExplosionEffect::Other(e) => e.as_str(),
        }
    }

    /// The identifier written for the effect under `key`.
    pub fn identifier_for(&self, key: ExplosionKey) -> (r: &str)
        ensures
            r@ == self@.identifier_for(key),
    {
        match self {
            ExplosionEffect::Default => match key {
                ExplosionKey::Effect => "ExplosionCore_wall",
                ExplosionKey::PlayerEffect => "ExplosionCore_MidAir",
                ExplosionKey::WaterEffect => "ExplosionCore_MidAir_underwater",
            },
            e => e.to_weapon_file_str(),
        }
    }

    /// The effect that a script names by `identifier` under the key
    /// `"ExplosionEffect"`.
    pub fn from_weapon_file_str(identifier: &str) -> (r: ExplosionEffect)
        ensures
            r@ == EffectView::from_identifier(identifier@),
    {
        let s = chars_of(identifier);
        if reads(&s, "ExplosionCore_wall") {
            ExplosionEffect::Default
        } else if reads(&s, "eotl_pyro_pool_explosion_flash") {
            ExplosionEffect::PyroPool
        } else if reads(&s, "muzzle_minigun_starflash01") {
            ExplosionEffect::MuzzleFlash
        } else if reads(&s, "ExplosionCore_sapperdestroyed") {
            ExplosionEffect::SapperDestroyed
        } else if reads(&s, "electrocuted_red_flash") {
            ExplosionEffect::ElectricShock
        } else {
            ExplosionEffect::Other(string_of(&s))
        }
    }
}

impl<'a> From<&'a str> for ExplosionEffect {
    /// The effect that goes by the name `s` on screen.
    fn from(s: &'a str) -> (r: ExplosionEffect)
        ensures
            r@ == EffectView::from_display_name(s@),
    {
        let name = chars_of(s);
        if reads(&name, "Default") {
            Self::Default
        } else if reads(&name, "Pyro Pool") {
            Self::PyroPool
        } else if reads(&name, "Muzzle Flash") {
            Self::MuzzleFlash
        } else if reads(&name, "Sapper Destroyed") {
            Self::SapperDestroyed
        } else if reads(&name, "Electric Shock") {
            Self::ElectricShock
        } else {
            Self::Other(string_of(&name))
        }
    }
}

impl<'a> vstd::std_specs::convert::FromSpecImpl<&'a str> for ExplosionEffect {
    /// Two strings with the same characters are not known to be the same
    /// value, so `from` is specified over views, by its own `ensures`.
    open spec fn obeys_from_spec() -> bool {
        false
    }

    open spec fn from_spec(s: &'a str) -> ExplosionEffect {
        ExplosionEffect::Default
    }
}

/// The name of `effect` as a choice beside `current`: nothing where it is
/// the current effect.
pub open spec fn other_choice(current: EffectView, effect: EffectView) -> Seq<Seq<char>> {
    if effect == current {
        Seq::empty()
    } else {
        seq![effect.display_name()]
    }
}

/// The effects that are offered for a weapon whose effect is `current`:
/// the current one first, then the known ones but the current.
pub open spec fn choice_names(current: EffectView) -> Seq<Seq<char>> {
    seq![current.display_name()] + other_choice(current, EffectView::Default) + other_choice(
        current,
        EffectView::PyroPool,
    ) + other_choice(current, EffectView::MuzzleFlash) + other_choice(
        current,
        EffectView::SapperDestroyed,
    ) + other_choice(current, EffectView::ElectricShock)
}

/// The views of a sequence of names.
pub open spec fn name_views(names: Seq<String>) -> Seq<Seq<char>> {
    Seq::new(names.len(), |i: int| names[i]@)
}

/// The names of the effects that are offered for a weapon whose effect is
/// `current`: the current one first, then the known ones but the current.
pub fn choices(current: &ExplosionEffect) -> (names: Vec<String>)
    ensures
        name_views(names@) == choice_names(current@),
{
    let mut names: Vec<String> = Vec::new();
    names.push(string_of(&chars_of(current.to_str())));
    assert(name_views(names@) =~= seq![current@.display_name()]);
    let ghost so_far = name_views(names@);
    match current {
        ExplosionEffect::Default => {},
        _ => {
            names.push(string_of(&chars_of(ExplosionEffect::Default.to_str())));
        },
    }
    assert(name_views(names@) =~= so_far + other_choice(current@, EffectView::Default));
    let ghost so_far = name_views(names@);
    match current {
        ExplosionEffect::PyroPool => {},
        _ => {
            names.push(string_of(&chars_of(ExplosionEffect::PyroPool.to_str())));
        },
    }
    assert(name_views(names@) =~= so_far + other_choice(current@, EffectView::PyroPool));
    let ghost so_far = name_views(names@);
    match current {
        ExplosionEffect::MuzzleFlash => {},
        _ => {
            names.push(string_of(&chars_of(ExplosionEffect::MuzzleFlash.to_str())));
        },
    }
    assert(name_views(names@) =~= so_far + other_choice(current@, EffectView::MuzzleFlash));
    let ghost so_far = name_views(names@);
    match current {
        ExplosionEffect::SapperDestroyed => {},
        _ => {
            names.push(string_of(&chars_of(ExplosionEffect::SapperDestroyed.to_str())));
        },
    }
    assert(name_views(names@) =~= so_far + other_choice(current@, EffectView::SapperDestroyed));
    let ghost so_far = name_views(names@);
    match current {
        ExplosionEffect::ElectricShock => {},
        _ => {
            names.push(string_of(&chars_of(ExplosionEffect::ElectricShock.to_str())));
        },
    }
    assert(name_views(names@) =~= so_far + other_choice(current@, EffectView::ElectricShock));
    names
}

} // verus!
