//! The catalog of weapons: which class carries a weapon, what it is called
//! on screen, which slot it takes, and which weapons share its looks.

use crate::error::Error;
use crate::text::append_str;
use crate::text::chars_of;
use crate::text::same_chars;
use crate::text::string_of;
use vstd::prelude::*;

verus! {

/// What the catalog says of one weapon.
#[derive(Clone, Debug)]
pub struct Association {
    /// The weapon's identifier.
    pub id: String,
    /// The class that carries the weapon.
    pub class: String,
    /// The weapon's name on screen.
    pub display: String,
    /// The slot that the weapon takes.
    pub slot: u8,
    /// The identifiers of the weapons that share this weapon's looks.
    pub all: Vec<String>,
}

/// The mathematical value of an [`Association`].
pub struct AssociationView {
    pub id: Seq<char>,
    pub class: Seq<char>,
    pub display: Seq<char>,
    pub slot: u8,
    pub all: Seq<Seq<char>>,
}

/// The views of a sequence of strings.
pub open spec fn string_views(strings: Seq<String>) -> Seq<Seq<char>> {
    Seq::new(strings.len(), |i: int| strings[i]@)
}

impl View for Association {
    type V = AssociationView;

    open spec fn view(&self) -> AssociationView {
        AssociationView {
            id: self.id@,
            class: self.class@,
            display: self.display@,
            slot: self.slot,
            all: string_views(self.all@),
        }
    }
}

/// The views of a sequence of associations.
pub open spec fn association_views(entries: Seq<Association>) -> Seq<AssociationView> {
    Seq::new(entries.len(), |i: int| entries[i]@)
}

/// One entry of a catalog as its JSON text gives it. What the text does
/// not hold, or holds in another shape, is absent: a class or a name that
/// is no string, a slot that is no number or does not fit into a byte, a
/// member of `all` that is no string.
pub struct RawAssociation {
    pub id: String,
    pub class: Option<String>,
    pub display: Option<String>,
    pub slot: Option<u8>,
    pub all: Vec<Option<String>>,
}

/// The mathematical value of a [`RawAssociation`].
pub struct RawAssociationView {
    pub id: Seq<char>,
    pub class: Option<Seq<char>>,
    pub display: Option<Seq<char>>,
    pub slot: Option<u8>,
    pub all: Seq<Option<Seq<char>>>,
}

/// The view of a string that may be absent.
pub open spec fn optional_view(s: Option<String>) -> Option<Seq<char>> {
    match s {
        Some(s) => Some(s@),
        None => None,
    }
}

impl View for RawAssociation {
    type V = RawAssociationView;

    open spec fn view(&self) -> RawAssociationView {
        RawAssociationView {
            id: self.id@,
            class: optional_view(self.class),
            display: optional_view(self.display),
            slot: self.slot,
            all: Seq::new(self.all@.len(), |i: int| optional_view(self.all@[i])),
        }
    }
}

/// The views of a sequence of raw entries.
pub open spec fn raw_views(entries: Seq<RawAssociation>) -> Seq<RawAssociationView> {
    Seq::new(entries.len(), |i: int| entries[i]@)
}

/// The error of the `json` crate. Nothing is read out of it.
#[verifier::external_type_specification]
#[verifier::external_body]
pub struct ExJsonError(json::JsonError);

/// The longest catalog text that is read, in characters.
pub const MAX_CATALOG_LEN: usize = 32768;

/// The entries of the JSON object that `text` holds, in the order of the
/// text: for each key the members `class`, `display`, `slot` and `all` of
/// its value. `None` where `text` is no JSON.
pub uninterp spec fn catalog_entries(text: Seq<char>) -> Option<Seq<RawAssociationView>>;

/// Reads `text` as JSON with `json::parse` and hands out the entries of the
/// object it holds, by `JsonValue::entries`. Of each entry it takes the
/// members `class` and `display` and the members of `all` by
/// `JsonValue::as_str`, and `slot` by `JsonValue::as_u8`. The contract
/// claims no more than that the entries are a function of the text.
///
/// `json::parse` counts the digits behind a decimal point in a 16-bit
/// number; the bound on the text keeps that count in range.
#[verifier::external_body]
fn parse_catalog(text: &str) -> (r: Result<Vec<RawAssociation>, json::JsonError>)
    requires
        text@.len() <= MAX_CATALOG_LEN,
    ensures
        match r {
            Ok(entries) => catalog_entries(text@) == Some(raw_views(entries@)),
            Err(_) => catalog_entries(text@) is None,
        },
{
    let value = json::parse(text)?;
    Ok(
        value.entries().map(
            |(id, entry)|
                RawAssociation {
                    id: id.to_string(),
                    class: entry["class"].as_str().map(str::to_string),
                    display: entry["display"].as_str().map(str::to_string),
                    slot: entry["slot"].as_u8(),
                    all: entry["all"].members().map(|m| m.as_str().map(str::to_string)).collect(),
                },
        ).collect(),
    )
}

/// Whether a raw entry holds all that an association needs.
pub open spec fn is_complete(raw: RawAssociationView) -> bool {
    &&& raw.class is Some
    &&& raw.display is Some
    &&& raw.slot is Some
    &&& forall|i: int| 0 <= i < raw.all.len() ==> (#[trigger] raw.all[i]) is Some
}

/// The association that a complete raw entry stands for.
pub open spec fn association_of(raw: RawAssociationView) -> AssociationView {
    AssociationView {
        id: raw.id,
        class: raw.class.unwrap(),
        display: raw.display.unwrap(),
        slot: raw.slot.unwrap(),
        all: Seq::new(raw.all.len(), |i: int| raw.all[i].unwrap()),
    }
}

/// The catalog that raw entries stand for. Every entry must be complete.
pub open spec fn associations_of(raw: Seq<RawAssociationView>) -> Result<
    Seq<AssociationView>,
    Error,
> {
    if forall|i: int| 0 <= i < raw.len() ==> is_complete(#[trigger] raw[i]) {
        Ok(Seq::new(raw.len(), |i: int| association_of(raw[i])))
    } else {
        Err(Error::MalformedField)
    }
}

/// The catalog that the JSON text `text` holds.
pub open spec fn catalog_of(text: Seq<char>) -> Result<Seq<AssociationView>, Error> {
    if text.len() > MAX_CATALOG_LEN {
        Err(Error::MalformedField)
    } else {
        match catalog_entries(text) {
            Some(raw) => associations_of(raw),
            None => Err(Error::MalformedField),
        }
    }
}

/// The strings of `strings`, where none is absent.
fn present_strings(strings: &Vec<Option<String>>) -> (r: Option<Vec<String>>)
    ensures
        match r {
            Some(all) => all.len() == strings.len() && forall|i: int|
                0 <= i < strings.len() ==> optional_view(#[trigger] strings@[i]) == Some(all@[i]@),
            None => exists|i: int|
                0 <= i < strings.len() && optional_view(#[trigger] strings@[i]) is None,
        },
{
    let mut all: Vec<String> = Vec::new();
    let mut i: usize = 0;
    while i < strings.len()
        invariant
            i <= strings.len(),
            all.len() == i,
            forall|j: int| 0 <= j < i ==> optional_view(#[trigger] strings@[j]) == Some(all@[j]@),
        decreases strings.len() - i,
    {
        match &strings[i] {
            Some(s) => {
                all.push(s.clone());
            },
            None => {
                assert(optional_view(strings@[i as int]) is None);
                return None;
            },
        }
        i += 1;
    }
    Some(all)
}

/// The association that a raw entry stands for. `None` where the entry is
/// not complete.
pub fn association_from(raw: &RawAssociation) -> (r: Option<Association>)
    ensures
        match r {
            Some(entry) => is_complete(raw@) && entry@ == association_of(raw@),
            None => !is_complete(raw@),
        },
{
    let class = match &raw.class {
        Some(class) => class.clone(),
        None => {
            return None;
        },
    };
    let display = match &raw.display {
        Some(display) => display.clone(),
        None => {
            return None;
        },
    };
    let slot = match raw.slot {
        Some(slot) => slot,
        None => {
            return None;
        },
    };
    let all = match present_strings(&raw.all) {
        Some(all) => all,
        None => {
            proof {
                let i = choose|i: int|
                    0 <= i < raw.all.len() && optional_view(#[trigger] raw.all@[i]) is None;
                assert(raw@.all[i] is None);
            }
            return None;
        },
    };
    let entry = Association { id: raw.id.clone(), class, display, slot, all };
    assert(forall|i: int| 0 <= i < raw@.all.len() ==> (#[trigger] raw@.all[i]) is Some);
    assert(entry@.all =~= association_of(raw@).all);
    Some(entry)
}

/// The catalog that the raw entries stand for.
///
/// Fails with [`Error::MalformedField`] where an entry is not complete.
pub fn associations_from(raw: &Vec<RawAssociation>) -> (r: Result<Vec<Association>, Error>)
    ensures
        match r {
            Ok(entries) => associations_of(raw_views(raw@)) == Ok::<Seq<AssociationView>, Error>(
                association_views(entries@),
            ),
            Err(e) => associations_of(raw_views(raw@)) == Err::<Seq<AssociationView>, Error>(e),
        },
{
    let mut entries: Vec<Association> = Vec::new();
    let mut i: usize = 0;
    while i < raw.len()
        invariant
            i <= raw.len(),
            entries.len() == i,
            forall|j: int| 0 <= j < i ==> is_complete(#[trigger] raw_views(raw@)[j]),
            forall|j: int| 0 <= j < i ==> entries@[j]@ == association_of(raw@[j]@),
        decreases raw.len() - i,
    {
        match association_from(&raw[i]) {
            Some(entry) => {
                entries.push(entry);
            },
            None => {
                assert(!is_complete(raw_views(raw@)[i as int]));
                return Err(Error::MalformedField);
            },
        }
        i += 1;
    }
    assert(association_views(entries@) =~= Seq::new(
        raw_views(raw@).len(),
        |i: int| association_of(raw_views(raw@)[i]),
    ));
    Ok(entries)
}

/// The catalog that the JSON text `text` holds.
///
/// Fails with [`Error::MalformedField`] where `text` is longer than
/// [`MAX_CATALOG_LEN`] characters or is no JSON, or where an entry is not
/// complete.
pub fn load_associations(text: &str) -> (r: Result<Vec<Association>, Error>)
    ensures
        match r {
            Ok(entries) => catalog_of(text@) == Ok::<Seq<AssociationView>, Error>(
                association_views(entries@),
            ),
            Err(e) => catalog_of(text@) == Err::<Seq<AssociationView>, Error>(e),
        },
{
    if chars_of(text).len() > MAX_CATALOG_LEN {
        return Err(Error::MalformedField);
    }
    match parse_catalog(text) {
        Ok(raw) => associations_from(&raw),
        Err(_) => Err(Error::MalformedField),
    }
}

/// The name of a slot on screen.
pub open spec fn slot_name(slot: u8) -> Seq<char> {
    if slot == 1 {
        "Primary"@
    } else if slot == 2 {
        "Secondary"@
    } else if slot == 3 {
        "Melee"@
    } else if slot == 4 || slot == 5 {
        "PDA"@
    } else if slot == 9 {
        "Other"@
    } else {
        ""@
    }
}

/// The name of a slot on screen: empty for a slot without a name.
pub fn slot_label(slot: u8) -> (r: &'static str)
    ensures
        r@ == slot_name(slot),
{
    if slot == 1 {
        "Primary"
    } else if slot == 2 {
        "Secondary"
    } else if slot == 3 {
        "Melee"
    } else if slot == 4 || slot == 5 {
        "PDA"
    } else if slot == 9 {
        "Other"
    } else {
        ""
    }
}

/// The position of the first entry for the weapon `key`; the number of
/// entries where the catalog has none.
pub open spec fn position_of(entries: Seq<AssociationView>, key: Seq<char>, from: int) -> int
    decreases entries.len() - from,
{
    if from < 0 || from >= entries.len() {
        entries.len() as int
    } else if entries[from].id == key {
        from
    } else {
        position_of(entries, key, from + 1)
    }
}

/// The entry of the catalog for the weapon `key`: the first one with that
/// identifier.
pub fn find_value<'a>(entries: &'a Vec<Association>, key: &str) -> (r: Option<&'a Association>)
    ensures
        match r {
            Some(entry) => {
                let at = position_of(association_views(entries@), key@, 0);
                0 <= at < entries.len() && *entry == entries@[at]
            },
            None => position_of(association_views(entries@), key@, 0) == entries.len(),
        },
{
    let key_chars = chars_of(key);
    let ghost views = association_views(entries@);
    let mut i: usize = 0;
    while i < entries.len()
        invariant
            i <= entries.len(),
            views == association_views(entries@),
            key_chars@ == key@,
            position_of(views, key@, 0) == position_of(views, key@, i as int),
        decreases entries.len() - i,
    {
        let id = chars_of(entries[i].id.as_str());
        if same_chars(&id, &key_chars) {
            return Some(&entries[i]);
        }
        i += 1;
    }
    None
}

/// `items`, each on a line of its own behind `  - `.
pub open spec fn bullet_list(items: Seq<Seq<char>>) -> Seq<char>
    decreases items.len(),
{
    if items.len() == 0 {
        "  - "@
    } else if items.len() == 1 {
        "  - "@ + items[0]
    } else {
        bullet_list(items.drop_last()) + "\n  - "@ + items.last()
    }
}

/// What is shown of a weapon: its class, identifier, name, slot, and the
/// weapons that share its looks.
pub open spec fn info_text(entry: AssociationView) -> Seq<char> {
    "Class: "@ + entry.class + "\n\nWeapon Class: "@ + entry.id + "\n\nCategory: "@
        + entry.display + "\n\nSlot: "@ + slot_name(entry.slot) + "\n\nAffected Weapons:\n"@
        + bullet_list(entry.all)
}

/// What is shown of the weapon `entry`.
pub fn describe(entry: &Association) -> (r: String)
    ensures
        r@ == info_text(entry@),
{
    let mut out: Vec<char> = Vec::new();
    append_str(&mut out, "Class: ");
    append_str(&mut out, entry.class.as_str());
    append_str(&mut out, "\n\nWeapon Class: ");
    append_str(&mut out, entry.id.as_str());
    append_str(&mut out, "\n\nCategory: ");
    append_str(&mut out, entry.display.as_str());
    append_str(&mut out, "\n\nSlot: ");
    append_str(&mut out, slot_label(entry.slot));
    append_str(&mut out, "\n\nAffected Weapons:\n");
    let ghost head = out@;
    let ghost all = string_views(entry.all@);
    append_str(&mut out, "  - ");
    assert(all.take(0) =~= Seq::<Seq<char>>::empty());
    let mut i: usize = 0;
    while i < entry.all.len()
        invariant
            i <= entry.all.len(),
            all == string_views(entry.all@),
            out@ == head + bullet_list(all.take(i as int)),
        decreases entry.all.len() - i,
    {
        if i > 0 {
            append_str(&mut out, "\n  - ");
        }
        append_str(&mut out, entry.all[i].as_str());
        proof {
            let done = all.take(i + 1);
            assert(done.drop_last() =~= all.take(i as int));
            assert(done.last() == entry.all@[i as int]@);
            assert(done[0] == done.last() || i > 0);
            assert(out@ =~= head + bullet_list(done));
        }
        i += 1;
    }
    assert(all.take(entry.all.len() as int) =~= all);
    assert(out@ =~= info_text(entry@));
    string_of(&out)
}

} // verus!
