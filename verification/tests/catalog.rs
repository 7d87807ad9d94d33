use crosshair_switcher::catalog::association_from;
use crosshair_switcher::catalog::associations_from;
use crosshair_switcher::catalog::describe;
use crosshair_switcher::catalog::find_value;
use crosshair_switcher::catalog::load_associations;
use crosshair_switcher::catalog::slot_label;
use crosshair_switcher::catalog::RawAssociation;
use crosshair_switcher::catalog::MAX_CATALOG_LEN;
use crosshair_switcher::crosshair::collect_crosshairs;
use crosshair_switcher::crosshair::is_texture;
use crosshair_switcher::log::log_line;
use crosshair_switcher::weapon::all_class;
use crosshair_switcher::weapon::all_slot;
use crosshair_switcher::weapon::load_weapons;
use crosshair_switcher::Association;
use crosshair_switcher::CrosshairItem;
use crosshair_switcher::Error;
use crosshair_switcher::LogType;
use crosshair_switcher::ScriptFile;
use crosshair_switcher::Texture;
use crosshair_switcher::WeaponFile;

const CATALOG: &str = "{\n  \"tf_weapon_bat\": { \"class\": \"Scout\", \"display\": \"Bat\", \"slot\": 3, \"all\": [\"tf_weapon_bat\", \"tf_weapon_bat_wood\"] },\n  \"tf_weapon_flaregun\": { \"class\": \"Pyro\", \"display\": \"Flare Gun\", \"slot\": 2, \"all\": [\"tf_weapon_flaregun\"] },\n  \"tf_weapon_pda_spy\": { \"class\": \"Spy\", \"display\": \"Disguise Kit\", \"slot\": 4, \"all\": [] }\n}";

fn weapon(name: &str, class: &str, slot: u8) -> WeaponFile {
    WeaponFile {
        name: name.into(),
        path: format!("scripts/{}.txt", name),
        class: class.into(),
        slot,
        crosshair: "sprites/crosshairs".into(),
        explosion_effect: None,
    }
}

#[test]
fn the_catalog_is_read_from_json() {
    let catalog = load_associations(CATALOG).unwrap();
    assert_eq!(catalog.len(), 3);
    assert_eq!(catalog[0].id, "tf_weapon_bat");
    assert_eq!(catalog[0].class, "Scout");
    assert_eq!(catalog[0].display, "Bat");
    assert_eq!(catalog[0].slot, 3);
    assert_eq!(catalog[0].all, vec!["tf_weapon_bat", "tf_weapon_bat_wood"]);
    assert_eq!(catalog[1].id, "tf_weapon_flaregun");
    assert_eq!(catalog[1].display, "Flare Gun");
    assert_eq!(catalog[1].slot, 2);
    assert_eq!(catalog[2].class, "Spy");
    assert_eq!(catalog[2].slot, 4);
    assert!(catalog[2].all.is_empty());
}

#[test]
fn a_catalog_that_is_no_json_is_refused() {
    assert_eq!(load_associations("{ \"tf_weapon_bat\": ").err(), Some(Error::MalformedField));
    assert_eq!(load_associations("").err(), Some(Error::MalformedField));
}

#[test]
fn an_entry_without_a_slot_is_refused() {
    let text = "{ \"tf_weapon_bat\": { \"class\": \"Scout\", \"display\": \"Bat\", \"all\": [] } }";
    assert_eq!(load_associations(text).err(), Some(Error::MalformedField));
    let text = "{ \"tf_weapon_bat\": { \"class\": \"Scout\", \"display\": \"Bat\", \"slot\": 300, \"all\": [] } }";
    assert_eq!(load_associations(text).err(), Some(Error::MalformedField));
    let text = "{ \"tf_weapon_bat\": { \"class\": \"Scout\", \"display\": \"Bat\", \"slot\": \"3\", \"all\": [] } }";
    assert_eq!(load_associations(text).err(), Some(Error::MalformedField));
}

#[test]
fn an_entry_with_a_member_of_another_shape_is_refused() {
    let text = "{ \"tf_weapon_bat\": { \"class\": 1, \"display\": \"Bat\", \"slot\": 3, \"all\": [] } }";
    assert_eq!(load_associations(text).err(), Some(Error::MalformedField));
    let text = "{ \"tf_weapon_bat\": { \"class\": \"Scout\", \"slot\": 3, \"all\": [] } }";
    assert_eq!(load_associations(text).err(), Some(Error::MalformedField));
    let text = "{ \"tf_weapon_bat\": { \"class\": \"Scout\", \"display\": \"Bat\", \"slot\": 3, \"all\": [\"Bat\", 2] } }";
    assert_eq!(load_associations(text).err(), Some(Error::MalformedField));
    let text = "{ \"tf_weapon_bat\": { \"class\": \"Scout\", \"display\": \"Bat\", \"slot\": 3 } }";
    assert_eq!(load_associations(text).map(|c| c[0].all.len()), Ok(0));
}

#[test]
fn a_catalog_that_is_no_object_is_empty() {
    assert_eq!(load_associations("[1, 2]").map(|c| c.len()), Ok(0));
    assert_eq!(load_associations("{}").map(|c| c.len()), Ok(0));
}

#[test]
fn a_catalog_that_is_too_long_is_refused() {
    let padding = " ".repeat(MAX_CATALOG_LEN);
    let text = format!("{{{}}}", padding);
    assert_eq!(load_associations(&text).err(), Some(Error::MalformedField));
    let text = format!("{{{}}}", " ".repeat(MAX_CATALOG_LEN - 2));
    assert_eq!(load_associations(&text).map(|c| c.len()), Ok(0));
}

fn raw(id: &str, class: Option<&str>, display: Option<&str>, slot: Option<u8>, all: Vec<Option<&str>>) -> RawAssociation {
    RawAssociation {
        id: id.into(),
        class: class.map(String::from),
        display: display.map(String::from),
        slot,
        all: all.into_iter().map(|s| s.map(String::from)).collect(),
    }
}

#[test]
fn raw_entries_that_are_complete_make_a_catalog() {
    let entries = vec![
        raw("a", Some("b"), Some("c"), Some(9), vec![Some("x")]),
        raw("d", Some("e"), Some("f"), Some(0), Vec::new()),
    ];
    let catalog = associations_from(&entries).unwrap();
    assert_eq!(catalog.len(), 2);
    assert_eq!(catalog[0].id, "a");
    assert_eq!(catalog[0].class, "b");
    assert_eq!(catalog[0].display, "c");
    assert_eq!(catalog[0].slot, 9);
    assert_eq!(catalog[0].all, vec!["x"]);
    assert_eq!(catalog[1].id, "d");
    assert_eq!(catalog[1].slot, 0);
    assert!(associations_from(&Vec::new()).unwrap().is_empty());
}

#[test]
fn a_raw_entry_that_is_not_complete_makes_none() {
    assert!(association_from(&raw("a", Some("b"), Some("c"), Some(1), vec![Some("x"), Some("y")])).is_some());
    assert!(association_from(&raw("a", None, Some("c"), Some(1), Vec::new())).is_none());
    assert!(association_from(&raw("a", Some("b"), None, Some(1), Vec::new())).is_none());
    assert!(association_from(&raw("a", Some("b"), Some("c"), None, Vec::new())).is_none());
    assert!(association_from(&raw("a", Some("b"), Some("c"), Some(1), vec![Some("x"), None])).is_none());
    let entries = vec![
        raw("a", Some("b"), Some("c"), Some(9), Vec::new()),
        raw("d", Some("e"), Some("f"), None, Vec::new()),
    ];
    assert_eq!(associations_from(&entries).err(), Some(Error::MalformedField));
}

#[test]
fn an_entry_is_found_by_its_identifier() {
    let catalog = load_associations(CATALOG).unwrap();
    assert_eq!(find_value(&catalog, "tf_weapon_flaregun").map(|a| a.display.as_str()), Some("Flare Gun"));
    assert_eq!(find_value(&catalog, "tf_weapon_bat").map(|a| a.class.as_str()), Some("Scout"));
    assert!(find_value(&catalog, "tf_weapon_sword").is_none());
    assert!(find_value(&catalog, "").is_none());
    assert!(find_value(&Vec::new(), "tf_weapon_bat").is_none());
}

#[test]
fn slot_labels() {
    assert_eq!(slot_label(1), "Primary");
    assert_eq!(slot_label(2), "Secondary");
    assert_eq!(slot_label(3), "Melee");
    assert_eq!(slot_label(4), "PDA");
    assert_eq!(slot_label(5), "PDA");
    assert_eq!(slot_label(9), "Other");
    assert_eq!(slot_label(0), "");
    assert_eq!(slot_label(6), "");
    assert_eq!(slot_label(255), "");
}

#[test]
fn what_is_shown_of_a_weapon() {
    let catalog = load_associations(CATALOG).unwrap();
    assert_eq!(
        describe(&catalog[0]),
        "Class: Scout\n\nWeapon Class: tf_weapon_bat\n\nCategory: Bat\n\nSlot: Melee\n\nAffected Weapons:\n  - tf_weapon_bat\n  - tf_weapon_bat_wood"
    );
    assert_eq!(
        describe(&catalog[2]),
        "Class: Spy\n\nWeapon Class: tf_weapon_pda_spy\n\nCategory: Disguise Kit\n\nSlot: PDA\n\nAffected Weapons:\n  - "
    );
    let odd = Association { id: "i".into(), class: "c".into(), display: "d".into(), slot: 7, all: vec!["one".into()] };
    assert_eq!(
        describe(&odd),
        "Class: c\n\nWeapon Class: i\n\nCategory: d\n\nSlot: \n\nAffected Weapons:\n  - one"
    );
}

#[test]
fn weapons_are_picked_by_class_and_by_slot() {
    let weapons = vec![
        weapon("tf_weapon_bat", "Scout", 3),
        weapon("tf_weapon_scattergun", "Scout", 1),
        weapon("tf_weapon_flaregun", "Pyro", 2),
        weapon("tf_weapon_pistol_scout", "Scout", 2),
    ];
    assert_eq!(all_class(&weapons, "Scout"), vec![0, 1, 3]);
    assert_eq!(all_class(&weapons, "Pyro"), vec![2]);
    assert_eq!(all_class(&weapons, "Spy"), Vec::<usize>::new());
    assert_eq!(all_slot(&weapons, 2), vec![2, 3]);
    assert_eq!(all_slot(&weapons, 1), vec![1]);
    assert_eq!(all_slot(&weapons, 9), Vec::<usize>::new());
    assert_eq!(all_class(&Vec::new(), "Scout"), Vec::<usize>::new());
}

#[test]
fn the_rows_of_the_list() {
    let w = weapon("tf_weapon_cannon", "Demoman", 1);
    assert_eq!(w.list_row("Loose Cannon", false), "@fDemoman\t@fLoose Cannon\t@fcrosshairs");
    assert_eq!(w.list_row("Loose Cannon", true), "@f> Demoman\t@fLoose Cannon\t@fcrosshairs");
    let mut w = w;
    w.crosshair = "".into();
    assert_eq!(w.list_row("", false), "@fDemoman\t@f\t@f");
}

#[test]
fn log_lines() {
    assert_eq!(log_line(LogType::Info, "tf_weapon_bat: a -> b"), "[Info] tf_weapon_bat: a -> b\n");
    assert_eq!(log_line(LogType::Error, "No weapon selected"), "[Error] No weapon selected\n");
    assert_eq!(log_line(LogType::Error, ""), "[Error] \n");
}

#[test]
fn error_descriptions() {
    assert_eq!(Error::NotFound.to_str(), "file not found");
    assert_eq!(Error::IoError.to_str(), "failed to read or write the file");
    assert_eq!(Error::MalformedField.to_str(), "failed to get value");
    assert_eq!(Error::MissingRequiredField.to_str(), "expected an explosion type");
    assert_eq!(Error::UnsupportedOperation.to_str(), "weapon doesn't use explosions");
    assert_eq!(Error::DecodeError.to_str(), "failed to decode the texture");
}

#[test]
fn textures_are_known_by_their_extension() {
    assert!(is_texture("materials/vgui/replay/thumbnails/bigcross.vtf"));
    assert!(is_texture("C:\\tf\\thumbnails\\a.b.vtf"));
    assert!(!is_texture("bigcross.vmt"));
    assert!(!is_texture("bigcross.VTF"));
    assert!(!is_texture("bigcross"));
    assert!(!is_texture(".vtf"));
    assert!(!is_texture("dir.vtf/bigcross"));
    assert!(!is_texture(""));
}

#[test]
fn a_new_crosshair_has_no_size() {
    let c = CrosshairItem::new("dot.vtf".into(), "thumbnails/dot.vtf".into());
    assert_eq!(c.name, "dot.vtf");
    assert_eq!(c.path, "thumbnails/dot.vtf");
    assert_eq!(c.size, (0, 0));
    let d = c.clone();
    assert_eq!(d.name, c.name);
    assert_eq!(d.path, c.path);
    assert_eq!(d.size, c.size);
}

#[test]
fn batch_resilience() {
    let textures = vec![
        Texture { name: "a.vtf".into(), path: "t/a.vtf".into(), decoded: Ok((64, 32)) },
        Texture { name: "b.vtf".into(), path: "t/b.vtf".into(), decoded: Err("bad signature".into()) },
        Texture { name: "c.vtf".into(), path: "t/c.vtf".into(), decoded: Ok((16, 16)) },
        Texture { name: "d.vtf".into(), path: "t/d.vtf".into(), decoded: Err("unsupported format".into()) },
        Texture { name: "e.vtf".into(), path: "t/e.vtf".into(), decoded: Ok((512, 512)) },
    ];
    let scan = collect_crosshairs(&textures);
    assert_eq!(scan.decoded, 3);
    assert_eq!(
        scan.skipped,
        vec!["Skipping b.vtf; bad signature", "Skipping d.vtf; unsupported format"]
    );
    assert_eq!(scan.items.len(), 5);
    let sizes: Vec<(i32, i32)> = scan.items.iter().map(|i| i.size).collect();
    assert_eq!(sizes, vec![(64, 32), (0, 0), (16, 16), (0, 0), (512, 512)]);
    let names: Vec<&str> = scan.items.iter().map(|i| i.name.as_str()).collect();
    assert_eq!(names, vec!["a.vtf", "b.vtf", "c.vtf", "d.vtf", "e.vtf"]);
    assert_eq!(scan.items[3].path, "t/d.vtf");

    let mut reversed = textures;
    reversed.reverse();
    let scan = collect_crosshairs(&reversed);
    assert_eq!(scan.decoded, 3);
    assert_eq!(scan.skipped.len(), 2);
    let sizes: Vec<(i32, i32)> = scan.items.iter().map(|i| i.size).collect();
    assert_eq!(sizes, vec![(512, 512), (0, 0), (16, 16), (0, 0), (64, 32)]);

    let scan = collect_crosshairs(&Vec::new());
    assert_eq!(scan.decoded, 0);
    assert!(scan.items.is_empty());
    assert!(scan.skipped.is_empty());
}

#[test]
fn one_bad_script_does_not_stop_the_others() {
    let good = "\"crosshair\"\n{\n\"file\" \"sprites/crosshairs\"\n}\n";
    let scripts = vec![
        ScriptFile { path: "scripts/tf_weapon_bat.txt".into(), class: "Scout".into(), slot: 3, content: Ok(good.into()) },
        ScriptFile { path: "scripts/tf_weapon_sword.txt".into(), class: "Demoman".into(), slot: 3, content: Err(Error::NotFound) },
        ScriptFile { path: "scripts/tf_weapon_cannon.txt".into(), class: "Demoman".into(), slot: 1, content: Ok(good.into()) },
        ScriptFile { path: "scripts/tf_weapon_club.txt".into(), class: "Sniper".into(), slot: 3, content: Err(Error::IoError) },
        ScriptFile { path: "scripts/tf_weapon_smg.txt".into(), class: "Sniper".into(), slot: 2, content: Ok("\"crosshair\"\n{\n\"file\"\n".into()) },
        ScriptFile { path: "scripts/tf_weapon_jar.txt".into(), class: "Sniper".into(), slot: 2, content: Ok(String::new()) },
    ];
    let scan = load_weapons(&scripts);
    let names: Vec<&str> = scan.weapons.iter().map(|w| w.name.as_str()).collect();
    assert_eq!(names, vec!["tf_weapon_bat", "tf_weapon_jar"]);
    assert_eq!(scan.weapons[0].class, "Scout");
    assert_eq!(scan.weapons[0].slot, 3);
    assert_eq!(scan.weapons[0].crosshair, "sprites/crosshairs");
    assert_eq!(scan.weapons[1].crosshair, "");
    assert_eq!(
        scan.skipped,
        vec![
            "Skipping tf_weapon_sword; file not found",
            "Skipping tf_weapon_cannon; expected an explosion type",
            "Skipping tf_weapon_club; failed to read or write the file",
            "Skipping tf_weapon_smg; failed to get value",
        ]
    );
    assert_eq!(scan.weapons.len() + scan.skipped.len(), scripts.len());
    let scan = load_weapons(&Vec::new());
    assert!(scan.weapons.is_empty());
    assert!(scan.skipped.is_empty());
}
