use crosshair_switcher::load::read_crosshair;
use crosshair_switcher::load::read_explosion;
use crosshair_switcher::load::uses_explosion;
use crosshair_switcher::patch::patch_crosshair;
use crosshair_switcher::patch::patch_explosion;
use crosshair_switcher::CrosshairItem;
use crosshair_switcher::Error;
use crosshair_switcher::ExplosionEffect;
use crosshair_switcher::WeaponFile;

const ROCKET_LAUNCHER: &str = "WeaponData\r\n{\r\n\t\"Damage\"\t\"90\"\r\n\t\"ExplosionEffect\"\t\t\"ExplosionCore_wall\" // on walls\r\n\t\"ExplosionPlayerEffect\"\t\"ExplosionCore_MidAir\"\r\n\t\"ExplosionWaterEffect\"\t\"ExplosionCore_MidAir_underwater\"\r\n\tTextureData\r\n\t{\r\n\t\t\"crosshair\"\r\n\t\t{\r\n\t\t\t\"file\"\t\"sprites/crosshairs\"\r\n\t\t\t\"x\"\t\"32\"\r\n\t\t\t\"y\"\t\"48\"\r\n\t\t\t\"width\"\t\"32\"\r\n\t\t\t\"height\"\t\"16\"\r\n\t\t}\r\n\t\t\"autoaim\"\r\n\t\t{\r\n\t\t\t\"file\"\t\"sprites/crosshairs\"\r\n\t\t\t\"x\"\t\"0\"\r\n\t\t}\r\n\t}\r\n}";

fn item(path: &str, size: (i32, i32)) -> CrosshairItem {
    CrosshairItem { name: "".into(), path: path.into(), size }
}

#[test]
fn example_scenario() {
    let file = "\"crosshair\"\n{\n\"file\" \"sprites/crosshairs\"\n\"x\" \"0\"\n\"y\" \"0\"\n\"width\" \"32\"\n\"height\" \"32\"\n}\n\"ExplosionEffect\" \"ExplosionCore_wall\"\n";
    let w = WeaponFile::new("tf_weapon_grenadelauncher.txt", "Demoman".into(), 1, file).unwrap();
    assert_eq!(w.crosshair, "sprites/crosshairs");
    assert_eq!(w.explosion_effect, Some(ExplosionEffect::Default));
    let patched = w.replace_explosion(file, &ExplosionEffect::ElectricShock).unwrap();
    let w = WeaponFile::new("tf_weapon_grenadelauncher.txt", "Demoman".into(), 1, &patched).unwrap();
    assert_eq!(w.explosion_effect, Some(ExplosionEffect::ElectricShock));
    assert_eq!(w.crosshair, "sprites/crosshairs");
}

#[test]
fn a_weapon_keeps_what_it_was_read_with() {
    let w = WeaponFile::new("C:\\tf\\scripts\\tf_weapon_rocketlauncher.txt", "Soldier".into(), 1, ROCKET_LAUNCHER)
        .unwrap();
    assert_eq!(w.name, "tf_weapon_rocketlauncher");
    assert_eq!(w.path, "C:\\tf\\scripts\\tf_weapon_rocketlauncher.txt");
    assert_eq!(w.class, "Soldier");
    assert_eq!(w.slot, 1);
    assert_eq!(w.crosshair, "sprites/crosshairs");
    assert_eq!(w.explosion_effect, Some(ExplosionEffect::Default));
}

#[test]
fn crosshair_round_trip() {
    let c = item("materials/vgui/replay/thumbnails/dot_small.vtf", (16, 16));
    let patched = patch_crosshair(ROCKET_LAUNCHER, &c).unwrap();
    assert_eq!(read_crosshair(&patched), Ok("vgui/replay/thumbnails/dot_small".to_string()));
}

#[test]
fn crosshair_patch_is_idempotent() {
    let c = item("thumbnails/dot_small.vtf", (16, 0));
    let once = patch_crosshair(ROCKET_LAUNCHER, &c).unwrap();
    let twice = patch_crosshair(&once, &c).unwrap();
    assert_eq!(twice, once);
}

#[test]
fn the_same_crosshair_resets_only_the_offsets() {
    let c = item("sprites/crosshairs", (32, 16));
    let text = ROCKET_LAUNCHER.replace("sprites/crosshairs", "vgui/replay/thumbnails/crosshairs");
    let patched = patch_crosshair(&text, &c).unwrap();
    let expected = text.replace("\"x\"\t\"32\"", "\"x\"\t\"0\"").replace("\"y\"\t\"48\"", "\"y\"\t\"0\"");
    assert_eq!(patched, expected);
    assert_eq!(read_crosshair(&patched), read_crosshair(&text));
    assert_eq!(patch_crosshair(&patched, &c).unwrap(), patched);
}

#[test]
fn crosshair_patch_writes_every_field_of_the_block() {
    let c = item("bigcross.vtf", (128, 64));
    let patched = patch_crosshair(ROCKET_LAUNCHER, &c).unwrap();
    let expected = ROCKET_LAUNCHER.replace(
        "\t\t\t\"file\"\t\"sprites/crosshairs\"\r\n\t\t\t\"x\"\t\"32\"\r\n\t\t\t\"y\"\t\"48\"\r\n\t\t\t\"width\"\t\"32\"\r\n\t\t\t\"height\"\t\"16\"\r\n",
        "\t\t\t\"file\"\t\"vgui/replay/thumbnails/bigcross\"\r\n\t\t\t\"x\"\t\"0\"\r\n\t\t\t\"y\"\t\"0\"\r\n\t\t\t\"width\"\t\"128\"\r\n\t\t\t\"height\"\t\"64\"\r\n",
    );
    assert_eq!(patched, expected);
}

#[test]
fn an_unknown_size_is_written_as_64() {
    let c = item("bigcross.vtf", (0, 0));
    let patched = patch_crosshair(ROCKET_LAUNCHER, &c).unwrap();
    assert!(patched.contains("\"width\"\t\"64\"\r\n"));
    assert!(patched.contains("\"height\"\t\"64\"\r\n"));
    let c = item("bigcross.vtf", (0, 512));
    let patched = patch_crosshair(ROCKET_LAUNCHER, &c).unwrap();
    assert!(patched.contains("\"width\"\t\"64\"\r\n"));
    assert!(patched.contains("\"height\"\t\"512\"\r\n"));
}

#[test]
fn crosshair_patch_leaves_the_explosion_lines() {
    let c = item("bigcross.vtf", (64, 64));
    let patched = patch_crosshair(ROCKET_LAUNCHER, &c).unwrap();
    for line in ROCKET_LAUNCHER.lines().filter(|l| l.contains("Explosion")) {
        assert!(patched.lines().any(|l| l == line));
    }
    assert_eq!(read_explosion(&patched), read_explosion(ROCKET_LAUNCHER));
}

#[test]
fn explosion_patch_leaves_the_crosshair_block() {
    let patched = patch_explosion(ROCKET_LAUNCHER, &ExplosionEffect::PyroPool).unwrap();
    let block_from = ROCKET_LAUNCHER.find("\t\t\"crosshair\"").unwrap();
    let block = &ROCKET_LAUNCHER[block_from..];
    assert!(patched.ends_with(block));
    assert_eq!(read_crosshair(&patched), read_crosshair(ROCKET_LAUNCHER));
}

#[test]
fn explosion_patch_writes_the_three_keys() {
    let patched = patch_explosion(ROCKET_LAUNCHER, &ExplosionEffect::PyroPool).unwrap();
    let expected = ROCKET_LAUNCHER
        .replace("\"ExplosionCore_wall\"", "\"eotl_pyro_pool_explosion_flash\"")
        .replace("\"ExplosionCore_MidAir\"", "\"eotl_pyro_pool_explosion_flash\"")
        .replace("\"ExplosionCore_MidAir_underwater\"", "\"eotl_pyro_pool_explosion_flash\"");
    assert_eq!(patched, expected);
}

#[test]
fn default_fan_out() {
    let flash = patch_explosion(ROCKET_LAUNCHER, &ExplosionEffect::MuzzleFlash).unwrap();
    assert_ne!(flash, ROCKET_LAUNCHER);
    let back = patch_explosion(&flash, &ExplosionEffect::Default).unwrap();
    assert_eq!(back, ROCKET_LAUNCHER);
    assert!(back.contains("\t\"ExplosionEffect\"\t\t\"ExplosionCore_wall\" // on walls\r\n"));
    assert!(back.contains("\t\"ExplosionPlayerEffect\"\t\"ExplosionCore_MidAir\"\r\n"));
    assert!(back.contains("\t\"ExplosionWaterEffect\"\t\"ExplosionCore_MidAir_underwater\"\r\n"));
}

#[test]
fn explosion_round_trip() {
    for e in [
        ExplosionEffect::Default,
        ExplosionEffect::PyroPool,
        ExplosionEffect::MuzzleFlash,
        ExplosionEffect::SapperDestroyed,
        ExplosionEffect::ElectricShock,
        ExplosionEffect::Other("my_own_flash".to_string()),
    ] {
        let patched = patch_explosion(ROCKET_LAUNCHER, &e).unwrap();
        assert_eq!(read_explosion(&patched), Ok(e));
    }
}

#[test]
fn capability_gate() {
    let w = WeaponFile::new("scripts/tf_weapon_shotgun_soldier.txt", "Soldier".into(), 2, ROCKET_LAUNCHER)
        .unwrap();
    assert_eq!(w.explosion_effect, None);
    assert_eq!(
        w.replace_explosion(ROCKET_LAUNCHER, &ExplosionEffect::Default),
        Err(Error::UnsupportedOperation)
    );
}

#[test]
fn the_weapons_that_show_an_explosion() {
    for name in [
        "tf_weapon_rocketlauncher",
        "tf_weapon_particle_cannon",
        "tf_weapon_rocketlauncher_directhit",
        "tf_weapon_rocketlauncher_airstrike",
        "tf_weapon_grenadelauncher",
        "tf_weapon_cannon",
        "tf_weapon_pipebomblauncher",
    ] {
        assert!(uses_explosion(name));
    }
    assert!(!uses_explosion("tf_weapon_flaregun"));
    assert!(!uses_explosion("tf_weapon_rocketlauncher.txt"));
    assert!(!uses_explosion(""));
}

#[test]
fn missing_explosion_effect() {
    let file = "\"crosshair\"\n{\n\"file\" \"sprites/crosshairs\"\n}\n\"ExplosionPlayerEffect\" \"ExplosionCore_MidAir\"\n";
    assert_eq!(
        WeaponFile::new("tf_weapon_cannon.txt", "Demoman".into(), 1, file).err(),
        Some(Error::MissingRequiredField)
    );
    assert_eq!(read_explosion(file), Err(Error::MissingRequiredField));
    assert!(WeaponFile::new("tf_weapon_bat.txt", "Scout".into(), 3, file).is_ok());
}

#[test]
fn the_first_explosion_line_counts() {
    let file = "\"ExplosionEffect\" \"electrocuted_red_flash\"\n\"ExplosionEffect\" \"ExplosionCore_wall\"\n";
    assert_eq!(read_explosion(file), Ok(ExplosionEffect::ElectricShock));
}

#[test]
fn a_field_without_a_value_is_malformed() {
    let no_file_value = "\"crosshair\"\n{\n\"file\"\n}\n";
    assert_eq!(read_crosshair(no_file_value), Err(Error::MalformedField));
    assert_eq!(patch_crosshair(no_file_value, &item("a.vtf", (1, 1))), Err(Error::MalformedField));
    let no_x_value = "\"crosshair\"\n{\n\"file\" \"a\"\n\"x\"\n}\n";
    assert_eq!(read_crosshair(no_x_value), Ok("a".to_string()));
    assert_eq!(patch_crosshair(no_x_value, &item("a.vtf", (1, 1))), Err(Error::MalformedField));
    let no_effect_value = "\"ExplosionWaterEffect\"\n";
    assert_eq!(patch_explosion(no_effect_value, &ExplosionEffect::Default), Err(Error::MalformedField));
    let no_first_value = "\"ExplosionEffect\"\n\"ExplosionEffect\" \"ExplosionCore_wall\"\n";
    assert_eq!(read_explosion(no_first_value), Err(Error::MalformedField));
    assert_eq!(
        WeaponFile::new("tf_weapon_cannon.txt", "Demoman".into(), 1, no_first_value).err(),
        Some(Error::MalformedField)
    );
}

#[test]
fn a_block_without_a_file_line_is_malformed() {
    let closed = "\"crosshair\"\n{\n\"x\" \"1\"\n}\n\"file\" \"later\"\n";
    assert_eq!(patch_crosshair(closed, &item("a.vtf", (1, 1))), Err(Error::MalformedField));
    let open = "\"crosshair\"\n{\n\"x\" \"1\"\n";
    assert_eq!(patch_crosshair(open, &item("a.vtf", (1, 1))), Err(Error::MalformedField));
    let bare = "\"crosshair\"\n";
    assert_eq!(patch_crosshair(bare, &item("a.vtf", (1, 1))), Err(Error::MalformedField));
}

#[test]
fn a_path_without_a_file_name_is_not_found() {
    assert_eq!(WeaponFile::new("scripts/", "Scout".into(), 1, "").err(), Some(Error::NotFound));
    assert_eq!(WeaponFile::new("", "Scout".into(), 1, "").err(), Some(Error::NotFound));
    assert_eq!(WeaponFile::new("scripts/..", "Scout".into(), 1, "").err(), Some(Error::NotFound));
}

#[test]
fn a_script_without_a_crosshair_block() {
    let file = "WeaponData\n{\n\t\"file\"\t\"not a crosshair\"\n}\n";
    assert_eq!(read_crosshair(file), Ok(String::new()));
    assert_eq!(patch_crosshair(file, &item("a.vtf", (1, 1))), Ok(file.to_string()));
    assert_eq!(read_crosshair(""), Ok(String::new()));
    assert_eq!(patch_crosshair("", &item("a.vtf", (1, 1))), Ok(String::new()));
    assert_eq!(patch_explosion("", &ExplosionEffect::Default), Ok(String::new()));
}

#[test]
fn the_line_behind_the_crosshair_key_is_passed_over() {
    let file = "\"crosshair\"\n\"file\" \"skipped\"\n\"file\" \"taken\"\n}\n";
    assert_eq!(read_crosshair(file), Ok("taken".to_string()));
    assert_eq!(
        patch_crosshair(file, &item("new.vtf", (1, 1))),
        Ok("\"crosshair\"\n\"file\" \"skipped\"\n\"file\" \"vgui/replay/thumbnails/new\"\n}\n".to_string())
    );
}

#[test]
fn only_the_first_crosshair_block_is_read_and_written() {
    let file = "\"crosshair\"\n{\n\"file\" \"one\"\n}\n\"crosshair\"\n{\n\"file\" \"two\"\n}\n";
    assert_eq!(read_crosshair(file), Ok("one".to_string()));
    assert_eq!(
        patch_crosshair(file, &item("new.vtf", (1, 1))),
        Ok("\"crosshair\"\n{\n\"file\" \"vgui/replay/thumbnails/new\"\n}\n\"crosshair\"\n{\n\"file\" \"two\"\n}\n".to_string())
    );
}

#[test]
fn line_endings_and_the_missing_last_line_feed_are_kept() {
    let c = item("a.vtf", (8, 8));
    let patched = patch_crosshair(ROCKET_LAUNCHER, &c).unwrap();
    assert_eq!(patched.matches("\r\n").count(), ROCKET_LAUNCHER.matches("\r\n").count());
    assert!(patched.ends_with("\t}\r\n}"));
    let unix = ROCKET_LAUNCHER.replace("\r\n", "\n") + "\n";
    let patched = patch_explosion(&unix, &ExplosionEffect::ElectricShock).unwrap();
    assert!(!patched.contains('\r'));
    assert!(patched.ends_with("\t}\n}\n"));
}

#[test]
fn a_comment_behind_the_value_survives() {
    let patched = patch_explosion(ROCKET_LAUNCHER, &ExplosionEffect::ElectricShock).unwrap();
    assert!(patched.contains("\t\"ExplosionEffect\"\t\t\"electrocuted_red_flash\" // on walls\r\n"));
}
