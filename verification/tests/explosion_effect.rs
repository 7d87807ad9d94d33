use crosshair_switcher::effect::choices;
use crosshair_switcher::ExplosionEffect;
use crosshair_switcher::ExplosionKey;

#[test]
fn display_names() {
    assert_eq!(ExplosionEffect::Default.to_str(), "Default");
    assert_eq!(ExplosionEffect::PyroPool.to_str(), "Pyro Pool");
    assert_eq!(ExplosionEffect::MuzzleFlash.to_str(), "Muzzle Flash");
    assert_eq!(ExplosionEffect::SapperDestroyed.to_str(), "Sapper Destroyed");
    assert_eq!(ExplosionEffect::ElectricShock.to_str(), "Electric Shock");
    assert_eq!(ExplosionEffect::Other("my_effect".to_string()).to_str(), "my_effect");
}

#[test]
fn weapon_file_identifiers() {
    assert_eq!(
        ExplosionEffect::PyroPool.to_weapon_file_str(),
        "eotl_pyro_pool_explosion_flash"
    );
    assert_eq!(ExplosionEffect::MuzzleFlash.to_weapon_file_str(), "muzzle_minigun_starflash01");
    assert_eq!(
        ExplosionEffect::SapperDestroyed.to_weapon_file_str(),
        "ExplosionCore_sapperdestroyed"
    );
    assert_eq!(ExplosionEffect::ElectricShock.to_weapon_file_str(), "electrocuted_red_flash");
    assert_eq!(ExplosionEffect::Other("my_effect".to_string()).to_weapon_file_str(), "my_effect");
}

#[test]
fn default_has_one_identifier_for_each_key() {
    let d = ExplosionEffect::Default;
    assert_eq!(d.identifier_for(ExplosionKey::Effect), "ExplosionCore_wall");
    assert_eq!(d.identifier_for(ExplosionKey::PlayerEffect), "ExplosionCore_MidAir");
    assert_eq!(d.identifier_for(ExplosionKey::WaterEffect), "ExplosionCore_MidAir_underwater");
}

#[test]
fn other_effects_have_the_same_identifier_for_each_key() {
    let e = ExplosionEffect::ElectricShock;
    assert_eq!(e.identifier_for(ExplosionKey::Effect), "electrocuted_red_flash");
    assert_eq!(e.identifier_for(ExplosionKey::PlayerEffect), "electrocuted_red_flash");
    assert_eq!(e.identifier_for(ExplosionKey::WaterEffect), "electrocuted_red_flash");
    let o = ExplosionEffect::Other("abc".to_string());
    assert_eq!(o.identifier_for(ExplosionKey::WaterEffect), "abc");
}

#[test]
fn from_display_name() {
    assert_eq!(ExplosionEffect::from("Default"), ExplosionEffect::Default);
    assert_eq!(ExplosionEffect::from("Pyro Pool"), ExplosionEffect::PyroPool);
    assert_eq!(ExplosionEffect::from("Muzzle Flash"), ExplosionEffect::MuzzleFlash);
    assert_eq!(ExplosionEffect::from("Sapper Destroyed"), ExplosionEffect::SapperDestroyed);
    assert_eq!(ExplosionEffect::from("Electric Shock"), ExplosionEffect::ElectricShock);
    assert_eq!(
        ExplosionEffect::from("pyro pool"),
        ExplosionEffect::Other("pyro pool".to_string())
    );
    assert_eq!(ExplosionEffect::from(""), ExplosionEffect::Other(String::new()));
    let e: ExplosionEffect = "Electric Shock".into();
    assert_eq!(e, ExplosionEffect::ElectricShock);
}

#[test]
fn from_identifier_in_a_script() {
    assert_eq!(
        ExplosionEffect::from_weapon_file_str("ExplosionCore_wall"),
        ExplosionEffect::Default
    );
    assert_eq!(
        ExplosionEffect::from_weapon_file_str("eotl_pyro_pool_explosion_flash"),
        ExplosionEffect::PyroPool
    );
    assert_eq!(
        ExplosionEffect::from_weapon_file_str("muzzle_minigun_starflash01"),
        ExplosionEffect::MuzzleFlash
    );
    assert_eq!(
        ExplosionEffect::from_weapon_file_str("ExplosionCore_sapperdestroyed"),
        ExplosionEffect::SapperDestroyed
    );
    assert_eq!(
        ExplosionEffect::from_weapon_file_str("electrocuted_red_flash"),
        ExplosionEffect::ElectricShock
    );
    assert_eq!(
        ExplosionEffect::from_weapon_file_str("ExplosionCore_MidAir"),
        ExplosionEffect::Other("ExplosionCore_MidAir".to_string())
    );
}

#[test]
fn known_effects_are_read_back_from_their_identifier() {
    let known = vec![
        ExplosionEffect::Default,
        ExplosionEffect::PyroPool,
        ExplosionEffect::MuzzleFlash,
        ExplosionEffect::SapperDestroyed,
        ExplosionEffect::ElectricShock,
    ];
    for e in known {
        assert_eq!(
            ExplosionEffect::from_weapon_file_str(e.identifier_for(ExplosionKey::Effect)),
            e
        );
        assert_eq!(ExplosionEffect::from(e.to_str()), e);
    }
}

#[test]
fn choices_start_with_the_current_effect() {
    assert_eq!(
        choices(&ExplosionEffect::MuzzleFlash),
        vec!["Muzzle Flash", "Default", "Pyro Pool", "Sapper Destroyed", "Electric Shock"]
    );
    assert_eq!(
        choices(&ExplosionEffect::Default),
        vec!["Default", "Pyro Pool", "Muzzle Flash", "Sapper Destroyed", "Electric Shock"]
    );
    assert_eq!(
        choices(&ExplosionEffect::Other("flash".to_string())),
        vec![
            "flash",
            "Default",
            "Pyro Pool",
            "Muzzle Flash",
            "Sapper Destroyed",
            "Electric Shock"
        ]
    );
}
