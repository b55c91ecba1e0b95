use hub::config::UserConfig;
use hub::flags::{CoalitionFlag, UnitTypeFlag};
use hub::mission_time::TimeError;
use hub::pipeline::{process_unit, UnitDrop};
use hub::unit::{Coalition, DcsUnit, Level1UnitType, Position3D, UnitType};

fn build_dcs_unit(coalition: Option<Coalition>, unit_type: Option<Level1UnitType>) -> DcsUnit {
    DcsUnit {
        coalition: match coalition {
            Some(coalition) => coalition,
            None => Coalition::BLUFOR,
        },
        unit_name: String::new(),
        group_name: String::new(),
        position: Position3D {
            latitude: 0.0f64.to_string(),
            longitude: 0.0f64.to_string(),
            altitude: 0.0f32.to_string(),
            heading: 0.0f64.to_string(),
        },
        unit_type: UnitType {
            level_1: match unit_type {
                Some(unit_type) => unit_type,
                None => Level1UnitType::AIR,
            },
            level_2: 0,
        },
        mission_date: String::new(),
        mission_start_time: 0,
        mission_time_elapsed: 0,
    }
}

fn build_user_config(
    coalition_flag: Option<CoalitionFlag>,
    unit_type_flag: Option<UnitTypeFlag>,
) -> UserConfig {
    UserConfig {
        coalition_flag: match coalition_flag {
            Some(coalition_flag) => coalition_flag,
            None => CoalitionFlag::empty(),
        } | CoalitionFlag(8),
        unit_type_flag: match unit_type_flag {
            Some(unit_type_flag) => unit_type_flag,
            None => UnitTypeFlag::empty(),
        } | UnitTypeFlag(8),
        export_frequency_frames: 0,
    }
}

#[test]
fn given_config_coalition_flag_when_unit_coalition_matches_then_return_true() {
    let pairs = vec![
        (CoalitionFlag::NEUTRAL(), Coalition::NEUTRAL),
        (CoalitionFlag::REDFOR(), Coalition::REDFOR),
        (CoalitionFlag::BLUFOR(), Coalition::BLUFOR),
    ];

    for (coalition_flag, coalition) in pairs {
        let config = build_user_config(Some(coalition_flag), None);
        let unit = build_dcs_unit(Some(coalition), None);

        assert!(config.is_coalition_configured(&unit));
    }
}

#[test]
fn given_config_coalition_flag_when_unit_coalition_does_not_match_then_return_false() {
    let pairs = vec![
        (CoalitionFlag::NEUTRAL(), Coalition::REDFOR),
        (CoalitionFlag::REDFOR(), Coalition::BLUFOR),
        (CoalitionFlag::BLUFOR(), Coalition::NEUTRAL),
    ];

    for (coalition_flag, coalition) in pairs {
        let config = build_user_config(Some(coalition_flag), None);
        let unit = build_dcs_unit(Some(coalition), None);

        assert!(!config.is_coalition_configured(&unit));
    }
}

#[test]
fn given_config_unit_type_flag_when_unit_type_matches_then_return_true() {
    let pairs = vec![
        (UnitTypeFlag::AIR(), Level1UnitType::AIR),
        (UnitTypeFlag::GROUND(), Level1UnitType::GROUND),
        (UnitTypeFlag::SEA(), Level1UnitType::SEA),
    ];

    for (unit_type_flag, unit_type) in pairs {
        let config = build_user_config(None, Some(unit_type_flag));
        let unit = build_dcs_unit(None, Some(unit_type));

        assert!(config.is_unit_type_configured(&unit));
    }
}

#[test]
fn given_config_unit_type_flag_when_unit_type_does_not_match_then_return_false() {
    let pairs = vec![
        (UnitTypeFlag::AIR(), Level1UnitType::GROUND),
        (UnitTypeFlag::GROUND(), Level1UnitType::SEA),
        (UnitTypeFlag::SEA(), Level1UnitType::AIR),
    ];

    for (unit_type_flag, unit_type) in pairs {
        let config = build_user_config(None, Some(unit_type_flag));
        let unit = build_dcs_unit(None, Some(unit_type));

        assert!(!config.is_unit_type_configured(&unit));
    }
}

#[test]
fn give_config_when_unit_is_configured_then_return_true() {
    let config = build_user_config(Some(CoalitionFlag::BLUFOR()), Some(UnitTypeFlag::GROUND()));
    let unit = build_dcs_unit(Some(Coalition::BLUFOR), Some(Level1UnitType::GROUND));

    assert!(config.is_unit_configured(&unit));
}

#[test]
fn give_config_when_unit_is_not_configured_then_return_false() {
    let config = build_user_config(Some(CoalitionFlag::BLUFOR()), Some(UnitTypeFlag::GROUND()));
    let unit = build_dcs_unit(Some(Coalition::REDFOR), Some(Level1UnitType::AIR));

    assert!(!config.is_unit_configured(&unit));

    let config = build_user_config(Some(CoalitionFlag::BLUFOR()), Some(UnitTypeFlag::GROUND()));
    let unit = build_dcs_unit(Some(Coalition::BLUFOR), Some(Level1UnitType::AIR));

    assert!(!config.is_unit_configured(&unit));
}

#[test]
fn filter_checks_every_coalition_and_category_bit() {
    let coalitions = [(Coalition::NEUTRAL, 1u8), (Coalition::REDFOR, 2), (Coalition::BLUFOR, 4)];
    let categories = [
        (Level1UnitType::GROUND, 1u8),
        (Level1UnitType::AIR, 2),
        (Level1UnitType::SEA, 4),
    ];
    for coalition_mask in 0u8..16 {
        for type_mask in 0u8..16 {
            let config = UserConfig {
                coalition_flag: CoalitionFlag(coalition_mask),
                unit_type_flag: UnitTypeFlag(type_mask),
                export_frequency_frames: 100,
            };
            for (coalition, cbit) in coalitions {
                for (category, tbit) in categories {
                    let unit = build_dcs_unit(Some(coalition), Some(category));
                    let expected = (coalition_mask & cbit) != 0 && (type_mask & tbit) != 0;
                    assert_eq!(config.is_unit_configured(&unit), expected);
                }
            }
        }
    }
}

#[test]
fn flag_sets_combine_bitwise() {
    let both = CoalitionFlag::BLUFOR() | CoalitionFlag::NEUTRAL();
    assert_eq!(both, CoalitionFlag(5));
    assert_eq!(both & CoalitionFlag::REDFOR(), CoalitionFlag::empty());
    let all = UnitTypeFlag::GROUND() | UnitTypeFlag::AIR() | UnitTypeFlag::SEA();
    assert_eq!(all, UnitTypeFlag(7));
    assert_eq!(all & UnitTypeFlag::SEA(), UnitTypeFlag(4));

    let mut flags = CoalitionFlag::empty();
    flags |= CoalitionFlag::REDFOR();
    flags |= CoalitionFlag::BLUFOR();
    assert_eq!(flags, CoalitionFlag(6));
    flags &= CoalitionFlag::BLUFOR();
    assert_eq!(flags, CoalitionFlag::BLUFOR());
    let mut types = UnitTypeFlag(7);
    types &= UnitTypeFlag(3);
    types |= UnitTypeFlag(8);
    assert_eq!(types, UnitTypeFlag(11));
}

#[test]
fn filtered_unit_is_dropped_before_rendering() {
    let config = build_user_config(Some(CoalitionFlag::REDFOR()), Some(UnitTypeFlag::AIR()));
    let unit = build_dcs_unit(Some(Coalition::BLUFOR), Some(Level1UnitType::AIR));
    assert_eq!(process_unit(&config, &unit), Err(UnitDrop::Filtered));
}

#[test]
fn admitted_unit_with_malformed_date_is_dropped_with_time_error() {
    let config = build_user_config(Some(CoalitionFlag::BLUFOR()), Some(UnitTypeFlag::AIR()));
    let mut unit = build_dcs_unit(Some(Coalition::BLUFOR), Some(Level1UnitType::AIR));
    unit.mission_date = "2023-13-08".to_string();
    assert_eq!(
        process_unit(&config, &unit),
        Err(UnitDrop::Time(TimeError::MalformedDate))
    );
}

#[test]
fn admitted_unit_is_rendered() {
    let config = build_user_config(Some(CoalitionFlag::BLUFOR()), Some(UnitTypeFlag::AIR()));
    let mut unit = build_dcs_unit(Some(Coalition::BLUFOR), Some(Level1UnitType::AIR));
    unit.unit_name = "U".to_string();
    unit.mission_date = "2024-03-08".to_string();
    unit.mission_start_time = 59;
    let xml = process_unit(&config, &unit).unwrap();
    assert_eq!(
        xml,
        r#"<?xml version="1.0" standalone="yes"?><event version="2.0" uid="U" type="a-f-A" how="m-g" time="2024-03-08T00:00:59Z" start="2024-03-08T00:00:59Z" stale="2024-03-08T00:01:59Z"><point lat="0" lon="0" ce="0.0" hae="0" le="0.0"/><detail><contact callsign="U"/></detail></event>"#
    );
}
