use screen_filter::{
    DeviceAction, DeviceEvent, DeviceFailure, DeviceJob, FilterConfig, FilterError, FilterManager,
    GammaCurve, GammaRamp, PresetCollection,
};
use std::collections::{HashMap, HashSet};

struct Displays {
    tables: HashMap<String, GammaRamp>,
    unwritable: HashSet<String>,
    writes: Vec<String>,
}

fn displays(names: &[&str]) -> Displays {
    let mut tables = HashMap::new();
    for name in names.iter() {
        tables.insert(name.to_string(), GammaRamp::default());
    }
    Displays { tables, unwritable: HashSet::new(), writes: Vec::new() }
}

fn run(
    manager: &mut FilterManager,
    displays: &mut Displays,
    job: DeviceJob,
) -> Result<(), FilterError> {
    let mut action = manager.advance(job, DeviceEvent::Begin);
    loop {
        action = match action {
            DeviceAction::Read { job, device } => {
                let result = match displays.tables.get(&device) {
                    Some(table) => Ok(*table),
                    None => Err(format!("no display {}", device)),
                };
                manager.advance(job, DeviceEvent::ReadFinished(result))
            }
            DeviceAction::Write { job, device, ramp } => {
                displays.writes.push(device.clone());
                let result = if displays.unwritable.contains(&device) {
                    Err(format!("cannot write {}", device))
                } else {
                    displays.tables.insert(device, ramp);
                    Ok(())
                };
                manager.advance(job, DeviceEvent::WriteFinished(result))
            }
            DeviceAction::Done { result, followup } => {
                assert_eq!(followup, screen_filter::Followup::Nothing);
                return result;
            }
        }
    }
}

fn gamma_curve(config: &FilterConfig) -> GammaCurve {
    let mut curve = [0u32; 256];
    let gamma = config.gamma as f64 / 1_000_000.0;
    for i in 0..256 {
        let contrasted = config.contrasted_level(i) as f64 / 510_000_000.0;
        let corrected = contrasted.powf(1.0 / gamma);
        curve[i] = (corrected * 4_294_967_295.0).round() as u32;
    }
    GammaCurve::new(curve).unwrap()
}

fn reading_config() -> FilterConfig {
    FilterConfig {
        brightness: 100_000,
        gamma: 1_300_000,
        contrast: 0,
        red_scale: 1_000_000,
        green_scale: 1_000_000,
        blue_scale: 950_000,
    }
}

fn names(list: &[&str]) -> Vec<String> {
    list.iter().map(|name| name.to_string()).collect()
}

#[test]
fn test_filter_manager_creation() {
    let manager = FilterManager::new(None);
    assert!(manager.is_ok());
}

#[test]
fn test_create_and_delete_preset() {
    let mut manager = FilterManager::new(None).unwrap();

    let config = FilterConfig::default();
    let preset_id = manager.create_preset("测试预设".to_string(), config, None).unwrap();

    let preset = manager.get_preset(&preset_id);
    assert!(preset.is_ok());

    let result = manager.delete_preset(&preset_id);
    assert!(result.is_ok());

    let preset = manager.get_preset(&preset_id);
    assert!(preset.is_err());
}

#[test]
fn a_new_manager_uses_the_saved_catalogue() {
    let mut saved = PresetCollection::default();
    saved.set_active_preset("nighttime").unwrap();
    let manager = FilterManager::new(Some(saved)).unwrap();
    assert_eq!(manager.get_active_preset().unwrap().id, "nighttime");
    assert!(!manager.controller().has_original("DISPLAY1"));
}

#[test]
fn a_new_manager_without_a_saved_catalogue_is_seeded() {
    let manager = FilterManager::new(None).unwrap();
    let mut ids: Vec<String> = manager.get_all_presets().into_iter().map(|p| p.id).collect();
    ids.sort();
    assert_eq!(ids, names(&["daytime", "default", "nighttime"]));
    assert_eq!(manager.get_active_preset().unwrap().id, "default");
}

#[test]
fn created_ids_are_custom_uuids_and_differ() {
    let mut manager = FilterManager::new(None).unwrap();
    let first = manager.create_preset("A".to_string(), FilterConfig::default(), None).unwrap();
    let second = manager.create_preset("B".to_string(), FilterConfig::default(), None).unwrap();
    assert_ne!(first, second);
    for id in [&first, &second] {
        assert!(id.starts_with("custom_"));
        assert_eq!(id.chars().count(), 43);
        let uuid: Vec<char> = id.chars().skip(7).collect();
        for (i, c) in uuid.iter().enumerate() {
            if i == 8 || i == 13 || i == 18 || i == 23 {
                assert_eq!(*c, '-');
            } else {
                assert!(c.is_ascii_hexdigit());
            }
        }
        assert_eq!(uuid[14], '4');
    }
    assert_eq!(manager.get_all_presets().len(), 5);
}

#[test]
fn reading_preset_is_created_applied_and_deleted() {
    let mut manager = FilterManager::new(None).unwrap();
    let mut screen = displays(&["DISPLAY1"]);
    let id = manager
        .create_preset("Reading".to_string(), reading_config(), Some("F6".to_string()))
        .unwrap();
    let stored = manager.get_preset(&id).unwrap();
    assert_eq!(stored.id, id);
    assert_eq!(stored.name, "Reading");
    assert_eq!(stored.hotkey, Some("F6".to_string()));
    assert_eq!(stored.config, reading_config());
    assert!(!stored.is_default);

    assert!(!manager.controller().has_original("DISPLAY1"));
    let job =
        manager.apply_preset(&id, &gamma_curve(&stored.config), names(&["DISPLAY1"])).unwrap();
    assert_eq!(run(&mut manager, &mut screen, job), Ok(()));
    assert!(manager.controller().has_original("DISPLAY1"));
    assert_eq!(manager.get_active_preset().unwrap().id, id);
    assert_eq!(
        screen.tables["DISPLAY1"],
        GammaRamp::from_config(&reading_config(), &gamma_curve(&reading_config()))
    );

    assert_eq!(manager.delete_preset(&id), Ok(()));
    assert_eq!(manager.get_preset(&id), Err(FilterError::NotFound));
    assert_eq!(manager.get_active_preset().unwrap().id, "default");
}

#[test]
fn create_rejects_an_invalid_config() {
    let mut manager = FilterManager::new(None).unwrap();
    let config = FilterConfig { red_scale: 2_500_000, ..FilterConfig::default() };
    assert_eq!(
        manager.create_preset("Bad".to_string(), config, None),
        Err(FilterError::InvalidConfig {
            field: screen_filter::ConfigField::RedScale,
            value: 2_500_000
        })
    );
    assert_eq!(manager.get_all_presets().len(), 3);
}

#[test]
fn create_rejects_a_hotkey_in_use() {
    let mut manager = FilterManager::new(None).unwrap();
    assert_eq!(
        manager.create_preset("Mine".to_string(), FilterConfig::default(), Some("F2".to_string())),
        Err(FilterError::Conflict { hotkey: "F2".to_string(), preset_id: "default".to_string() })
    );
    assert_eq!(manager.get_all_presets().len(), 3);
}

#[test]
fn create_reports_the_config_before_the_hotkey() {
    let mut manager = FilterManager::new(None).unwrap();
    let config = FilterConfig { gamma: 100, ..FilterConfig::default() };
    assert_eq!(
        manager.create_preset("Bad".to_string(), config, Some("F2".to_string())),
        Err(FilterError::InvalidConfig { field: screen_filter::ConfigField::Gamma, value: 100 })
    );
}

#[test]
fn create_with_id_stores_under_the_id() {
    let mut manager = FilterManager::new(None).unwrap();
    let id = manager
        .create_preset_with_id(
            "custom_fixed".to_string(),
            "Fixed".to_string(),
            reading_config(),
            Some("F7".to_string()),
        )
        .unwrap();
    assert_eq!(id, "custom_fixed");
    let stored = manager.get_preset("custom_fixed").unwrap();
    assert_eq!(stored.name, "Fixed");
    assert_eq!(stored.hotkey, Some("F7".to_string()));
    assert!(!stored.is_default);
}

#[test]
fn update_changes_only_what_is_given() {
    let mut manager = FilterManager::new(None).unwrap();
    let id = manager
        .create_preset("Reading".to_string(), reading_config(), Some("F6".to_string()))
        .unwrap();
    assert_eq!(manager.update_preset(&id, Some("Books".to_string()), None, None), Ok(()));
    let stored = manager.get_preset(&id).unwrap();
    assert_eq!(stored.name, "Books");
    assert_eq!(stored.config, reading_config());
    assert_eq!(stored.hotkey, Some("F6".to_string()));

    assert_eq!(manager.update_preset(&id, None, Some(FilterConfig::default()), None), Ok(()));
    let stored = manager.get_preset(&id).unwrap();
    assert_eq!(stored.name, "Books");
    assert_eq!(stored.config, FilterConfig::default());
    assert_eq!(stored.hotkey, Some("F6".to_string()));

    assert_eq!(manager.update_preset(&id, None, None, Some(None)), Ok(()));
    let stored = manager.get_preset(&id).unwrap();
    assert_eq!(stored.hotkey, None);
    assert_eq!(stored.id, id);
    assert!(!stored.is_default);
}

#[test]
fn update_keeps_a_built_in_preset_built_in() {
    let mut manager = FilterManager::new(None).unwrap();
    assert_eq!(
        manager.update_preset("daytime", Some("Day".to_string()), Some(reading_config()), None),
        Ok(())
    );
    let stored = manager.get_preset("daytime").unwrap();
    assert_eq!(stored.name, "Day");
    assert!(stored.is_default);
    assert_eq!(manager.delete_preset("daytime"), Err(FilterError::CannotDeleteDefault));
}

#[test]
fn update_refuses_a_hotkey_of_another_preset() {
    let mut manager = FilterManager::new(None).unwrap();
    let id = manager
        .create_preset("Reading".to_string(), reading_config(), Some("F6".to_string()))
        .unwrap();
    assert_eq!(
        manager.update_preset(&id, Some("X".to_string()), None, Some(Some("F3".to_string()))),
        Err(FilterError::Conflict { hotkey: "F3".to_string(), preset_id: "daytime".to_string() })
    );
    let stored = manager.get_preset(&id).unwrap();
    assert_eq!(stored.name, "Reading");
    assert_eq!(stored.hotkey, Some("F6".to_string()));
    assert_eq!(
        manager.update_preset("default", None, None, Some(Some("F6".to_string()))),
        Err(FilterError::Conflict { hotkey: "F6".to_string(), preset_id: id.clone() })
    );
}

#[test]
fn update_lets_a_preset_keep_its_own_hotkey() {
    let mut manager = FilterManager::new(None).unwrap();
    let id = manager
        .create_preset("Reading".to_string(), reading_config(), Some("F6".to_string()))
        .unwrap();
    assert_eq!(
        manager.update_preset(&id, Some("Books".to_string()), None, Some(Some("F6".to_string()))),
        Ok(())
    );
    assert_eq!(manager.update_preset("default", None, None, Some(Some("F2".to_string()))), Ok(()));
    assert_eq!(manager.get_preset(&id).unwrap().hotkey, Some("F6".to_string()));
}

#[test]
fn update_refuses_an_invalid_config_and_an_unknown_preset() {
    let mut manager = FilterManager::new(None).unwrap();
    let bad = FilterConfig { contrast: -600_000, ..FilterConfig::default() };
    assert_eq!(
        manager.update_preset("default", Some("X".to_string()), Some(bad), None),
        Err(FilterError::InvalidConfig {
            field: screen_filter::ConfigField::Contrast,
            value: -600_000
        })
    );
    assert_eq!(manager.get_preset("default").unwrap().name, "默认");
    assert_eq!(
        manager.update_preset("missing", None, Some(bad), Some(Some("F2".to_string()))),
        Err(FilterError::NotFound)
    );
}

#[test]
fn rename_changes_the_name_alone() {
    let mut manager = FilterManager::new(None).unwrap();
    assert_eq!(manager.rename_preset("nighttime", "Night".to_string()), Ok(()));
    let stored = manager.get_preset("nighttime").unwrap();
    assert_eq!(stored.name, "Night");
    assert_eq!(stored.hotkey, Some("F4".to_string()));
    assert!(stored.is_default);
    assert_eq!(
        manager.rename_preset("missing", "Night".to_string()),
        Err(FilterError::NotFound)
    );
}

#[test]
fn delete_refuses_built_in_and_unknown_presets() {
    let mut manager = FilterManager::new(None).unwrap();
    assert_eq!(manager.delete_preset("default"), Err(FilterError::CannotDeleteDefault));
    assert_eq!(manager.delete_preset("missing"), Err(FilterError::NotFound));
    assert_eq!(manager.get_all_presets().len(), 3);
}

#[test]
fn apply_preset_refuses_unknown_presets_and_empty_device_lists() {
    let manager = FilterManager::new(None).unwrap();
    let curve = gamma_curve(&FilterConfig::default());
    assert_eq!(
        manager.apply_preset("missing", &curve, Vec::new()).err(),
        Some(FilterError::NotFound)
    );
    assert_eq!(
        manager.apply_preset("default", &curve, Vec::new()).err(),
        Some(FilterError::NoDevicesSelected)
    );
}

#[test]
fn a_saved_catalogue_with_an_invalid_config_is_refused() {
    let mut saved = PresetCollection::default();
    let mut broken = saved.get_preset("daytime").unwrap().clone();
    broken.config.gamma = 9_000_000;
    saved.upsert_preset(broken);
    assert_eq!(FilterManager::new(Some(saved)).err(), Some(FilterError::InvalidCatalogue));
}

#[test]
fn a_saved_catalogue_with_an_unknown_active_id_is_refused() {
    let mut saved = PresetCollection::default();
    saved.active_preset_id = Some("gone".to_string());
    assert_eq!(FilterManager::new(Some(saved)).err(), Some(FilterError::InvalidCatalogue));
}

#[test]
fn a_saved_catalogue_without_an_active_preset_is_taken() {
    let mut saved = PresetCollection::default();
    saved.active_preset_id = None;
    let manager = FilterManager::new(Some(saved)).unwrap();
    assert!(manager.get_active_preset().is_none());
    assert_eq!(manager.get_all_presets().len(), 3);
}

#[test]
fn a_preset_that_fails_on_a_display_does_not_become_active() {
    let mut manager = FilterManager::new(None).unwrap();
    let mut screen = displays(&["DISPLAY1", "DISPLAY2"]);
    screen.unwritable.insert("DISPLAY2".to_string());
    let config = manager.get_preset("nighttime").unwrap().config;
    let job = manager
        .apply_preset("nighttime", &gamma_curve(&config), names(&["DISPLAY1", "DISPLAY2"]))
        .unwrap();
    assert_eq!(
        run(&mut manager, &mut screen, job),
        Err(FilterError::PartialFailure {
            succeeded: names(&["DISPLAY1"]),
            failed: vec![DeviceFailure {
                device: "DISPLAY2".to_string(),
                cause: "cannot write DISPLAY2".to_string(),
            }],
        })
    );
    assert_eq!(manager.get_active_preset().unwrap().id, "default");
    assert_eq!(
        screen.tables["DISPLAY1"],
        GammaRamp::from_config(&config, &gamma_curve(&config))
    );
    assert_eq!(screen.tables["DISPLAY2"], GammaRamp::default());
}

#[test]
fn a_preset_deleted_while_it_is_applied_is_not_found() {
    let mut manager = FilterManager::new(None).unwrap();
    let mut screen = displays(&["DISPLAY1"]);
    let id = manager.create_preset("Reading".to_string(), reading_config(), None).unwrap();
    let job =
        manager.apply_preset(&id, &gamma_curve(&reading_config()), names(&["DISPLAY1"])).unwrap();
    assert_eq!(manager.delete_preset(&id), Ok(()));
    assert_eq!(run(&mut manager, &mut screen, job), Err(FilterError::NotFound));
    assert_eq!(manager.get_active_preset().unwrap().id, "default");
}

#[test]
fn a_preview_leaves_the_active_preset_alone() {
    let mut manager = FilterManager::new(None).unwrap();
    let mut screen = displays(&["DISPLAY1"]);
    let config = reading_config();
    let job = manager.apply_config(&config, &gamma_curve(&config), names(&["DISPLAY1"])).unwrap();
    assert_eq!(run(&mut manager, &mut screen, job), Ok(()));
    assert_eq!(manager.get_active_preset().unwrap().id, "default");
    assert!(manager.controller().has_original("DISPLAY1"));
    assert_eq!(
        screen.tables["DISPLAY1"],
        GammaRamp::from_config(&config, &gamma_curve(&config))
    );
}

#[test]
fn a_preview_validates_config_and_devices() {
    let manager = FilterManager::new(None).unwrap();
    let bad = FilterConfig { green_scale: 100_000, ..FilterConfig::default() };
    let curve = gamma_curve(&FilterConfig::default());
    assert_eq!(
        manager.apply_config(&bad, &curve, names(&["DISPLAY1"])).err(),
        Some(FilterError::InvalidConfig {
            field: screen_filter::ConfigField::GreenScale,
            value: 100_000
        })
    );
    assert_eq!(
        manager.apply_config(&FilterConfig::default(), &curve, Vec::new()).err(),
        Some(FilterError::NoDevicesSelected)
    );
}

#[test]
fn reset_restores_the_displays_and_clears_the_active_preset() {
    let mut manager = FilterManager::new(None).unwrap();
    let mut screen = displays(&["DISPLAY1"]);
    let config = manager.get_preset("daytime").unwrap().config;
    let job =
        manager.apply_preset("daytime", &gamma_curve(&config), names(&["DISPLAY1"])).unwrap();
    assert_eq!(run(&mut manager, &mut screen, job), Ok(()));
    assert_eq!(manager.get_active_preset().unwrap().id, "daytime");
    let job = manager.reset_filter();
    assert_eq!(run(&mut manager, &mut screen, job), Ok(()));
    assert_eq!(screen.tables["DISPLAY1"], GammaRamp::default());
    assert!(manager.get_active_preset().is_none());
    assert!(!manager.controller().has_original("DISPLAY1"));
    assert_eq!(manager.get_all_presets().len(), 3);
}

#[test]
fn a_second_reset_changes_no_display() {
    let mut manager = FilterManager::new(None).unwrap();
    let mut screen = displays(&["DISPLAY1"]);
    let config = FilterConfig::default();
    let job = manager.apply_config(&config, &gamma_curve(&config), names(&["DISPLAY1"])).unwrap();
    assert_eq!(run(&mut manager, &mut screen, job), Ok(()));
    let job = manager.reset_filter();
    assert_eq!(run(&mut manager, &mut screen, job), Ok(()));
    let after_first = screen.tables.clone();
    screen.writes.clear();
    let job = manager.reset_filter();
    assert_eq!(run(&mut manager, &mut screen, job), Ok(()));
    assert!(screen.writes.is_empty());
    assert_eq!(screen.tables, after_first);
    assert!(manager.get_active_preset().is_none());
}

#[test]
fn a_failed_reset_keeps_the_active_preset() {
    let mut manager = FilterManager::new(None).unwrap();
    let mut screen = displays(&["DISPLAY1"]);
    let config = FilterConfig::default();
    let job = manager.apply_config(&config, &gamma_curve(&config), names(&["DISPLAY1"])).unwrap();
    assert_eq!(run(&mut manager, &mut screen, job), Ok(()));
    screen.unwritable.insert("DISPLAY1".to_string());
    let job = manager.reset_filter();
    assert!(run(&mut manager, &mut screen, job).is_err());
    assert_eq!(manager.get_active_preset().unwrap().id, "default");
    assert!(!manager.controller().has_original("DISPLAY1"));
}

#[test]
fn importing_an_export_changes_nothing() {
    let mut manager = FilterManager::new(None).unwrap();
    let id = manager
        .create_preset("Reading".to_string(), reading_config(), Some("F6".to_string()))
        .unwrap();
    manager.rename_preset("daytime", "Day".to_string()).unwrap();
    let before = manager.get_all_presets();
    let active = manager.get_active_preset();
    let exported = manager.export_presets();
    assert_eq!(manager.import_presets(exported), Ok(()));
    assert_eq!(manager.get_all_presets(), before);
    assert_eq!(manager.get_active_preset(), active);
    assert_eq!(manager.get_preset(&id).unwrap().config, reading_config());
}

#[test]
fn import_replaces_the_whole_catalogue() {
    let mut manager = FilterManager::new(None).unwrap();
    let id = manager.create_preset("Mine".to_string(), FilterConfig::default(), None).unwrap();
    let mut other = PresetCollection::default();
    other.set_active_preset("daytime").unwrap();
    other.delete_preset("missing").unwrap_err();
    assert_eq!(manager.import_presets(other), Ok(()));
    assert_eq!(manager.get_preset(&id), Err(FilterError::NotFound));
    assert_eq!(manager.get_all_presets().len(), 3);
    assert_eq!(manager.get_active_preset().unwrap().id, "daytime");
}

#[test]
fn an_export_is_a_copy() {
    let mut manager = FilterManager::new(None).unwrap();
    let exported = manager.export_presets();
    manager.rename_preset("default", "Changed".to_string()).unwrap();
    assert_eq!(exported.get_preset("default").unwrap().name, "默认");
    assert_eq!(exported.active_preset_id, Some("default".to_string()));
}

#[test]
fn reset_to_defaults_restores_the_three_built_in_presets() {
    let mut manager = FilterManager::new(None).unwrap();
    manager
        .create_preset("Reading".to_string(), reading_config(), Some("F6".to_string()))
        .unwrap();
    manager.update_preset("default", None, None, Some(Some("F9".to_string()))).unwrap();
    manager.rename_preset("nighttime", "Night".to_string()).unwrap();
    manager.reset_to_defaults();
    let mut all = manager.get_all_presets();
    all.sort_by(|a, b| a.id.cmp(&b.id));
    let seeded = PresetCollection::default();
    assert_eq!(all.len(), 3);
    assert_eq!(&all[0], seeded.get_preset("daytime").unwrap());
    assert_eq!(&all[1], seeded.get_preset("default").unwrap());
    assert_eq!(&all[2], seeded.get_preset("nighttime").unwrap());
    assert_eq!(all[0].hotkey, Some("F3".to_string()));
    assert_eq!(all[1].hotkey, Some("F2".to_string()));
    assert_eq!(all[2].hotkey, Some("F4".to_string()));
    assert_eq!(manager.get_active_preset().unwrap().id, "default");
}

#[test]
fn importing_a_catalogue_with_an_unknown_active_id_changes_nothing() {
    let mut manager = FilterManager::new(None).unwrap();
    let id = manager.create_preset("Mine".to_string(), reading_config(), None).unwrap();
    let before = manager.get_all_presets();
    let mut document = PresetCollection::default();
    document.active_preset_id = Some("gone".to_string());
    assert_eq!(manager.import_presets(document), Err(FilterError::InvalidCatalogue));
    assert_eq!(manager.get_all_presets(), before);
    assert_eq!(manager.get_active_preset().unwrap().id, "default");
    assert!(manager.get_preset(&id).is_ok());
}

#[test]
fn importing_a_catalogue_that_breaks_a_rule_changes_nothing() {
    let mut manager = FilterManager::new(None).unwrap();
    let before = manager.get_all_presets();

    let mut twice = PresetCollection::default();
    let mut clash = twice.get_preset("daytime").unwrap().clone();
    clash.hotkey = Some("F2".to_string());
    twice.upsert_preset(clash);
    assert_eq!(manager.import_presets(twice), Err(FilterError::InvalidCatalogue));

    let mut invalid = PresetCollection::default();
    let mut broken = invalid.get_preset("nighttime").unwrap().clone();
    broken.config.brightness = 1_000_001;
    invalid.upsert_preset(broken);
    assert_eq!(manager.import_presets(invalid), Err(FilterError::InvalidCatalogue));

    let mut misplaced = PresetCollection::default();
    let stray = misplaced.get_preset("daytime").unwrap().clone();
    misplaced.presets.insert("elsewhere".to_string(), stray);
    assert_eq!(manager.import_presets(misplaced), Err(FilterError::InvalidCatalogue));

    assert_eq!(manager.get_all_presets(), before);
    assert_eq!(manager.get_active_preset().unwrap().id, "default");
}

#[test]
fn importing_a_catalogue_without_built_in_presets_is_accepted() {
    let mut manager = FilterManager::new(None).unwrap();
    let mut document =
        PresetCollection { presets: screen_filter::StringMap::new(), active_preset_id: None };
    document.upsert_preset(screen_filter::FilterPreset::new(
        "custom_1".to_string(),
        "One".to_string(),
        reading_config(),
    ));
    document.set_active_preset("custom_1").unwrap();
    assert_eq!(manager.import_presets(document), Ok(()));
    assert_eq!(manager.get_all_presets().len(), 1);
    assert_eq!(manager.get_active_preset().unwrap().id, "custom_1");
    assert_eq!(manager.delete_preset("custom_1"), Ok(()));
    assert!(manager.get_active_preset().is_none());
}

#[test]
fn create_with_id_refuses_an_id_that_is_stored() {
    let mut manager = FilterManager::new(None).unwrap();
    assert_eq!(
        manager.create_preset_with_id(
            "default".to_string(),
            "Mine".to_string(),
            FilterConfig::default(),
            None,
        ),
        Err(FilterError::DuplicateId { preset_id: "default".to_string() })
    );
    let stored = manager.get_preset("default").unwrap();
    assert!(stored.is_default);
    assert_eq!(stored.name, "默认");
    assert_eq!(manager.delete_preset("default"), Err(FilterError::CannotDeleteDefault));
    assert_eq!(manager.get_all_presets().len(), 3);
}

#[test]
fn create_with_id_reports_config_then_id_then_hotkey() {
    let mut manager = FilterManager::new(None).unwrap();
    let bad = FilterConfig { gamma: 1, ..FilterConfig::default() };
    assert_eq!(
        manager.create_preset_with_id(
            "default".to_string(),
            "Mine".to_string(),
            bad,
            Some("F2".to_string()),
        ),
        Err(FilterError::InvalidConfig { field: screen_filter::ConfigField::Gamma, value: 1 })
    );
    assert_eq!(
        manager.create_preset_with_id(
            "default".to_string(),
            "Mine".to_string(),
            FilterConfig::default(),
            Some("F2".to_string()),
        ),
        Err(FilterError::DuplicateId { preset_id: "default".to_string() })
    );
    assert_eq!(
        manager.create_preset_with_id(
            "custom_1".to_string(),
            "Mine".to_string(),
            FilterConfig::default(),
            Some("F2".to_string()),
        ),
        Err(FilterError::Conflict { hotkey: "F2".to_string(), preset_id: "default".to_string() })
    );
}

#[test]
fn an_unused_custom_id_is_the_prefix_and_the_drawn_text() {
    let manager = FilterManager::new(None).unwrap();
    assert_eq!(manager.unused_custom_id("abc"), "custom_abc");
    assert_eq!(manager.unused_custom_id(""), "custom_");
}

#[test]
fn an_unused_custom_id_is_lengthened_past_stored_ids() {
    let mut manager = FilterManager::new(None).unwrap();
    for id in ["custom_abc", "custom_abc_", "custom_abc___"] {
        manager
            .create_preset_with_id(
                id.to_string(),
                "Taken".to_string(),
                FilterConfig::default(),
                None,
            )
            .unwrap();
    }
    assert_eq!(manager.unused_custom_id("abc"), "custom_abc__");
    assert_eq!(manager.unused_custom_id("abd"), "custom_abd");
    assert_eq!(manager.get_preset("custom_abc_").unwrap().name, "Taken");
}

#[test]
fn created_presets_never_replace_stored_ones() {
    let mut manager = FilterManager::new(None).unwrap();
    let mut ids = Vec::new();
    for i in 0..20 {
        let id = manager
            .create_preset(format!("Preset {}", i), FilterConfig::default(), None)
            .unwrap();
        assert!(!ids.contains(&id));
        ids.push(id);
        assert_eq!(manager.get_all_presets().len(), 4 + i);
    }
    for id in ["default", "daytime", "nighttime"] {
        assert!(manager.get_preset(id).unwrap().is_default);
    }
}
