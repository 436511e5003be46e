use screen_filter::{FilterConfig, FilterError, FilterPreset, PresetCollection};

fn custom(id: &str, name: &str, hotkey: Option<&str>) -> FilterPreset {
    let mut preset = FilterPreset::new(id.to_string(), name.to_string(), FilterConfig::default());
    preset.hotkey = hotkey.map(|key| key.to_string());
    preset
}

#[test]
fn test_preset_collection_default() {
    let collection = PresetCollection::default();
    assert_eq!(collection.presets.len(), 3);
    assert!(collection.presets.contains_key("default"));
    assert!(collection.presets.contains_key("daytime"));
    assert!(collection.presets.contains_key("nighttime"));
}

#[test]
fn test_delete_default_preset() {
    let mut collection = PresetCollection::default();
    let result = collection.delete_preset("default");
    assert!(result.is_err());
}

#[test]
fn test_hotkey_validation() {
    let collection = PresetCollection::default();
    assert!(collection.validate_hotkey("F2", None).is_err());
    assert!(collection.validate_hotkey("F5", None).is_ok());
    assert!(collection.validate_hotkey("F2", Some("default")).is_ok());
}

#[test]
fn default_collection_holds_the_built_in_presets() {
    let collection = PresetCollection::default();
    assert_eq!(collection.active_preset_id, Some("default".to_string()));
    let default = collection.get_preset("default").unwrap();
    assert_eq!(default.id, "default");
    assert_eq!(default.name, "默认");
    assert_eq!(default.hotkey, Some("F2".to_string()));
    assert_eq!(default.config, FilterConfig::default());
    assert!(default.is_default);
    let daytime = collection.get_preset("daytime").unwrap();
    assert_eq!(daytime.name, "白天");
    assert_eq!(daytime.hotkey, Some("F3".to_string()));
    assert_eq!(
        daytime.config,
        FilterConfig {
            brightness: 50_000,
            gamma: 1_200_000,
            contrast: 50_000,
            ..FilterConfig::default()
        }
    );
    assert!(daytime.is_default);
    let nighttime = collection.get_preset("nighttime").unwrap();
    assert_eq!(nighttime.name, "夜间");
    assert_eq!(nighttime.hotkey, Some("F4".to_string()));
    assert_eq!(
        nighttime.config,
        FilterConfig {
            brightness: 300_000,
            gamma: 700_000,
            contrast: 150_000,
            ..FilterConfig::default()
        }
    );
    assert!(nighttime.is_default);
    assert!(daytime.config.validate().is_ok());
    assert!(nighttime.config.validate().is_ok());
}

#[test]
fn preset_constructors_set_the_default_flag() {
    let own = FilterPreset::new("a".to_string(), "A".to_string(), FilterConfig::default());
    assert_eq!(own.hotkey, None);
    assert!(!own.is_default);
    let built_in = FilterPreset::new_default(
        "b".to_string(),
        "B".to_string(),
        Some("F9".to_string()),
        FilterConfig::default(),
    );
    assert_eq!(built_in.hotkey, Some("F9".to_string()));
    assert!(built_in.is_default);
    assert_eq!(built_in.clone(), built_in);
}

#[test]
fn no_built_in_preset_can_be_deleted() {
    let mut collection = PresetCollection::default();
    for id in ["default", "daytime", "nighttime"] {
        assert_eq!(collection.delete_preset(id), Err(FilterError::CannotDeleteDefault));
    }
    assert_eq!(collection.presets.len(), 3);
    assert_eq!(collection.active_preset_id, Some("default".to_string()));
}

#[test]
fn deleting_an_unknown_preset_is_not_found() {
    let mut collection = PresetCollection::default();
    assert_eq!(collection.delete_preset("custom_1"), Err(FilterError::NotFound));
    assert_eq!(collection.presets.len(), 3);
}

#[test]
fn upsert_stores_under_the_id_and_replaces() {
    let mut collection = PresetCollection::default();
    collection.upsert_preset(custom("custom_1", "One", Some("F6")));
    assert_eq!(collection.presets.len(), 4);
    assert_eq!(collection.get_preset("custom_1").unwrap().name, "One");
    collection.upsert_preset(custom("custom_1", "Uno", None));
    assert_eq!(collection.presets.len(), 4);
    let stored = collection.get_preset("custom_1").unwrap();
    assert_eq!(stored.name, "Uno");
    assert_eq!(stored.hotkey, None);
    assert!(collection.get_preset("custom_2").is_none());
}

#[test]
fn deleting_the_active_preset_activates_default() {
    let mut collection = PresetCollection::default();
    collection.upsert_preset(custom("custom_1", "One", None));
    collection.upsert_preset(custom("custom_2", "Two", None));
    assert_eq!(collection.set_active_preset("custom_1"), Ok(()));
    assert_eq!(collection.get_active_preset().unwrap().id, "custom_1");
    assert_eq!(collection.delete_preset("custom_2"), Ok(()));
    assert_eq!(collection.active_preset_id, Some("custom_1".to_string()));
    assert_eq!(collection.delete_preset("custom_1"), Ok(()));
    assert_eq!(collection.active_preset_id, Some("default".to_string()));
    assert_eq!(collection.get_active_preset().unwrap().id, "default");
    assert!(collection.get_preset("custom_1").is_none());
    assert_eq!(collection.presets.len(), 3);
}

#[test]
fn set_active_needs_a_stored_preset() {
    let mut collection = PresetCollection::default();
    assert_eq!(collection.set_active_preset("missing"), Err(FilterError::NotFound));
    assert_eq!(collection.active_preset_id, Some("default".to_string()));
    assert_eq!(collection.set_active_preset("nighttime"), Ok(()));
    assert_eq!(collection.get_active_preset().unwrap().id, "nighttime");
}

#[test]
fn no_active_preset_without_an_id_or_with_an_unknown_one() {
    let mut collection = PresetCollection::default();
    collection.active_preset_id = None;
    assert!(collection.get_active_preset().is_none());
    collection.active_preset_id = Some("gone".to_string());
    assert!(collection.get_active_preset().is_none());
}

#[test]
fn hotkey_conflict_names_the_holder() {
    let collection = PresetCollection::default();
    assert_eq!(
        collection.validate_hotkey("F3", None),
        Err(FilterError::Conflict { hotkey: "F3".to_string(), preset_id: "daytime".to_string() })
    );
    assert_eq!(
        collection.validate_hotkey("F3", Some("default")),
        Err(FilterError::Conflict { hotkey: "F3".to_string(), preset_id: "daytime".to_string() })
    );
    assert_eq!(collection.validate_hotkey("F3", Some("daytime")), Ok(()));
}

#[test]
fn hotkeys_are_compared_exactly() {
    let collection = PresetCollection::default();
    assert_eq!(collection.validate_hotkey("f2", None), Ok(()));
    assert_eq!(collection.validate_hotkey("F2 ", None), Ok(()));
    assert_eq!(collection.validate_hotkey("", None), Ok(()));
}

#[test]
fn a_copy_of_a_collection_holds_the_same_presets() {
    let mut collection = PresetCollection::default();
    collection.upsert_preset(custom("custom_1", "One", Some("F6")));
    collection.set_active_preset("custom_1").unwrap();
    let copy = collection.clone();
    assert_eq!(copy.presets.len(), 4);
    assert_eq!(copy.active_preset_id, Some("custom_1".to_string()));
    for id in ["default", "daytime", "nighttime", "custom_1"] {
        assert_eq!(copy.get_preset(id), collection.get_preset(id));
    }
}

#[test]
fn deleting_the_active_preset_without_a_default_leaves_none_active() {
    let mut collection = PresetCollection {
        presets: screen_filter::StringMap::new(),
        active_preset_id: None,
    };
    collection.upsert_preset(custom("custom_1", "One", None));
    collection.upsert_preset(custom("default", "Mine", None));
    assert_eq!(collection.set_active_preset("custom_1"), Ok(()));
    assert_eq!(collection.delete_preset("default"), Ok(()));
    assert_eq!(collection.active_preset_id, Some("custom_1".to_string()));
    assert_eq!(collection.delete_preset("custom_1"), Ok(()));
    assert_eq!(collection.active_preset_id, None);
    assert!(collection.get_active_preset().is_none());
}

#[test]
fn deleting_an_active_preset_called_default_leaves_none_active() {
    let mut collection = PresetCollection {
        presets: screen_filter::StringMap::new(),
        active_preset_id: None,
    };
    collection.upsert_preset(custom("default", "Mine", None));
    assert_eq!(collection.set_active_preset("default"), Ok(()));
    assert_eq!(collection.delete_preset("default"), Ok(()));
    assert_eq!(collection.active_preset_id, None);
}

#[test]
fn the_seeded_catalogue_is_sound() {
    assert!(PresetCollection::default().is_sound());
}

#[test]
fn a_catalogue_with_an_unknown_active_id_is_not_sound() {
    let mut collection = PresetCollection::default();
    collection.active_preset_id = Some("gone".to_string());
    assert!(!collection.is_sound());
    collection.active_preset_id = None;
    assert!(collection.is_sound());
}

#[test]
fn a_catalogue_with_a_hotkey_held_twice_is_not_sound() {
    let mut collection = PresetCollection::default();
    collection.upsert_preset(custom("custom_1", "One", Some("F6")));
    assert!(collection.is_sound());
    collection.upsert_preset(custom("custom_2", "Two", Some("F6")));
    assert!(!collection.is_sound());
    collection.upsert_preset(custom("custom_2", "Two", Some("F7")));
    assert!(collection.is_sound());
    collection.upsert_preset(custom("custom_3", "Three", Some("F2")));
    assert!(!collection.is_sound());
}

#[test]
fn a_catalogue_with_an_invalid_config_is_not_sound() {
    let mut collection = PresetCollection::default();
    let mut broken = custom("custom_1", "One", None);
    broken.config.gamma = 9_000_000;
    collection.upsert_preset(broken);
    assert!(!collection.is_sound());
}

#[test]
fn a_catalogue_with_a_preset_under_another_id_is_not_sound() {
    let mut collection = PresetCollection::default();
    collection.presets.insert("custom_1".to_string(), custom("custom_2", "Two", None));
    assert!(!collection.is_sound());
    collection.presets.insert("custom_1".to_string(), custom("custom_1", "One", None));
    assert!(collection.is_sound());
}

#[test]
fn an_empty_catalogue_is_sound() {
    let collection = PresetCollection {
        presets: screen_filter::StringMap::new(),
        active_preset_id: None,
    };
    assert!(collection.is_sound());
}
