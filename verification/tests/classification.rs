use exr_meta::config::{create_default_config, determine_channel_group, matches_pattern};
use exr_meta::patterns::{
    determine_channel_group_ultra_fast, matches_pattern_simd, matches_prefix_simd,
    matches_suffix_simd,
};

#[test]
fn test_simd_pattern_matching() {
    assert!(matches_pattern_simd("LightMix", "Light*"));
    assert!(matches_pattern_simd("Background", "Back*"));
    assert!(matches_pattern_simd("test", "*"));
    assert!(!matches_pattern_simd("test", "other*"));
}

#[test]
fn test_channel_group_classification() {
    assert_eq!(determine_channel_group_ultra_fast("R"), "base");
    assert_eq!(determine_channel_group_ultra_fast("Beauty.red"), "base");
    assert_eq!(determine_channel_group_ultra_fast("LightMix.blue"), "light");
    assert_eq!(determine_channel_group_ultra_fast("Background.red"), "scene");
    assert_eq!(determine_channel_group_ultra_fast("ID0.red"), "scene_objects");
    assert_eq!(determine_channel_group_ultra_fast("_walls.blue"), "scene_objects");
}

#[test]
fn pattern_matcher_covers_all_four_shapes() {
    assert!(matches_pattern("x", "*"));
    assert!(matches_pattern("LightMix", "Light*"));
    assert!(matches_pattern("Sky", "*ky"));
    assert!(!matches_pattern("x", "y"));
    assert!(matches_pattern("exact", "exact"));
    assert!(!matches_pattern("exactly", "exact"));
    assert!(matches_pattern("", ""));
    assert!(!matches_pattern("a", ""));
}

#[test]
fn prefix_and_suffix_matching() {
    assert!(matches_prefix_simd("LightMix", "Light"));
    assert!(matches_prefix_simd("LightMix", ""));
    assert!(!matches_prefix_simd("Light", "LightMix"));
    assert!(matches_suffix_simd("LightMix", "Mix"));
    assert!(matches_suffix_simd("LightMix", ""));
    assert!(!matches_suffix_simd("Mix", "LightMix"));
}

#[test]
fn configured_classification_uses_display_names() {
    let config = create_default_config();
    assert_eq!(determine_channel_group("R", &config), "Base");
    assert_eq!(determine_channel_group("G", &config), "Base");
    assert_eq!(determine_channel_group("B", &config), "Base");
    assert_eq!(determine_channel_group("A", &config), "Base");
    assert_eq!(determine_channel_group("LightMix.blue", &config), "Light");
    assert_eq!(determine_channel_group("Background.red", &config), "Scene");
    assert_eq!(determine_channel_group("ID0.red", &config), "Scene Objects");
    assert_eq!(determine_channel_group("_walls.blue", &config), "Scene Objects");
    assert_eq!(determine_channel_group("RenderStamp.x", &config), "Technical");
    assert_eq!(determine_channel_group("Cryptomatte0.a", &config), "Cryptomatte");
    assert_eq!(determine_channel_group("SomethingNew.z", &config), "Scene Objects");
}

#[test]
fn priority_order_decides_between_overlapping_groups() {
    let mut config = create_default_config();
    // Let the cryptomatte group also claim light names by pattern; it
    // precedes light in the priority order, so it wins.
    for (key, group) in config.groups.iter_mut() {
        if key == "cryptomatte" {
            group.patterns.push("Light*".to_string());
        }
    }
    assert_eq!(determine_channel_group("LightMix.blue", &config), "Cryptomatte");
    // Without the overlap the same name goes to light.
    assert_eq!(
        determine_channel_group("LightMix.blue", &create_default_config()),
        "Light"
    );
}

#[test]
fn missing_basic_rgb_flag_falls_back_to_configured_label() {
    let mut config = create_default_config();
    for (_, group) in config.groups.iter_mut() {
        group.basic_rgb = false;
    }
    assert_eq!(determine_channel_group("R", &config), "Basic RGB");
}

#[test]
fn missing_scene_objects_group_falls_back_to_default_label() {
    let mut config = create_default_config();
    config.groups.retain(|(key, _)| key != "scene_objects");
    assert_eq!(determine_channel_group("Unmatched.z", &config), "Other");
}

#[test]
fn default_config_holds_the_six_groups_in_order() {
    let config = create_default_config();
    let keys: Vec<&str> = config.groups.iter().map(|(k, _)| k.as_str()).collect();
    assert_eq!(
        keys,
        vec!["base", "scene", "technical", "light", "cryptomatte", "scene_objects"]
    );
    assert_eq!(
        config.config.group_priority_order,
        vec!["cryptomatte", "light", "scene", "technical", "scene_objects"]
    );
    assert_eq!(config.config.basic_rgb_channels, vec!["R", "G", "B", "A"]);
    assert_eq!(config.config.fallback_names.basic_rgb, "Basic RGB");
    assert_eq!(config.config.fallback_names.default_label, "Other");
    assert_eq!(config.config.paths.data_folder, "data");
    assert_eq!(config.default_group, "Other");
    let base = &config.groups[0].1;
    assert!(base.basic_rgb);
    assert_eq!(base.name, "Base");
    assert_eq!(base.prefixes, vec!["Beauty"]);
    assert!(base.patterns.is_empty());
}

#[test]
fn fast_and_configured_tiers_agree_on_group_keys() {
    let config = create_default_config();
    // `Beauty.*` is absent: the fast tier's table sends it to base, while
    // the configured tier's priority order holds no base group, so the two
    // tiers deliberately differ there.
    let cases = [
        "R",
        "LightMix.blue",
        "Background.red",
        "ID0.red",
        "_walls.blue",
        "Sky.x",
        "Cryptomatte.r",
        "RenderStamp0.g",
    ];
    for name in cases {
        let key = determine_channel_group_ultra_fast(name);
        let display = determine_channel_group(name, &config);
        let expected = match key {
            "base" => "Base",
            "scene" => "Scene",
            "technical" => "Technical",
            "light" => "Light",
            "cryptomatte" => "Cryptomatte",
            _ => "Scene Objects",
        };
        assert_eq!(display, expected);
    }
}
