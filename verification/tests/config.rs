use sort_it_now::config::{
    parse_bool, setting_value, ApiConfig, AppConfig, BindAddress, HostSetting, OptimizerConfig,
    OptimizerSettings, UpdateConfig,
};
use sort_it_now::optimizer::PackingConfig;

#[test]
fn test_parse_bool_true_values() {
    assert_eq!(parse_bool("1", "TEST_VAR"), Some(true));
    assert_eq!(parse_bool("true", "TEST_VAR"), Some(true));
    assert_eq!(parse_bool("yes", "TEST_VAR"), Some(true));
    assert_eq!(parse_bool("y", "TEST_VAR"), Some(true));
    assert_eq!(parse_bool("on", "TEST_VAR"), Some(true));

    // Test case insensitivity
    assert_eq!(parse_bool("TRUE", "TEST_VAR"), Some(true));
    assert_eq!(parse_bool("Yes", "TEST_VAR"), Some(true));
    assert_eq!(parse_bool("ON", "TEST_VAR"), Some(true));

    // Test with whitespace
    assert_eq!(parse_bool(" true ", "TEST_VAR"), Some(true));
    assert_eq!(parse_bool("  1  ", "TEST_VAR"), Some(true));
}

#[test]
fn test_parse_bool_false_values() {
    assert_eq!(parse_bool("0", "TEST_VAR"), Some(false));
    assert_eq!(parse_bool("false", "TEST_VAR"), Some(false));
    assert_eq!(parse_bool("no", "TEST_VAR"), Some(false));
    assert_eq!(parse_bool("n", "TEST_VAR"), Some(false));
    assert_eq!(parse_bool("off", "TEST_VAR"), Some(false));

    // Test case insensitivity
    assert_eq!(parse_bool("FALSE", "TEST_VAR"), Some(false));
    assert_eq!(parse_bool("No", "TEST_VAR"), Some(false));
    assert_eq!(parse_bool("OFF", "TEST_VAR"), Some(false));

    // Test with whitespace
    assert_eq!(parse_bool(" false ", "TEST_VAR"), Some(false));
    assert_eq!(parse_bool("  0  ", "TEST_VAR"), Some(false));
}

#[test]
fn test_parse_bool_invalid_values() {
    assert_eq!(parse_bool("invalid", "TEST_VAR"), None);
    assert_eq!(parse_bool("2", "TEST_VAR"), None);
    assert_eq!(parse_bool("maybe", "TEST_VAR"), None);
    assert_eq!(parse_bool("", "TEST_VAR"), None);
    assert_eq!(parse_bool("  ", "TEST_VAR"), None);
}

#[test]
fn parse_bool_agrees_with_trim_and_lowercase_of_the_standard_library() {
    for raw in ["\u{a0}on\u{2003}", "\tYES\r\n", "tr ue", "ｏｎ", "\u{200b}on", "Y", "oFf"] {
        let expected = match raw.trim().to_ascii_lowercase().as_str() {
            "1" | "true" | "yes" | "y" | "on" => Some(true),
            "0" | "false" | "no" | "n" | "off" => Some(false),
            _ => None,
        };
        assert_eq!(parse_bool(raw, "TEST_VAR"), expected, "for {:?}", raw);
    }
}

#[test]
fn setting_value_trims_and_drops_blank_values() {
    assert_eq!(setting_value(None), None);
    assert_eq!(setting_value(Some("")), None);
    assert_eq!(setting_value(Some(" \t ")), None);
    assert_eq!(setting_value(Some("  a b  ")), Some("a b".to_string()));
}

#[test]
fn update_config_defaults_and_endpoint() {
    let config = UpdateConfig::from_env(None, Some("   "));
    assert_eq!(config.owner(), "JosunLP");
    assert_eq!(config.repo(), "sort-it-now");
    assert_eq!(
        config.latest_release_endpoint(),
        "https://api.github.com/repos/JosunLP/sort-it-now/releases/latest"
    );

    let config = UpdateConfig::from_env(Some(" someone "), Some("thing"));
    assert_eq!(config.owner(), "someone");
    assert_eq!(config.repo(), "thing");
    assert_eq!(
        config.latest_release_endpoint(),
        "https://api.github.com/repos/someone/thing/releases/latest"
    );
}

#[test]
fn api_config_chooses_port_and_host() {
    let config = ApiConfig::from_env(None, None);
    assert_eq!(config.port(), 8080);
    assert_eq!(config.display_host(), "0.0.0.0");
    assert!(config.binds_to_all_interfaces());
    assert!(config.uses_default_host());

    let config = ApiConfig::from_env(None, Some(0));
    assert_eq!(config.port(), 8080);

    let host = HostSetting { text: "127.0.0.1".to_string(), address: BindAddress::V4([127, 0, 0, 1]) };
    let config = ApiConfig::from_env(Some(host), Some(9000));
    assert_eq!(config.port(), 9000);
    assert_eq!(config.display_host(), "127.0.0.1");
    assert!(!config.binds_to_all_interfaces());
    assert!(!config.uses_default_host());

    let host = HostSetting { text: "::".to_string(), address: BindAddress::V6([0; 8]) };
    let config = ApiConfig::from_env(Some(host), None);
    assert!(config.binds_to_all_interfaces());
    assert!(!config.uses_default_host());
}

#[test]
fn optimizer_config_falls_back_to_defaults_out_of_range() {
    let settings = OptimizerSettings {
        grid_step: Some(0),
        support_ratio: Some(1_000_001),
        height_epsilon: Some(2_000),
        general_epsilon: None,
        balance_limit_ratio: Some(0),
        footprint_cluster_tolerance: Some(500_001),
        allow_item_rotation: Some(true),
    };
    let config = OptimizerConfig::from_env(&settings).packing_config();
    let default = PackingConfig::default();
    assert_eq!(config.grid_step, default.grid_step);
    assert_eq!(config.support_ratio, default.support_ratio);
    assert_eq!(config.height_epsilon, 2_000);
    assert_eq!(config.general_epsilon, default.general_epsilon);
    assert_eq!(config.balance_limit_ratio, 0);
    assert_eq!(config.footprint_cluster_tolerance, default.footprint_cluster_tolerance);
    assert!(config.allow_item_rotation);
    assert!(config.is_valid());
}

#[test]
fn request_level_allow_rotations_true_overrides_config() {
    let mut config = PackingConfig::default();
    config.allow_item_rotation = false;

    let allow_rotations_override = Some(true);
    if let Some(allow_rotations) = allow_rotations_override {
        config.allow_item_rotation = allow_rotations;
    }

    assert!(
        config.allow_item_rotation,
        "Request-level allow_rotations=true should override config setting"
    );
}

#[test]
fn request_level_allow_rotations_false_overrides_config() {
    let mut config = PackingConfig::default();
    config.allow_item_rotation = true;

    let allow_rotations_override = Some(false);
    if let Some(allow_rotations) = allow_rotations_override {
        config.allow_item_rotation = allow_rotations;
    }

    assert!(
        !config.allow_item_rotation,
        "Request-level allow_rotations=false should override config setting"
    );
}

#[test]
fn request_level_allow_rotations_none_preserves_config() {
    let mut config = PackingConfig::default();
    config.allow_item_rotation = false;

    let allow_rotations_override: Option<bool> = None;
    if let Some(allow_rotations) = allow_rotations_override {
        config.allow_item_rotation = allow_rotations;
    }

    assert!(
        !config.allow_item_rotation,
        "When allow_rotations is None, config setting should be preserved"
    );

    let mut config = PackingConfig::default();
    config.allow_item_rotation = true;

    if let Some(allow_rotations) = allow_rotations_override {
        config.allow_item_rotation = allow_rotations;
    }

    assert!(
        config.allow_item_rotation,
        "When allow_rotations is None, config setting should be preserved"
    );
}

#[test]
fn app_config_is_built_from_all_settings() {
    let settings = OptimizerSettings {
        grid_step: Some(2_500_000),
        support_ratio: None,
        height_epsilon: None,
        general_epsilon: None,
        balance_limit_ratio: None,
        footprint_cluster_tolerance: None,
        allow_item_rotation: None,
    };
    let config = AppConfig::from_env(None, Some(81), Some("me"), None, &settings);
    assert_eq!(config.api.port(), 81);
    assert_eq!(config.update.owner(), "me");
    assert_eq!(config.update.repo(), "sort-it-now");
    assert_eq!(config.optimizer.packing_config().grid_step, 2_500_000);
    assert!(!config.optimizer.packing_config().allow_item_rotation);
    let copy = config.clone();
    assert_eq!(copy.api.display_host(), "0.0.0.0");
}
