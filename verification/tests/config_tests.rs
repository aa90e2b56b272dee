use spinning_rust_chiller::cli::Cli;
use spinning_rust_chiller::config::{
    validate_config, validate_hdds, validate_pwm_file, validate_temperature_ranges, Config,
    ConfigError,
};

fn empty_cli() -> Cli {
    Cli { config: None, pwm_path: None, hdds: Vec::new(), generate_config: None }
}

#[test]
fn default_config_values() {
    let config = Config::default();
    assert_eq!(config.hdds, vec!["/dev/sda".to_string()]);
    assert_eq!(config.max_speed, 255);
    assert_eq!(config.min_speed, 30);
    assert_eq!(config.temp_low, 35);
    assert_eq!(config.temp_high, 50);
    assert_eq!(config.interval, 10);
    assert_eq!(config.fan_control_path, "/sys/class/hwmon/hwmon0/pwm1");
}

#[test]
fn temperature_range_must_be_ordered() {
    assert_eq!(validate_temperature_ranges(35, 50), Ok(()));
    assert_eq!(
        validate_temperature_ranges(50, 35),
        Err(ConfigError::InvalidTemperatureRange)
    );
    assert_eq!(
        validate_temperature_ranges(40, 40),
        Err(ConfigError::InvalidTemperatureRange)
    );
}

#[test]
fn empty_hdd_list_is_rejected() {
    assert_eq!(validate_hdds(&Vec::new()), Err(ConfigError::NoHdds));
}

#[test]
fn missing_hdd_device_is_rejected() {
    let hdds = vec!["/definitely/not/a/device".to_string()];
    assert_eq!(
        validate_hdds(&hdds),
        Err(ConfigError::HddNotFound("/definitely/not/a/device".to_string()))
    );
}

#[test]
fn existing_paths_validate() {
    // the filesystem root always exists
    assert_eq!(validate_hdds(&vec!["/".to_string()]), Ok(()));
    assert_eq!(validate_pwm_file("/"), Ok(()));
    assert!(matches!(
        validate_pwm_file("/definitely/not/a/pwm/file"),
        Err(ConfigError::PwmFileNotFound(_))
    ));
}

#[test]
fn validate_config_checks_in_order() {
    let config = Config {
        hdds: Vec::new(),
        fan_control_path: "/".to_string(),
        ..Config::default()
    };
    assert_eq!(validate_config(&config), Err(ConfigError::NoHdds));

    let config = Config {
        hdds: vec!["/".to_string()],
        fan_control_path: "/".to_string(),
        temp_low: 60,
        temp_high: 40,
        ..Config::default()
    };
    assert_eq!(validate_config(&config), Err(ConfigError::InvalidTemperatureRange));

    let config = Config {
        hdds: vec!["/".to_string()],
        fan_control_path: "/".to_string(),
        ..Config::default()
    };
    assert_eq!(validate_config(&config), Ok(()));
}

#[test]
fn load_applies_cli_overrides() {
    let cli = Cli {
        config: None,
        pwm_path: Some("/".to_string()),
        hdds: vec!["/".to_string()],
        generate_config: None,
    };
    let config = Config::load(cli, None).unwrap();
    assert_eq!(config.hdds, vec!["/".to_string()]);
    assert_eq!(config.fan_control_path, "/");
    assert_eq!(config.max_speed, 255);
    assert_eq!(config.min_speed, 30);
    assert_eq!(config.temp_low, 35);
    assert_eq!(config.temp_high, 50);
    assert_eq!(config.interval, 10);
}

#[test]
fn load_keeps_file_configuration_without_overrides() {
    let file_config = Config {
        hdds: vec!["/".to_string()],
        max_speed: 200,
        min_speed: 40,
        temp_low: 30,
        temp_high: 45,
        interval: 5,
        fan_control_path: "/".to_string(),
    };
    let config = Config::load(empty_cli(), Some(file_config)).unwrap();
    assert_eq!(config.hdds, vec!["/".to_string()]);
    assert_eq!(config.max_speed, 200);
    assert_eq!(config.min_speed, 40);
    assert_eq!(config.temp_low, 30);
    assert_eq!(config.temp_high, 45);
    assert_eq!(config.interval, 5);
    assert_eq!(config.fan_control_path, "/");
}

#[test]
fn load_rejects_empty_merged_hdd_list() {
    let file_config = Config {
        hdds: Vec::new(),
        fan_control_path: "/".to_string(),
        ..Config::default()
    };
    assert_eq!(Config::load(empty_cli(), Some(file_config)), Err(ConfigError::NoHdds));
}

#[test]
fn load_rejects_disordered_thresholds() {
    let file_config = Config {
        hdds: vec!["/".to_string()],
        fan_control_path: "/".to_string(),
        temp_low: 50,
        temp_high: 35,
        ..Config::default()
    };
    assert_eq!(
        Config::load(empty_cli(), Some(file_config)),
        Err(ConfigError::InvalidTemperatureRange)
    );
}
