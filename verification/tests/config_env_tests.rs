use rust_pytes_serial::config::{AppConfig, ConfigError, Setting};
use rust_pytes_serial::numbers::NumberError;

fn vars(v: &[(&str, &str)]) -> Vec<(String, String)> {
    v.iter().map(|(a, b)| (a.to_string(), b.to_string())).collect()
}

#[test]
fn invalid_monitoring_level_falls_back() {
    let cfg = AppConfig::from_env_vars(&vars(&[("MONITORING_LEVEL", "garbage")]));
    assert_eq!(cfg.cells_monitoring.monitoring_level, "none");
}

#[test]
fn rust_log_overrides_logging_level() {
    let cfg = AppConfig::from_env_vars(&vars(&[("LOGGING_LEVEL", "error"), ("RUST_LOG", "debug")]));
    assert_eq!(cfg.logging.logging_level.as_deref(), Some("error"));
}

#[test]
fn env_defaults() {
    let cfg = AppConfig::from_env_vars(&vars(&[]));
    assert_eq!(cfg.serial.serial_port, "COM3");
    assert_eq!(cfg.serial.serial_baudrate, 115200);
    assert_eq!(cfg.serial.reading_freq, 10);
    assert_eq!(cfg.battery_info.powers, 1);
    assert_eq!(cfg.battery_info.cells, 16);
    assert_eq!(cfg.battery_info.dev_name, "pytes");
    assert_eq!(cfg.battery_info.manufacturer, "PYTES Energy Co.Ltd");
    assert_eq!(cfg.battery_info.model, "E-BOX-48100R");
    assert!(!cfg.mqtt.mqtt_active);
    assert_eq!(cfg.mqtt.mqtt_broker, "127.0.0.1");
    assert_eq!(cfg.mqtt.mqtt_port, 1883);
    assert_eq!(cfg.mqtt.mqtt_username, "");
    assert_eq!(cfg.mqtt.mqtt_password, "");
    assert!(!cfg.cells_monitoring.cells_monitoring);
    assert_eq!(cfg.cells_monitoring.monitoring_level, "none");
    assert_eq!(cfg.stat_parsing.parsing_stat_interval, 60);
    assert_eq!(cfg.logging.logging_level, None);
}

#[test]
fn env_values_and_fallbacks() {
    let cfg = AppConfig::from_env_vars(&vars(&[
        ("SERIAL_PORT", "/dev/ttyUSB0"),
        ("POWERS", "3"),
        ("CELLS", "lots"),
        ("MQTT_ACTIVE", "1"),
        ("MQTT_PORT", "70000"),
        ("CELLS_MONITORING", "TRUE"),
        ("MONITORING_LEVEL", "High"),
        ("READING_FREQ", "-3"),
    ]));
    assert_eq!(cfg.serial.serial_port, "/dev/ttyUSB0");
    assert_eq!(cfg.battery_info.powers, 3);
    assert_eq!(cfg.battery_info.cells, 16);
    assert!(cfg.mqtt.mqtt_active);
    assert_eq!(cfg.mqtt.mqtt_port, 1883);
    assert!(cfg.cells_monitoring.cells_monitoring);
    assert_eq!(cfg.cells_monitoring.monitoring_level, "high");
    assert_eq!(cfg.serial.reading_freq, -3);
}

const INI: &str = "# sample
[serial]
serial_port = /dev/ttyUSB0
serial_baudrate = 115200
reading_freq = 15

[battery_info]
powers = 2
cells = 16
dev_name = pytes
manufacturer = PYTES Energy Co.Ltd
model = E-BOX-48100R

[MQTT]
MQTT_active = True
MQTT_broker = 192.168.1.10
MQTT_port = 1883
MQTT_username = user
MQTT_password = SECRET-REDACTED

[cells_monitoring]
cells_monitoring = false
monitoring_level = medium

[stat_parsing]
; no interval: the default applies

[logging]
LOGGING_LEVEL = debug
";

#[test]
fn ini_full_reading() {
    let cfg = AppConfig::from_ini(INI).expect("config");
    assert_eq!(cfg.serial.serial_port, "/dev/ttyUSB0");
    assert_eq!(cfg.serial.serial_baudrate, 115200);
    assert_eq!(cfg.serial.reading_freq, 15);
    assert_eq!(cfg.battery_info.powers, 2);
    assert_eq!(cfg.battery_info.manufacturer, "PYTES Energy Co.Ltd");
    assert!(cfg.mqtt.mqtt_active);
    assert_eq!(cfg.mqtt.mqtt_broker, "192.168.1.10");
    assert_eq!(cfg.mqtt.mqtt_password, "SECRET-REDACTED");
    assert!(!cfg.cells_monitoring.cells_monitoring);
    assert_eq!(cfg.cells_monitoring.monitoring_level, "medium");
    assert_eq!(cfg.stat_parsing.parsing_stat_interval, 60);
    assert_eq!(cfg.logging.logging_level.as_deref(), Some("debug"));
}

#[test]
fn ini_missing_and_invalid_settings() {
    let r = AppConfig::from_ini("[serial]\nserial_baudrate = 9600\n");
    assert_eq!(r.err(), Some(ConfigError::Missing(Setting::SerialPort)));
    let r = AppConfig::from_ini("[serial]\nserial_port = x\nserial_baudrate = fast\n");
    assert_eq!(r.err(), Some(ConfigError::Invalid(Setting::SerialBaudrate, NumberError::InvalidDigit)));
    let bad_port = INI.replace("MQTT_port = 1883", "MQTT_port = 99999");
    assert_eq!(
        AppConfig::from_ini(&bad_port).err(),
        Some(ConfigError::Invalid(Setting::MqttPort, NumberError::TooLarge))
    );
    let empty_powers = INI.replace("powers = 2", "powers =");
    assert_eq!(
        AppConfig::from_ini(&empty_powers).err(),
        Some(ConfigError::Invalid(Setting::Powers, NumberError::Empty))
    );
    let low_freq = INI.replace("reading_freq = 15", "reading_freq = -99999999999999999999");
    assert_eq!(
        AppConfig::from_ini(&low_freq).err(),
        Some(ConfigError::Invalid(Setting::ReadingFreq, NumberError::TooSmall))
    );
    let no_model = INI.replace("model = E-BOX-48100R", "");
    assert_eq!(AppConfig::from_ini(&no_model).err(), Some(ConfigError::Missing(Setting::Model)));
}

#[test]
fn ini_last_assignment_wins_and_sections_matter() {
    let text = INI.replace("powers = 2", "powers = 2\npowers = 4") + "[other]\ncells = 99\n";
    let cfg = AppConfig::from_ini(&text).unwrap();
    assert_eq!(cfg.battery_info.powers, 4);
    assert_eq!(cfg.battery_info.cells, 16);
}

#[test]
fn ini_windows_line_endings() {
    let text = INI.replace('\n', "\r\n");
    let cfg = AppConfig::from_ini(&text).unwrap();
    assert_eq!(cfg.serial.serial_port, "/dev/ttyUSB0");
    assert_eq!(cfg.logging.logging_level.as_deref(), Some("debug"));
}

#[test]
fn config_error_messages_name_the_setting() {
    assert_eq!(ConfigError::Missing(Setting::MqttBroker).message(), "Missing MQTT.MQTT_broker");
    assert_eq!(
        ConfigError::Invalid(Setting::Powers, NumberError::InvalidDigit).message(),
        "invalid digit found in string"
    );
    assert_eq!(Setting::ParsingStatInterval.place(), ("stat_parsing", "parsing_stat_interval"));
}
