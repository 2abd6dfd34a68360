//! The bridge's settings: read from the INI text of `pytes_serial.cfg`, or from
//! environment variables with defaults.

use vstd::prelude::*;
use crate::text::{
    ascii_lower, chars_of, ends_with, index_of_char, lower_chars, starts_with, string_of,
    sub_chars, trim, trim_chars, index_of_from, lemma_index_of_from, views, same_chars, eq_str,
};
use crate::numbers::{
    int_error, number_error_text, parse_i64, parse_u16, parse_u32, parse_i64_chars, parse_u16_chars,
    parse_u32_chars, u32_error_chars, u16_error_chars, i64_error_chars, NumberError,
};

verus! {

#[derive(Debug)]
pub struct SerialCfg {
    pub serial_port: String,
    pub serial_baudrate: u32,
    pub reading_freq: i64,
}

#[derive(Debug)]
pub struct BatteryInfoCfg {
    pub powers: u32,
    pub cells: u32,
    pub dev_name: String,
    pub manufacturer: String,
    pub model: String,
}

#[derive(Debug)]
pub struct MqttCfg {
    pub mqtt_active: bool,
    pub mqtt_broker: String,
    pub mqtt_port: u16,
    pub mqtt_username: String,
    pub mqtt_password: String,
}

#[derive(Debug)]
pub struct CellsMonitoringCfg {
    pub cells_monitoring: bool,
    pub monitoring_level: String,
}

#[derive(Debug)]
pub struct StatParsingCfg {
    pub parsing_stat_interval: i64,
}

#[derive(Debug)]
pub struct LoggingCfg {
    pub logging_level: Option<String>,
}

#[derive(Debug)]
pub struct AppConfig {
    pub serial: SerialCfg,
    pub battery_info: BatteryInfoCfg,
    pub mqtt: MqttCfg,
    pub cells_monitoring: CellsMonitoringCfg,
    pub stat_parsing: StatParsingCfg,
    pub logging: LoggingCfg,
}

/// The mathematical content of an [`AppConfig`].
pub struct ConfigView {
    pub serial_port: Seq<char>,
    pub serial_baudrate: u32,
    pub reading_freq: i64,
    pub powers: u32,
    pub cells: u32,
    pub dev_name: Seq<char>,
    pub manufacturer: Seq<char>,
    pub model: Seq<char>,
    pub mqtt_active: bool,
    pub mqtt_broker: Seq<char>,
    pub mqtt_port: u16,
    pub mqtt_username: Seq<char>,
    pub mqtt_password: Seq<char>,
    pub cells_monitoring: bool,
    pub monitoring_level: Seq<char>,
    pub parsing_stat_interval: i64,
    pub logging_level: Option<Seq<char>>,
}

impl View for AppConfig {
    type V = ConfigView;

    open spec fn view(&self) -> ConfigView {
        ConfigView {
            serial_port: self.serial.serial_port@,
            serial_baudrate: self.serial.serial_baudrate,
            reading_freq: self.serial.reading_freq,
            powers: self.battery_info.powers,
            cells: self.battery_info.cells,
            dev_name: self.battery_info.dev_name@,
            manufacturer: self.battery_info.manufacturer@,
            model: self.battery_info.model@,
            mqtt_active: self.mqtt.mqtt_active,
            mqtt_broker: self.mqtt.mqtt_broker@,
            mqtt_port: self.mqtt.mqtt_port,
            mqtt_username: self.mqtt.mqtt_username@,
            mqtt_password: self.mqtt.mqtt_password@,
            cells_monitoring: self.cells_monitoring.cells_monitoring,
            monitoring_level: self.cells_monitoring.monitoring_level@,
            parsing_stat_interval: self.stat_parsing.parsing_stat_interval,
            logging_level: match self.logging.logging_level {
                Some(s) => Some(s@),
                None => None,
            },
        }
    }
}

/// A setting that the INI file must hold, or that must read as a number.
#[derive(Debug, Clone, Copy, PartialEq, Eq, Structural)]
pub enum Setting {
    SerialPort,
    SerialBaudrate,
    ReadingFreq,
    Powers,
    Cells,
    DevName,
    Manufacturer,
    Model,
    MqttBroker,
    MqttPort,
    MqttUsername,
    MqttPassword,
    ParsingStatInterval,
}

/// Why the settings could not be read.
#[derive(Debug, Clone, Copy, PartialEq, Eq, Structural)]
pub enum ConfigError {
    /// The INI text has no value for the setting.
    Missing(Setting),
    /// The setting's value does not read as a number of its type, for the reason given.
    Invalid(Setting, NumberError),
}

/// The INI section and key that hold a setting.
pub open spec fn setting_place(s: Setting) -> (Seq<char>, Seq<char>) {
    match s {
        Setting::SerialPort => ("serial"@, "serial_port"@),
        Setting::SerialBaudrate => ("serial"@, "serial_baudrate"@),
        Setting::ReadingFreq => ("serial"@, "reading_freq"@),
        Setting::Powers => ("battery_info"@, "powers"@),
        Setting::Cells => ("battery_info"@, "cells"@),
        Setting::DevName => ("battery_info"@, "dev_name"@),
        Setting::Manufacturer => ("battery_info"@, "manufacturer"@),
        Setting::Model => ("battery_info"@, "model"@),
        Setting::MqttBroker => ("MQTT"@, "MQTT_broker"@),
        Setting::MqttPort => ("MQTT"@, "MQTT_port"@),
        Setting::MqttUsername => ("MQTT"@, "MQTT_username"@),
        Setting::MqttPassword => ("MQTT"@, "MQTT_password"@),
        Setting::ParsingStatInterval => ("stat_parsing"@, "parsing_stat_interval"@),
    }
}

/// `Missing <section>.<key>`, or the text of the number's parse error.
pub open spec fn config_error_text(e: ConfigError) -> Seq<char> {
    match e {
        ConfigError::Missing(s) => "Missing "@ + setting_place(s).0 + "."@ + setting_place(s).1,
        ConfigError::Invalid(_, n) => number_error_text(n),
    }
}

impl Setting {
    /// The INI section and key that hold the setting.
    pub fn place(&self) -> (r: (&'static str, &'static str))
        ensures
            r.0@ == setting_place(*self).0,
            r.1@ == setting_place(*self).1,
    {
        match self {
            Setting::SerialPort => ("serial", "serial_port"),
            Setting::SerialBaudrate => ("serial", "serial_baudrate"),
            Setting::ReadingFreq => ("serial", "reading_freq"),
            Setting::Powers => ("battery_info", "powers"),
            Setting::Cells => ("battery_info", "cells"),
            Setting::DevName => ("battery_info", "dev_name"),
            Setting::Manufacturer => ("battery_info", "manufacturer"),
            Setting::Model => ("battery_info", "model"),
            Setting::MqttBroker => ("MQTT", "MQTT_broker"),
            Setting::MqttPort => ("MQTT", "MQTT_port"),
            Setting::MqttUsername => ("MQTT", "MQTT_username"),
            Setting::MqttPassword => ("MQTT", "MQTT_password"),
            Setting::ParsingStatInterval => ("stat_parsing", "parsing_stat_interval"),
        }
    }
}

impl ConfigError {
    /// The error as one line of text.
    pub fn message(&self) -> (s: String)
        ensures
            s@ == config_error_text(*self),
    {
        match self {
            ConfigError::Missing(setting) => {
                let (section, key) = setting.place();
                let mut t = String::from_str("Missing ");
                t.append(section);
                t.append(".");
                t.append(key);
                t
            },
            ConfigError::Invalid(_, n) => n.message(),
        }
    }
}

// ---------------------------------------------------------------------------------------
// INI text

/// State of the line split after the first `n` characters: the finished lines and the
/// line being read.
pub open spec fn line_split_fold(s: Seq<char>, n: int) -> (Seq<Seq<char>>, Seq<char>)
    decreases n,
{
    if n <= 0 {
        (seq![], seq![])
    } else {
        let (done, cur) = line_split_fold(s, n - 1);
        if s[n - 1] == '\n' {
            (done.push(cur), seq![])
        } else {
            (done, cur.push(s[n - 1]))
        }
    }
}

/// The lines of the INI text: the pieces between `\n` characters. (A `\r` before a `\n`
/// stays in its piece and trimming removes it; a last empty piece is a blank line; so the
/// lines read as those of `str::lines`.)
pub open spec fn split_lines(s: Seq<char>) -> Seq<Seq<char>> {
    let (done, cur) = line_split_fold(s, s.len() as int);
    done.push(cur)
}

/// One `key = value` assignment of the INI text, with the section it stands in.
pub struct IniEntry {
    pub section: Seq<char>,
    pub key: Seq<char>,
    pub value: Seq<char>,
}

/// The INI reading state after some lines: the current section and the assignments.
pub open spec fn ini_step(state: (Seq<char>, Seq<IniEntry>), raw: Seq<char>) -> (Seq<char>, Seq<IniEntry>) {
    let (section, entries) = state;
    let line = trim(raw);
    if line.len() == 0 || starts_with(line, seq!['#']) || starts_with(line, seq![';']) {
        state
    } else if starts_with(line, seq!['[']) && ends_with(line, seq![']']) {
        (line.subrange(1, line.len() - 1), entries)
    } else {
        let k = index_of_from(line, '=', 0);
        if k < line.len() {
            (
                section,
                entries.push(
                    IniEntry {
                        section,
                        key: trim(line.take(k)),
                        value: trim(line.skip(k + 1)),
                    },
                ),
            )
        } else {
            state
        }
    }
}

pub open spec fn ini_fold(lines: Seq<Seq<char>>, n: int) -> (Seq<char>, Seq<IniEntry>)
    decreases n,
{
    if n <= 0 {
        (seq![], seq![])
    } else {
        ini_step(ini_fold(lines, n - 1), lines[n - 1])
    }
}

/// The assignments of an INI text, in order.
pub open spec fn ini_entries(content: Seq<char>) -> Seq<IniEntry> {
    let lines = split_lines(content);
    ini_fold(lines, lines.len() as int).1
}

/// The value of the last assignment to `key` in section `section` among the first `n`.
pub open spec fn last_value(entries: Seq<IniEntry>, section: Seq<char>, key: Seq<char>, n: int) -> Option<Seq<char>>
    decreases n,
{
    if n <= 0 {
        None
    } else if entries[n - 1].section == section && entries[n - 1].key == key {
        Some(entries[n - 1].value)
    } else {
        last_value(entries, section, key, n - 1)
    }
}

/// What the INI text assigns to `section.key` (its last assignment wins).
pub open spec fn ini_get(content: Seq<char>, section: Seq<char>, key: Seq<char>) -> Option<Seq<char>> {
    let e = ini_entries(content);
    last_value(e, section, key, e.len() as int)
}


fn split_lines_chars(v: &Vec<char>) -> (r: Vec<Vec<char>>)
    ensures
        views(r@) == split_lines(v@),
{
    let mut done: Vec<Vec<char>> = Vec::new();
    let mut cur: Vec<char> = Vec::new();
    let mut i: usize = 0;
    while i < v.len()
        invariant
            i <= v.len(),
            (views(done@), cur@) == line_split_fold(v@, i as int),
        decreases v.len() - i,
    {
        let c = v[i];
        if c == '\n' {
            let ghost d0 = views(done@);
            let t = cur;
            done.push(t);
            cur = Vec::new();
            assert(views(done@) =~= d0.push(t@));
        } else {
            cur.push(c);
        }
        i = i + 1;
    }
    let ghost d0 = views(done@);
    let t = cur;
    done.push(t);
    assert(views(done@) =~= d0.push(t@));
    done
}

/// One assignment of the INI text.
pub struct Assignment {
    pub section: Vec<char>,
    pub key: Vec<char>,
    pub value: Vec<char>,
}

impl View for Assignment {
    type V = IniEntry;

    open spec fn view(&self) -> IniEntry {
        IniEntry { section: self.section@, key: self.key@, value: self.value@ }
    }
}

pub open spec fn entry_views(v: Seq<Assignment>) -> Seq<IniEntry> {
    v.map_values(|a: Assignment| a@)
}

/// The assignments of an INI text, in order.
pub fn ini_assignments(content: &str) -> (r: Vec<Assignment>)
    ensures
        entry_views(r@) == ini_entries(content@),
{
    let v = chars_of(content);
    let lines = split_lines_chars(&v);
    let ghost lv = views(lines@);
    let mut section: Vec<char> = Vec::new();
    let mut entries: Vec<Assignment> = Vec::new();
    let mut i: usize = 0;
    while i < lines.len()
        invariant
            i <= lines.len(),
            lv == views(lines@),
            lv == split_lines(v@),
            v@ == content@,
            (section@, entry_views(entries@)) == ini_fold(lv, i as int),
        decreases lines.len() - i,
    {
        assert(lv[i as int] == lines@[i as int]@);
        let line = trim_chars(&lines[i]);
        let n = line.len();
        let blank = n == 0 || line[0] == '#' || line[0] == ';';
        proof {
            if n > 0 {
                assert(line@.take(1) =~= seq![line@[0]]);
                assert(line@.skip(n - 1) =~= seq![line@[n - 1]]);
                assert(forall|c: char| starts_with(line@, seq![c]) ==> line@[0] == c) by {
                    assert forall|c: char| starts_with(line@, seq![c]) implies line@[0] == c by {
                        assert(line@.take(1)[0] == seq![c][0]);
                    }
                }
                assert(forall|c: char| ends_with(line@, seq![c]) ==> line@[n - 1] == c) by {
                    assert forall|c: char| ends_with(line@, seq![c]) implies line@[n - 1] == c by {
                        assert(line@.skip(n - 1)[0] == seq![c][0]);
                    }
                }
            }
        }
        let ghost st = ini_fold(lv, i as int);
        assert(ini_fold(lv, i + 1) == ini_step(st, lv[i as int]));
        if blank {
            assert(ini_step(st, lv[i as int]) == st);
        } else if line[0] == '[' && line[n - 1] == ']' {
            section = sub_chars(&line, 1, n - 1);
            assert(ini_step(st, lv[i as int]) == (section@, st.1));
        } else {
            let k = index_of_char(&line, '=');
            if k < n {
                let key = trim_chars(&sub_chars(&line, 0, k));
                let value = trim_chars(&sub_chars(&line, k + 1, n));
                let sec = sub_chars(&section, 0, section.len());
                assert(line@.subrange(0, k as int) =~= line@.take(k as int));
                assert(line@.subrange(k + 1, n as int) =~= line@.skip(k + 1));
                assert(sec@ =~= section@);
                let ghost e0 = entry_views(entries@);
                let a = Assignment { section: sec, key, value };
                entries.push(a);
                assert(entry_views(entries@) =~= e0.push(
                    IniEntry { section: section@, key: trim(line@.take(k as int)), value: trim(line@.skip(k + 1)) },
                ));
            }
        }
        i = i + 1;
    }
    entries
}

/// What the assignments give to `section.key`: the last such assignment's value.
pub fn lookup(entries: &Vec<Assignment>, section: &str, key: &str) -> (r: Option<Vec<char>>)
    ensures
        match r {
            Some(v) => last_value(entry_views(entries@), section@, key@, entries@.len() as int)
                == Some(v@),
            None => last_value(entry_views(entries@), section@, key@, entries@.len() as int) is None,
        },
{
    let sc = chars_of(section);
    let kc = chars_of(key);
    let ghost ev = entry_views(entries@);
    let mut n: usize = entries.len();
    while n > 0
        invariant
            n <= entries.len(),
            ev == entry_views(entries@),
            sc@ == section@,
            kc@ == key@,
            last_value(ev, section@, key@, n as int) == last_value(
                ev,
                section@,
                key@,
                entries@.len() as int,
            ),
        decreases n,
    {
        let e = &entries[n - 1];
        assert(ev[n - 1] == e@);
        if same_chars(&e.section, &sc) && same_chars(&e.key, &kc) {
            let c = sub_chars(&e.value, 0, e.value.len());
            assert(c@ =~= e.value@);
            return Some(c);
        }
        n = n - 1;
    }
    None
}


/// `v`, or `d` when there is no value.
pub open spec fn or_default(v: Option<Seq<char>>, d: Seq<char>) -> Seq<char> {
    match v {
        Some(t) => t,
        None => d,
    }
}

/// `v.eq_ignore_ascii_case("true")`.
pub open spec fn says_true(v: Seq<char>) -> bool {
    ascii_lower(v) == ascii_lower("true"@)
}

/// The settings that an INI text gives, or the first setting (in the order the file's
/// sections are read: serial, battery_info, MQTT, cells_monitoring, stat_parsing) that
/// is missing or not a number.
pub open spec fn ini_config(c: Seq<char>) -> Result<ConfigView, ConfigError> {
    let port = ini_get(c, "serial"@, "serial_port"@);
    let baud = ini_get(c, "serial"@, "serial_baudrate"@);
    let freq = or_default(ini_get(c, "serial"@, "reading_freq"@), "10"@);
    let powers = ini_get(c, "battery_info"@, "powers"@);
    let cells = ini_get(c, "battery_info"@, "cells"@);
    let dev = ini_get(c, "battery_info"@, "dev_name"@);
    let manu = ini_get(c, "battery_info"@, "manufacturer"@);
    let model = ini_get(c, "battery_info"@, "model"@);
    let active = or_default(ini_get(c, "MQTT"@, "MQTT_active"@), "false"@);
    let broker = ini_get(c, "MQTT"@, "MQTT_broker"@);
    let mport = ini_get(c, "MQTT"@, "MQTT_port"@);
    let user = ini_get(c, "MQTT"@, "MQTT_username"@);
    let pass = ini_get(c, "MQTT"@, "MQTT_password"@);
    let cm = or_default(ini_get(c, "cells_monitoring"@, "cells_monitoring"@), "false"@);
    let level = or_default(ini_get(c, "cells_monitoring"@, "monitoring_level"@), "none"@);
    let stat = or_default(ini_get(c, "stat_parsing"@, "parsing_stat_interval"@), "60"@);
    let logging = ini_get(c, "logging"@, "LOGGING_LEVEL"@);
    if port is None {
        Err(ConfigError::Missing(Setting::SerialPort))
    } else if baud is None {
        Err(ConfigError::Missing(Setting::SerialBaudrate))
    } else if parse_u32(baud->0) is None {
        Err(ConfigError::Invalid(Setting::SerialBaudrate, int_error(baud->0, 0, u32::MAX as int)))
    } else if parse_i64(freq) is None {
        Err(ConfigError::Invalid(Setting::ReadingFreq, int_error(freq, i64::MIN as int, i64::MAX as int)))
    } else if powers is None {
        Err(ConfigError::Missing(Setting::Powers))
    } else if parse_u32(powers->0) is None {
        Err(ConfigError::Invalid(Setting::Powers, int_error(powers->0, 0, u32::MAX as int)))
    } else if cells is None {
        Err(ConfigError::Missing(Setting::Cells))
    } else if parse_u32(cells->0) is None {
        Err(ConfigError::Invalid(Setting::Cells, int_error(cells->0, 0, u32::MAX as int)))
    } else if dev is None {
        Err(ConfigError::Missing(Setting::DevName))
    } else if manu is None {
        Err(ConfigError::Missing(Setting::Manufacturer))
    } else if model is None {
        Err(ConfigError::Missing(Setting::Model))
    } else if broker is None {
        Err(ConfigError::Missing(Setting::MqttBroker))
    } else if mport is None {
        Err(ConfigError::Missing(Setting::MqttPort))
    } else if parse_u16(mport->0) is None {
        Err(ConfigError::Invalid(Setting::MqttPort, int_error(mport->0, 0, u16::MAX as int)))
    } else if user is None {
        Err(ConfigError::Missing(Setting::MqttUsername))
    } else if pass is None {
        Err(ConfigError::Missing(Setting::MqttPassword))
    } else if parse_i64(stat) is None {
        Err(ConfigError::Invalid(Setting::ParsingStatInterval, int_error(stat, i64::MIN as int, i64::MAX as int)))
    } else {
        Ok(
            ConfigView {
                serial_port: port->0,
                serial_baudrate: parse_u32(baud->0)->0,
                reading_freq: parse_i64(freq)->0,
                powers: parse_u32(powers->0)->0,
                cells: parse_u32(cells->0)->0,
                dev_name: dev->0,
                manufacturer: manu->0,
                model: model->0,
                mqtt_active: says_true(active),
                mqtt_broker: broker->0,
                mqtt_port: parse_u16(mport->0)->0,
                mqtt_username: user->0,
                mqtt_password: pass->0,
                cells_monitoring: says_true(cm),
                monitoring_level: level,
                parsing_stat_interval: parse_i64(stat)->0,
                logging_level: logging,
            },
        )
    }
}

fn required(entries: &Vec<Assignment>, section: &str, key: &str, setting: Setting) -> (r: Result<Vec<char>, ConfigError>)
    ensures
        match last_value(entry_views(entries@), section@, key@, entries@.len() as int) {
            Some(v) => r matches Ok(t) && t@ == v,
            None => r == Err::<Vec<char>, ConfigError>(ConfigError::Missing(setting)),
        },
{
    match lookup(entries, section, key) {
        Some(v) => Ok(v),
        None => Err(ConfigError::Missing(setting)),
    }
}

fn optional(entries: &Vec<Assignment>, section: &str, key: &str, default: &str) -> (r: Vec<char>)
    ensures
        r@ == or_default(last_value(entry_views(entries@), section@, key@, entries@.len() as int), default@),
{
    match lookup(entries, section, key) {
        Some(v) => v,
        None => chars_of(default),
    }
}

fn is_true_word(v: &Vec<char>) -> (b: bool)
    ensures
        b == says_true(v@),
{
    let a = lower_chars(v);
    let b = lower_chars(&chars_of("true"));
    same_chars(&a, &b)
}

impl AppConfig {
    /// Reads the settings from the text of an INI file.
    pub fn from_ini(content: &str) -> (r: Result<AppConfig, ConfigError>)
        ensures
            match ini_config(content@) {
                Ok(v) => r matches Ok(cfg) && cfg@ == v,
                Err(e) => r == Err::<AppConfig, ConfigError>(e),
            },
    {
        let e = ini_assignments(content);
        let port = required(&e, "serial", "serial_port", Setting::SerialPort)?;
        let baud_text = required(&e, "serial", "serial_baudrate", Setting::SerialBaudrate)?;
        let baud = match parse_u32_chars(&baud_text) {
            Some(v) => v,
            None => return Err(ConfigError::Invalid(Setting::SerialBaudrate, u32_error_chars(&baud_text))),
        };
        let freq_text = optional(&e, "serial", "reading_freq", "10");
        let freq = match parse_i64_chars(&freq_text) {
            Some(v) => v,
            None => return Err(ConfigError::Invalid(Setting::ReadingFreq, i64_error_chars(&freq_text))),
        };
        let powers_text = required(&e, "battery_info", "powers", Setting::Powers)?;
        let powers = match parse_u32_chars(&powers_text) {
            Some(v) => v,
            None => return Err(ConfigError::Invalid(Setting::Powers, u32_error_chars(&powers_text))),
        };
        let cells_text = required(&e, "battery_info", "cells", Setting::Cells)?;
        let cells = match parse_u32_chars(&cells_text) {
            Some(v) => v,
            None => return Err(ConfigError::Invalid(Setting::Cells, u32_error_chars(&cells_text))),
        };
        let dev = required(&e, "battery_info", "dev_name", Setting::DevName)?;
        let manu = required(&e, "battery_info", "manufacturer", Setting::Manufacturer)?;
        let model = required(&e, "battery_info", "model", Setting::Model)?;
        let active = is_true_word(&optional(&e, "MQTT", "MQTT_active", "false"));
        let broker = required(&e, "MQTT", "MQTT_broker", Setting::MqttBroker)?;
        let mport_text = required(&e, "MQTT", "MQTT_port", Setting::MqttPort)?;
        let mport = match parse_u16_chars(&mport_text) {
            Some(v) => v,
            None => return Err(ConfigError::Invalid(Setting::MqttPort, u16_error_chars(&mport_text))),
        };
        let user = required(&e, "MQTT", "MQTT_username", Setting::MqttUsername)?;
        let pass = required(&e, "MQTT", "MQTT_password", Setting::MqttPassword)?;
        let cm = is_true_word(&optional(&e, "cells_monitoring", "cells_monitoring", "false"));
        let level = optional(&e, "cells_monitoring", "monitoring_level", "none");
        let stat_text = optional(&e, "stat_parsing", "parsing_stat_interval", "60");
        let stat = match parse_i64_chars(&stat_text) {
            Some(v) => v,
            None => return Err(ConfigError::Invalid(Setting::ParsingStatInterval, i64_error_chars(&stat_text))),
        };
        let logging = match lookup(&e, "logging", "LOGGING_LEVEL") {
            Some(v) => Some(string_of(&v)),
            None => None,
        };
        Ok(
            AppConfig {
                serial: SerialCfg {
                    serial_port: string_of(&port),
                    serial_baudrate: baud,
                    reading_freq: freq,
                },
                battery_info: BatteryInfoCfg {
                    powers,
                    cells,
                    dev_name: string_of(&dev),
                    manufacturer: string_of(&manu),
                    model: string_of(&model),
                },
                mqtt: MqttCfg {
                    mqtt_active: active,
                    mqtt_broker: string_of(&broker),
                    mqtt_port: mport,
                    mqtt_username: string_of(&user),
                    mqtt_password: string_of(&pass),
                },
                cells_monitoring: CellsMonitoringCfg {
                    cells_monitoring: cm,
                    monitoring_level: string_of(&level),
                },
                stat_parsing: StatParsingCfg { parsing_stat_interval: stat },
                logging: LoggingCfg { logging_level: logging },
            },
        )
    }
}


// ---------------------------------------------------------------------------------------
// Environment variables

/// The names and values of environment variables.
pub open spec fn env_view(vars: Seq<(String, String)>) -> Seq<(Seq<char>, Seq<char>)> {
    vars.map_values(|p: (String, String)| (p.0@, p.1@))
}

/// The value of the first variable called `name`, looking from index `i`.
pub open spec fn env_get_from(vars: Seq<(Seq<char>, Seq<char>)>, name: Seq<char>, i: int) -> Option<Seq<char>>
    decreases vars.len() - i,
{
    if 0 <= i < vars.len() {
        if vars[i].0 == name {
            Some(vars[i].1)
        } else {
            env_get_from(vars, name, i + 1)
        }
    } else {
        None
    }
}

pub open spec fn env_get(vars: Seq<(Seq<char>, Seq<char>)>, name: Seq<char>) -> Option<Seq<char>> {
    env_get_from(vars, name, 0)
}

pub open spec fn env_text(v: Option<Seq<char>>, d: Seq<char>) -> Seq<char> {
    or_default(v, d)
}

/// A number setting: the variable's value when it reads as a `u32`, else the default.
pub open spec fn env_u32(v: Option<Seq<char>>, d: u32) -> u32 {
    match v {
        Some(t) => match parse_u32(t) {
            Some(n) => n,
            None => d,
        },
        None => d,
    }
}

pub open spec fn env_u16(v: Option<Seq<char>>, d: u16) -> u16 {
    match v {
        Some(t) => match parse_u16(t) {
            Some(n) => n,
            None => d,
        },
        None => d,
    }
}

pub open spec fn env_i64(v: Option<Seq<char>>, d: i64) -> i64 {
    match v {
        Some(t) => match parse_i64(t) {
            Some(n) => n,
            None => d,
        },
        None => d,
    }
}

/// A switch: on for `true` (any case) or `1`, off otherwise and when unset.
pub open spec fn env_flag(v: Option<Seq<char>>) -> bool {
    match v {
        Some(t) => says_true(t) || t == "1"@,
        None => false,
    }
}

/// The monitoring level word in lower case when it names a level, else `none`.
pub open spec fn env_level(v: Option<Seq<char>>) -> Seq<char> {
    match v {
        Some(t) => {
            let l = ascii_lower(t);
            if l == "none"@ || l == "low"@ || l == "medium"@ || l == "high"@ {
                l
            } else {
                "none"@
            }
        },
        None => "none"@,
    }
}

/// The settings that the environment gives, each unset or unreadable one at its default.
pub open spec fn env_config(vars: Seq<(Seq<char>, Seq<char>)>) -> ConfigView {
    ConfigView {
        serial_port: env_text(env_get(vars, "SERIAL_PORT"@), "COM3"@),
        serial_baudrate: env_u32(env_get(vars, "SERIAL_BAUDRATE"@), 115200),
        reading_freq: env_i64(env_get(vars, "READING_FREQ"@), 10),
        powers: env_u32(env_get(vars, "POWERS"@), 1),
        cells: env_u32(env_get(vars, "CELLS"@), 16),
        dev_name: env_text(env_get(vars, "DEV_NAME"@), "pytes"@),
        manufacturer: env_text(env_get(vars, "MANUFACTURER"@), "PYTES Energy Co.Ltd"@),
        model: env_text(env_get(vars, "MODEL"@), "E-BOX-48100R"@),
        mqtt_active: env_flag(env_get(vars, "MQTT_ACTIVE"@)),
        mqtt_broker: env_text(env_get(vars, "MQTT_BROKER"@), "127.0.0.1"@),
        mqtt_port: env_u16(env_get(vars, "MQTT_PORT"@), 1883),
        mqtt_username: env_text(env_get(vars, "MQTT_USERNAME"@), ""@),
        mqtt_password: env_text(env_get(vars, "MQTT_PASSWORD"@), ""@),
        cells_monitoring: env_flag(env_get(vars, "CELLS_MONITORING"@)),
        monitoring_level: env_level(env_get(vars, "MONITORING_LEVEL"@)),
        parsing_stat_interval: env_i64(env_get(vars, "PARSING_STAT_INTERVAL"@), 60),
        logging_level: env_get(vars, "LOGGING_LEVEL"@),
    }
}

fn env_lookup(vars: &Vec<(String, String)>, name: &str) -> (r: Option<Vec<char>>)
    ensures
        match r {
            Some(v) => env_get(env_view(vars@), name@) == Some(v@),
            None => env_get(env_view(vars@), name@) is None,
        },
{
    let ghost ev = env_view(vars@);
    let nc = chars_of(name);
    let mut i: usize = 0;
    while i < vars.len()
        invariant
            i <= vars.len(),
            ev == env_view(vars@),
            nc@ == name@,
            env_get_from(ev, name@, i as int) == env_get(ev, name@),
        decreases vars.len() - i,
    {
        let k = chars_of(vars[i].0.as_str());
        assert(ev[i as int] == (vars@[i as int].0@, vars@[i as int].1@));
        if same_chars(&k, &nc) {
            return Some(chars_of(vars[i].1.as_str()));
        }
        i = i + 1;
    }
    None
}

fn env_string(vars: &Vec<(String, String)>, name: &str, default: &str) -> (s: String)
    ensures
        s@ == env_text(env_get(env_view(vars@), name@), default@),
{
    match env_lookup(vars, name) {
        Some(v) => string_of(&v),
        None => String::from_str(default),
    }
}

fn env_number_u32(vars: &Vec<(String, String)>, name: &str, default: u32) -> (n: u32)
    ensures
        n == env_u32(env_get(env_view(vars@), name@), default),
{
    match env_lookup(vars, name) {
        Some(v) => match parse_u32_chars(&v) {
            Some(n) => n,
            None => default,
        },
        None => default,
    }
}

fn env_number_u16(vars: &Vec<(String, String)>, name: &str, default: u16) -> (n: u16)
    ensures
        n == env_u16(env_get(env_view(vars@), name@), default),
{
    match env_lookup(vars, name) {
        Some(v) => match parse_u16_chars(&v) {
            Some(n) => n,
            None => default,
        },
        None => default,
    }
}

fn env_number_i64(vars: &Vec<(String, String)>, name: &str, default: i64) -> (n: i64)
    ensures
        n == env_i64(env_get(env_view(vars@), name@), default),
{
    match env_lookup(vars, name) {
        Some(v) => match parse_i64_chars(&v) {
            Some(n) => n,
            None => default,
        },
        None => default,
    }
}

fn env_switch(vars: &Vec<(String, String)>, name: &str) -> (b: bool)
    ensures
        b == env_flag(env_get(env_view(vars@), name@)),
{
    match env_lookup(vars, name) {
        Some(v) => is_true_word(&v) || eq_str(&v, "1"),
        None => false,
    }
}

fn env_level_word(vars: &Vec<(String, String)>) -> (s: String)
    ensures
        s@ == env_level(env_get(env_view(vars@), "MONITORING_LEVEL"@)),
{
    match env_lookup(vars, "MONITORING_LEVEL") {
        Some(v) => {
            let l = lower_chars(&v);
            if eq_str(&l, "none") || eq_str(&l, "low") || eq_str(&l, "medium") || eq_str(&l, "high") {
                string_of(&l)
            } else {
                String::from_str("none")
            }
        },
        None => String::from_str("none"),
    }
}

impl AppConfig {
    /// Reads the settings from environment variables, given as name and value pairs
    /// (the first pair with a name counts). Unset or unreadable settings take their defaults.
    pub fn from_env_vars(vars: &Vec<(String, String)>) -> (cfg: AppConfig)
        ensures
            cfg@ == env_config(env_view(vars@)),
    {
        AppConfig {
            serial: SerialCfg {
                serial_port: env_string(vars, "SERIAL_PORT", "COM3"),
                serial_baudrate: env_number_u32(vars, "SERIAL_BAUDRATE", 115200),
                reading_freq: env_number_i64(vars, "READING_FREQ", 10),
            },
            battery_info: BatteryInfoCfg {
                powers: env_number_u32(vars, "POWERS", 1),
                cells: env_number_u32(vars, "CELLS", 16),
                dev_name: env_string(vars, "DEV_NAME", "pytes"),
                manufacturer: env_string(vars, "MANUFACTURER", "PYTES Energy Co.Ltd"),
                model: env_string(vars, "MODEL", "E-BOX-48100R"),
            },
            mqtt: MqttCfg {
                mqtt_active: env_switch(vars, "MQTT_ACTIVE"),
                mqtt_broker: env_string(vars, "MQTT_BROKER", "127.0.0.1"),
                mqtt_port: env_number_u16(vars, "MQTT_PORT", 1883),
                mqtt_username: env_string(vars, "MQTT_USERNAME", ""),
                mqtt_password: env_string(vars, "MQTT_PASSWORD", ""),
            },
            cells_monitoring: CellsMonitoringCfg {
                cells_monitoring: env_switch(vars, "CELLS_MONITORING"),
                monitoring_level: env_level_word(vars),
            },
            stat_parsing: StatParsingCfg {
                parsing_stat_interval: env_number_i64(vars, "PARSING_STAT_INTERVAL", 60),
            },
            logging: LoggingCfg {
                logging_level: match env_lookup(vars, "LOGGING_LEVEL") {
                    Some(v) => Some(string_of(&v)),
                    None => None,
                },
            },
        }
    }
}


/// The monitoring level read from the environment is always one of the four level words,
/// and a word that names no level gives `none`.
pub proof fn law_env_level_is_a_level(v: Option<Seq<char>>)
    ensures
        ({
            let l = env_level(v);
            l == "none"@ || l == "low"@ || l == "medium"@ || l == "high"@
        }),
        v matches Some(t) && !(ascii_lower(t) == "none"@ || ascii_lower(t) == "low"@ || ascii_lower(t)
            == "medium"@ || ascii_lower(t) == "high"@) ==> env_level(v) == "none"@,
{
}

/// An unset variable leaves its setting at the default.
pub proof fn law_env_defaults(vars: Seq<(Seq<char>, Seq<char>)>)
    requires
        forall|i: int| 0 <= i < vars.len() ==> (#[trigger] vars[i]).0 != "POWERS"@,
    ensures
        env_config(vars).powers == 1,
{
    assert(env_get_from(vars, "POWERS"@, 0) is None) by {
        lemma_env_absent(vars, "POWERS"@, 0);
    }
}

/// With no variable set, every setting has the default that the README lists.
pub proof fn law_env_readme_defaults()
    ensures
        env_config(Seq::empty()).serial_port == "COM3"@,
        env_config(Seq::empty()).serial_baudrate == 115200,
        env_config(Seq::empty()).reading_freq == 10,
        env_config(Seq::empty()).powers == 1,
        env_config(Seq::empty()).cells == 16,
        env_config(Seq::empty()).dev_name == "pytes"@,
        env_config(Seq::empty()).manufacturer == "PYTES Energy Co.Ltd"@,
        env_config(Seq::empty()).model == "E-BOX-48100R"@,
        !env_config(Seq::empty()).mqtt_active,
        env_config(Seq::empty()).mqtt_broker == "127.0.0.1"@,
        env_config(Seq::empty()).mqtt_port == 1883,
        env_config(Seq::empty()).mqtt_username == ""@,
        env_config(Seq::empty()).mqtt_password == ""@,
        !env_config(Seq::empty()).cells_monitoring,
        env_config(Seq::empty()).monitoring_level == "none"@,
        env_config(Seq::empty()).parsing_stat_interval == 60,
        env_config(Seq::empty()).logging_level is None,
{
}

/// A variable that is set gives its setting its value: texts as they are, numbers when
/// they read as the setting's type (the default otherwise), switches on for `true` in any
/// case or `1` and off for anything else.
pub proof fn law_env_values(vars: Seq<(Seq<char>, Seq<char>)>)
    ensures
        forall|t: Seq<char>| env_get(vars, "SERIAL_PORT"@) == Some(t) ==> env_config(vars).serial_port == t,
        forall|t: Seq<char>| env_get(vars, "DEV_NAME"@) == Some(t) ==> env_config(vars).dev_name == t,
        forall|t: Seq<char>| env_get(vars, "MANUFACTURER"@) == Some(t) ==> env_config(vars).manufacturer == t,
        forall|t: Seq<char>| env_get(vars, "MODEL"@) == Some(t) ==> env_config(vars).model == t,
        forall|t: Seq<char>| env_get(vars, "MQTT_BROKER"@) == Some(t) ==> env_config(vars).mqtt_broker == t,
        forall|t: Seq<char>| env_get(vars, "MQTT_USERNAME"@) == Some(t) ==> env_config(vars).mqtt_username == t,
        forall|t: Seq<char>| env_get(vars, "MQTT_PASSWORD"@) == Some(t) ==> env_config(vars).mqtt_password == t,
        env_config(vars).logging_level == env_get(vars, "LOGGING_LEVEL"@),
        forall|t: Seq<char>, n: u32|
            env_get(vars, "SERIAL_BAUDRATE"@) == Some(t) && parse_u32(t) == Some(n) ==> env_config(vars).serial_baudrate == n,
        forall|t: Seq<char>|
            env_get(vars, "SERIAL_BAUDRATE"@) == Some(t) && parse_u32(t) is None ==> env_config(vars).serial_baudrate == 115200,
        forall|t: Seq<char>, n: u32|
            env_get(vars, "POWERS"@) == Some(t) && parse_u32(t) == Some(n) ==> env_config(vars).powers == n,
        forall|t: Seq<char>| env_get(vars, "POWERS"@) == Some(t) && parse_u32(t) is None ==> env_config(vars).powers == 1,
        forall|t: Seq<char>, n: u32|
            env_get(vars, "CELLS"@) == Some(t) && parse_u32(t) == Some(n) ==> env_config(vars).cells == n,
        forall|t: Seq<char>| env_get(vars, "CELLS"@) == Some(t) && parse_u32(t) is None ==> env_config(vars).cells == 16,
        forall|t: Seq<char>, n: u16|
            env_get(vars, "MQTT_PORT"@) == Some(t) && parse_u16(t) == Some(n) ==> env_config(vars).mqtt_port == n,
        forall|t: Seq<char>| env_get(vars, "MQTT_PORT"@) == Some(t) && parse_u16(t) is None ==> env_config(vars).mqtt_port == 1883,
        forall|t: Seq<char>, n: i64|
            env_get(vars, "READING_FREQ"@) == Some(t) && parse_i64(t) == Some(n) ==> env_config(vars).reading_freq == n,
        forall|t: Seq<char>| env_get(vars, "READING_FREQ"@) == Some(t) && parse_i64(t) is None ==> env_config(vars).reading_freq == 10,
        forall|t: Seq<char>, n: i64|
            env_get(vars, "PARSING_STAT_INTERVAL"@) == Some(t) && parse_i64(t) == Some(n) ==> env_config(vars).parsing_stat_interval == n,
        forall|t: Seq<char>|
            env_get(vars, "PARSING_STAT_INTERVAL"@) == Some(t) && parse_i64(t) is None ==> env_config(vars).parsing_stat_interval == 60,
        forall|t: Seq<char>|
            env_get(vars, "MQTT_ACTIVE"@) == Some(t) ==> env_config(vars).mqtt_active == (ascii_lower(t) == "true"@ || t == "1"@),
        forall|t: Seq<char>|
            env_get(vars, "CELLS_MONITORING"@) == Some(t) ==> env_config(vars).cells_monitoring == (ascii_lower(t) == "true"@ || t == "1"@),
{
    reveal_strlit("true");
    assert(ascii_lower("true"@) =~= "true"@);
}

/// How each INI line is read: blank lines and lines starting with `#` or `;` change
/// nothing; `[name]` makes `name` the current section; a line with `=` (and not a header)
/// adds an assignment in the current section of the trimmed text before the first `=` to
/// the trimmed text after it; any other line changes nothing.
pub proof fn law_ini_lines(section: Seq<char>, entries: Seq<IniEntry>, raw: Seq<char>, name: Seq<char>)
    ensures
        trim(raw).len() == 0 ==> ini_step((section, entries), raw) == (section, entries),
        trim(raw).len() > 0 && trim(raw)[0] == '#' ==> ini_step((section, entries), raw) == (section, entries),
        trim(raw).len() > 0 && trim(raw)[0] == ';' ==> ini_step((section, entries), raw) == (section, entries),
        trim(raw) == seq!['['] + name + seq![']'] ==> ini_step((section, entries), raw) == (name, entries),
        ({
            let line = trim(raw);
            let k = index_of_from(line, '=', 0);
            line.len() > 0 && line[0] != '#' && line[0] != ';' && !(line[0] == '[' && line[line.len() - 1] == ']') && k < line.len()
                ==> ini_step((section, entries), raw) == (
                section,
                entries.push(IniEntry { section, key: trim(line.take(k)), value: trim(line.skip(k + 1)) }),
            )
        }),
        ({
            let line = trim(raw);
            line.len() > 0 && line[0] != '[' && index_of_from(line, '=', 0) >= line.len()
                ==> ini_step((section, entries), raw).1 == entries
        }),
{
    let line = trim(raw);
    if line.len() > 0 {
        assert(starts_with(line, seq![line[0]]) ) by {
            assert(line.take(1) =~= seq![line[0]]);
        }
        assert(line[0] == '#' ==> starts_with(line, seq!['#']));
        assert(line[0] == ';' ==> starts_with(line, seq![';']));
        assert(starts_with(line, seq!['#']) ==> line.take(1)[0] == '#');
        assert(starts_with(line, seq![';']) ==> line.take(1)[0] == ';');
        assert(starts_with(line, seq!['[']) ==> line.take(1)[0] == '[');
        assert(ends_with(line, seq![']']) ==> line.skip(line.len() - 1)[0] == ']');
        assert(line[line.len() - 1] == ']' ==> line.skip(line.len() - 1) =~= seq![']']);
        assert(line[0] == '[' ==> line.take(1) =~= seq!['[']);
    }
    if line == seq!['['] + name + seq![']'] {
        assert(line[0] == '[');
        assert(line[line.len() - 1] == ']');
        assert(line.take(1) =~= seq!['[']);
        assert(line.skip(line.len() - 1) =~= seq![']']);
        assert(line.subrange(1, line.len() - 1) =~= name);
    }
}

proof fn lemma_env_absent(vars: Seq<(Seq<char>, Seq<char>)>, name: Seq<char>, i: int)
    requires
        0 <= i,
        forall|j: int| 0 <= j < vars.len() ==> (#[trigger] vars[j]).0 != name,
    ensures
        env_get_from(vars, name, i) is None,
    decreases vars.len() - i,
{
    if i < vars.len() {
        lemma_env_absent(vars, name, i + 1);
    }
}

/// In the INI text, a later assignment to the same key of the same section replaces an
/// earlier one.
pub proof fn law_ini_last_assignment_wins(entries: Seq<IniEntry>, e: IniEntry)
    ensures
        last_value(entries.push(e), e.section, e.key, entries.len() + 1 as int) == Some(e.value),
{
    assert(entries.push(e)[entries.len() as int] == e);
}

} // verus!
