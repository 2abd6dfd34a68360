use rust_pytes_serial::model::MonitoringLevel;
use rust_pytes_serial::numbers::NumberError;
use rust_pytes_serial::parsing::{
    extract_number_segment, parse_bat, parse_hex, parse_int, parse_pwr, parse_pwrsys, parse_scaled,
    parse_stat, slice_int, slice_str, ParseError,
};

const PWRSYS_SAMPLE: &str = "@
pwrsys
Power System Information
---------------------------------
 System is discharging
 Total Num                : 2
 Present Num              : 2
 Sleep Num                : 0
 System Volt              : 51234    mV
 System Curr              : 3456     mA
 System RC                : 180000   mAH
 System FCC               : 200000   mAH
 System SOC               : 90       %
 System SOH               : 100      %
 Highest voltage          : 3210     mV
 Average voltage          : 3202     mV
 Lowest voltage           : 3195     mV
 Highest temperature      : 24000    mC
 Average temperature      : 23000    mC
 Lowest temperature       : 22000    mC
 Recommend chg voltage    : 53500    mV
 Recommend dsg voltage    : 47000    mV
 Recommend chg current    : 100000   mA
 Recommend dsg current    : -100000  mA
Command completed successfully
$$
";

const PWR_SAMPLE: &str = "@
pwr 1
Power              : 1
 Voltage         : 51234      mV
 Current         : 1234       mA
 Temperature     : 23000      mC
 Coulomb         : 85         %
 Basic Status    : Dischg
 Volt Status     : Normal
 Current Status  : Normal
 Tmpr. Status    : Normal
 Coul. Status    : Normal
 Soh. Status     : Normal
 Heater Status   : Off
 Bat Events      : 0x0
 Power Events    : 0x10
 System Fault    : 0x0
Command completed successfully
$$
";

const STAT_SAMPLE: &str = "@
stat 1
Device address     : 1
Data Items         : 42
CYCLE Times     :     123
Command completed successfully
$$
";

const BAT_SAMPLE: &str = "@
bat 1
Battery  Volt     Curr     Tempr    Base State   Volt. State  Curr. State  Temp. State  SOC
0        3210     -1200    23000    Dischg       Normal       Normal       Normal       90%
1        3205     -1200    23100    Dischg       Normal       Normal       Normal       90%
2        3198     -1200    23200    Dischg       Normal       Normal       Normal       90%
Command completed successfully
$$
";

/// The blocks of a captured console session: each starts at a line beginning with `@`
/// and ends at a line holding `$$`.
fn load_blocks(content: &str) -> Vec<Vec<String>> {
    let mut blocks = Vec::new();
    let mut current: Option<Vec<String>> = None;
    for line in content.lines() {
        if line.starts_with('@') {
            if let Some(b) = current.take() {
                if !b.is_empty() {
                    blocks.push(b);
                }
            }
            current = Some(vec![line.to_string()]);
        } else if line.contains("$$") {
            if let Some(mut b) = current.take() {
                b.push(line.to_string());
                blocks.push(b);
            }
        } else if let Some(ref mut b) = current {
            b.push(line.to_string());
        }
    }
    if let Some(b) = current {
        if !b.is_empty() {
            blocks.push(b);
        }
    }
    blocks
}

fn block_without_markers(block: &[String]) -> Vec<String> {
    let mut collected = Vec::new();
    for l in block {
        if l.starts_with('@') {
            continue;
        }
        if l.contains("Command completed") {
            break;
        }
        if l.contains("$$") {
            break;
        }
        if l.trim().is_empty() {
            continue;
        }
        collected.push(l.clone());
    }
    collected
}

fn lines(v: &[&str]) -> Vec<String> {
    v.iter().map(|s| s.to_string()).collect()
}

#[test]
fn test_parse_pwrsys_from_sample() {
    let blocks = load_blocks(PWRSYS_SAMPLE);
    assert!(!blocks.is_empty(), "No blocks found in pwrsys sample");
    let lines = block_without_markers(&blocks[0]);
    let d = parse_pwrsys(&lines).expect("parse pwrsys");
    assert!(d.system_voltage > 0, "system voltage not parsed");
    assert!(d.system_soc <= 100);
}

#[test]
fn test_parse_pwr_from_sample() {
    let blocks = load_blocks(PWR_SAMPLE);
    assert!(!blocks.is_empty(), "No blocks found in pwr sample");
    let lines = block_without_markers(&blocks[0]);
    let p = parse_pwr(1, &lines).expect("parse pwr");
    assert_eq!(p.power, 1);
    assert!(p.voltage > 0, "voltage not parsed");
    assert!(p.soc <= 100);
}

#[test]
fn test_parse_stat_from_sample() {
    let blocks = load_blocks(STAT_SAMPLE);
    if blocks.is_empty() {
        return;
    }
    let lines = block_without_markers(&blocks[0]);
    let mut pwr_vec = vec![parse_pwr(1, &lines).unwrap()];
    let _ = parse_stat(1, &lines, &mut pwr_vec);
}

#[test]
fn test_parse_bat_from_sample() {
    let blocks = load_blocks(BAT_SAMPLE);
    if blocks.is_empty() {
        return;
    }
    let lines = block_without_markers(&blocks[0]);
    let level = MonitoringLevel::Medium;
    let pack = parse_bat(1, &lines, 16, &level).expect("parse bat");
    assert!(pack.cells.len() <= 16);
}

#[test]
fn pwrsys_sample_exact_values() {
    let blocks = load_blocks(PWRSYS_SAMPLE);
    let d = parse_pwrsys(&block_without_markers(&blocks[0])).unwrap();
    assert_eq!(d.banks_total, 2);
    assert_eq!(d.banks_current, 2);
    assert_eq!(d.banks_sleep, 0);
    assert_eq!(d.system_voltage, 51234);
    assert_eq!(d.system_current, 3456);
    assert_eq!(d.system_rc, 180000);
    assert_eq!(d.system_fcc, 200000);
    assert_eq!(d.system_soc, 90);
    assert_eq!(d.system_soh, 100);
    assert_eq!(d.system_highest_voltage, 3210);
    assert_eq!(d.system_average_voltage, 3202);
    assert_eq!(d.system_lowest_voltage, 3195);
    assert_eq!(d.system_highest_temp, 24000);
    assert_eq!(d.system_average_temp, 23000);
    assert_eq!(d.system_lowest_temp, 22000);
    assert_eq!(d.system_recommend_chg_volt, 53500);
    assert_eq!(d.system_recommend_dsg_volt, 47000);
    assert_eq!(d.system_recommend_chg_curr, 100000);
    // A leading minus sign is not a digit: the reading is zero.
    assert_eq!(d.system_recommend_dsg_curr, 0);
}

#[test]
fn pwr_sample_exact_values() {
    let blocks = load_blocks(PWR_SAMPLE);
    let p = parse_pwr(1, &block_without_markers(&blocks[0])).unwrap();
    assert_eq!(p.voltage, 51234);
    assert_eq!(p.current, 1234);
    assert_eq!(p.temperature, 23000);
    assert_eq!(p.soc, 85);
    assert_eq!(p.basic_st, "Dischg");
    assert_eq!(p.volt_st.as_deref(), Some("Normal"));
    assert_eq!(p.current_st.as_deref(), Some("Normal"));
    assert_eq!(p.temp_st.as_deref(), Some("Normal"));
    assert_eq!(p.coul_st.as_deref(), Some("Normal"));
    assert_eq!(p.soh_st.as_deref(), Some("Normal"));
    assert_eq!(p.heater_st.as_deref(), Some("Off"));
    assert_eq!(p.bat_events, Some(0));
    assert_eq!(p.power_events, Some(16));
    assert_eq!(p.sys_events, Some(0));
    assert_eq!(p.cycle_times, None);
}

#[test]
fn pwr_current_status_is_not_current() {
    let p = parse_pwr(2, &lines(&["Current Status : Charging now", "Current: 77 mA"])).unwrap();
    assert_eq!(p.current_st.as_deref(), Some("Charging"));
    assert_eq!(p.current, 77);
    let q = parse_pwr(2, &lines(&["Current"])).unwrap();
    assert_eq!(q.current, 0);
    assert_eq!(q.current_st, None);
}

#[test]
fn pwr_later_line_overrides_earlier() {
    let p = parse_pwr(3, &lines(&["Voltage : 100", "Voltage : 200"])).unwrap();
    assert_eq!(p.voltage, 200);
    assert_eq!(p.power, 3);
}

#[test]
fn pwr_unknown_lines_change_nothing() {
    let p = parse_pwr(4, &lines(&["Tlow : 12", "Whatever", ""])).unwrap();
    assert_eq!(p.power, 4);
    assert_eq!(p.voltage, 0);
    assert_eq!(p.basic_st, "");
    assert_eq!(p.volt_st, None);
}

#[test]
fn stat_sample_sets_cycle_count() {
    let blocks = load_blocks(STAT_SAMPLE);
    let lines = block_without_markers(&blocks[0]);
    let mut pwr_vec = vec![parse_pwr(1, &[]).unwrap(), parse_pwr(2, &[]).unwrap()];
    assert_eq!(parse_stat(1, &lines, &mut pwr_vec), Ok(()));
    assert_eq!(pwr_vec[0].cycle_times, Some(123));
    assert_eq!(pwr_vec[1].cycle_times, None);
}

#[test]
fn stat_for_missing_pack_changes_nothing() {
    let mut pwr_vec = vec![parse_pwr(1, &[]).unwrap()];
    let r = parse_stat(5, &lines(&["CYCLE Times     :     7"]), &mut pwr_vec);
    assert_eq!(r, Ok(()));
    assert_eq!(pwr_vec[0].cycle_times, None);
}

#[test]
fn stat_bad_number_is_an_error_and_keeps_earlier_count() {
    let mut pwr_vec = vec![parse_pwr(1, &[]).unwrap()];
    let r = parse_stat(
        1,
        &lines(&["CYCLE Times     :     7", "CYCLE Times     :    abc"]),
        &mut pwr_vec,
    );
    assert_eq!(r, Err(ParseError::InvalidNumber(NumberError::InvalidDigit)));
    assert_eq!(pwr_vec[0].cycle_times, Some(7));
}

#[test]
fn bat_sample_cells_and_spread() {
    let blocks = load_blocks(BAT_SAMPLE);
    // As the console hands it over: from the header line on.
    let lines = block_without_markers(&blocks[0])[1..].to_vec();
    let pack = parse_bat(1, &lines, 16, &MonitoringLevel::Medium).unwrap();
    assert_eq!(pack.power, 1);
    assert_eq!(pack.cells.len(), 3);
    assert_eq!(pack.cells[0].cell, 1);
    assert_eq!(pack.cells[2].cell, 3);
    assert_eq!(pack.cells[0].voltage, 3210);
    assert_eq!(pack.cells[1].temperature, Some(23100));
    assert_eq!(pack.cells[0].current, None);
    assert_eq!(pack.voltage_min, Some(3198));
    assert_eq!(pack.voltage_max, Some(3210));
    assert_eq!(pack.voltage_delta, Some(12));
}

#[test]
fn bat_high_level_reads_current_low_level_no_spread() {
    let blocks = load_blocks(BAT_SAMPLE);
    let lines = block_without_markers(&blocks[0])[1..].to_vec();
    let high = parse_bat(2, &lines, 16, &MonitoringLevel::High).unwrap();
    assert_eq!(high.cells[0].current, Some(-1200));
    assert_eq!(high.cells[0].power, 2);
    let low = parse_bat(2, &lines, 16, &MonitoringLevel::Low).unwrap();
    assert_eq!(low.cells[0].temperature, None);
    assert_eq!(low.voltage_min, None);
    assert_eq!(low.voltage_delta, None);
}

#[test]
fn bat_echo_line_counts_as_header() {
    // With the echoed command first, the real header is read as a cell without numbers.
    let blocks = load_blocks(BAT_SAMPLE);
    let lines = block_without_markers(&blocks[0]);
    let pack = parse_bat(1, &lines, 16, &MonitoringLevel::Medium).unwrap();
    assert_eq!(pack.cells.len(), 4);
    assert_eq!(pack.cells[0].cell, 0);
    assert_eq!(pack.cells[0].voltage, 0);
    assert_eq!(pack.voltage_min, Some(0));
}

#[test]
fn bat_too_short_is_an_error() {
    let r = parse_bat(1, &lines(&["header only"]), 16, &MonitoringLevel::Medium);
    assert!(matches!(r, Err(ParseError::NotEnoughLines)));
    assert_eq!(ParseError::NotEnoughLines.message(), "not enough lines");
}

#[test]
fn bat_skips_single_column_and_completed_lines() {
    let pack = parse_bat(
        1,
        &lines(&["header", "lonely", "5   3300", "Command completed successfully"]),
        16,
        &MonitoringLevel::Medium,
    )
    .unwrap();
    assert_eq!(pack.cells.len(), 1);
    assert_eq!(pack.cells[0].cell, 6);
    assert_eq!(pack.cells[0].voltage, 3300);
}

#[test]
fn bat_splits_only_at_wide_gaps() {
    // A single space does not separate columns: "0 3210" is one column.
    let pack = parse_bat(1, &lines(&["h", "0 3210   3300"]), 16, &MonitoringLevel::Medium).unwrap();
    assert_eq!(pack.cells.len(), 1);
    assert_eq!(pack.cells[0].cell, 0);
    assert_eq!(pack.cells[0].voltage, 3300);
}

#[test]
fn number_fields() {
    assert_eq!(parse_int("  85 %"), Ok(85));
    assert_eq!(parse_int("%90%"), Ok(90));
    assert_eq!(parse_int("none"), Ok(0));
    assert_eq!(parse_int("99999999999"), Ok(0));
    assert_eq!(parse_hex("0x1F"), Ok(31));
    assert_eq!(parse_hex("ff"), Ok(255));
    assert_eq!(parse_hex("0x0x10"), Ok(16));
    assert_eq!(parse_hex("zz"), Ok(0));
    assert_eq!(parse_scaled("51234 mV"), Ok(51234));
    assert_eq!(parse_scaled("12abc"), Ok(12));
    assert_eq!(parse_scaled("-5"), Ok(0));
    assert_eq!(parse_scaled("3000000000"), Ok(0));
    assert_eq!(parse_scaled("n/a"), Ok(0));
}

#[test]
fn column_slices() {
    let line = "CYCLE Times     :     123";
    assert_eq!(slice_str(line, 18, 27), "123");
    assert_eq!(slice_int(line, 18, 27), Ok(123));
    assert_eq!(slice_int("Short : 45%", 18, 27), Ok(45));
    assert_eq!(slice_int("no colon here", 18, 27), Err(ParseError::InvalidNumber(NumberError::Empty)));
    assert_eq!(
        slice_int("CYCLE Times     :  99999999999", 18, 30),
        Err(ParseError::InvalidNumber(NumberError::TooLarge))
    );
    assert_eq!(
        slice_int("CYCLE Times     :  9999999999x", 18, 30),
        Err(ParseError::InvalidNumber(NumberError::TooLarge))
    );
    assert_eq!(slice_int("CYCLE Times     :  12x", 18, 30), Err(ParseError::InvalidNumber(NumberError::InvalidDigit)));
    assert_eq!(extract_number_segment("a : x 42 y").as_deref(), Some("42"));
    assert_eq!(extract_number_segment("no colon 42"), None);
    assert_eq!(ParseError::InvalidNumber(NumberError::InvalidDigit).message(), "invalid digit found in string");
    assert_eq!(ParseError::InvalidNumber(NumberError::Empty).message(), "cannot parse integer from empty string");
    assert_eq!(
        ParseError::InvalidNumber(NumberError::TooLarge).message(),
        "number too large to fit in target type"
    );
}

#[test]
fn bat_three_lines_medium() {
    let lines: Vec<String> = vec![
        "Battery  Volt  Curr  Tempr".to_string(),
        "0  3000  -100  25000".to_string(),
        "1  3500  -100  26000".to_string(),
    ];
    let pack = parse_bat(1, &lines, 16, &MonitoringLevel::Medium).expect("two or more lines read");
    assert_eq!(pack.power, 1);
    let cells: Vec<(u32, i32, Option<i32>, Option<i32>)> =
        pack.cells.iter().map(|c| (c.cell, c.voltage, c.temperature, c.current)).collect();
    assert_eq!(cells, vec![(1, 3000, Some(25000), None), (2, 3500, Some(26000), None)]);
    assert_eq!(pack.voltage_min, Some(3000));
    assert_eq!(pack.voltage_max, Some(3500));
    assert_eq!(pack.voltage_delta, Some(500));
    assert_eq!(pack.temperature_min, None);
    assert_eq!(pack.temperature_max, None);
    assert_eq!(pack.temperature_delta, None);
}

#[test]
fn bat_unreadable_columns_still_read() {
    let lines: Vec<String> =
        vec!["Battery  Volt".to_string(), "x  y".to_string(), "single".to_string()];
    let pack = parse_bat(2, &lines, 16, &MonitoringLevel::Low).expect("reads");
    assert_eq!(pack.cells.len(), 1);
    assert_eq!((pack.cells[0].cell, pack.cells[0].voltage), (0, 0));
    assert_eq!(pack.voltage_min, None);
}
