use rust_pytes_serial::events::detect_events;
use rust_pytes_serial::model::{Aggregate, MonitoringLevel, PowerData, PwrsysData, Reading};

#[test]
fn monitoring_level_words() {
    assert_eq!(MonitoringLevel::from_str("low"), MonitoringLevel::Low);
    assert_eq!(MonitoringLevel::from_str("MEDIUM"), MonitoringLevel::Medium);
    assert_eq!(MonitoringLevel::from_str("High"), MonitoringLevel::High);
    assert_eq!(MonitoringLevel::from_str("none"), MonitoringLevel::Off);
    assert_eq!(MonitoringLevel::from_str("garbage"), MonitoringLevel::Off);
    assert!(MonitoringLevel::High.reads_temperature());
    assert!(!MonitoringLevel::Low.reads_temperature());
}

fn pack(power: u32, voltage: i32, current: i32, temperature: i32, soc: u32) -> PowerData {
    let mut p = PowerData::new(power);
    p.voltage = voltage;
    p.current = current;
    p.temperature = temperature;
    p.soc = soc;
    p.basic_st = format!("st{}", power);
    p
}

#[test]
fn aggregate_from_packs() {
    let pwr = vec![pack(1, 51000, 1000, 20000, 80), pack(2, 52000, 2000, 22000, 91)];
    let a = Aggregate::build_at(1_700_000_000_000, &pwr, None, &[]);
    assert_eq!(a.relay_local_time, 1_700_000_000_000);
    assert_eq!(a.powers, Some(2));
    assert_eq!(a.powers_total, None);
    assert_eq!(a.voltage, Some(Reading { total: 103000, count: 2 }));
    assert_eq!(a.current, Some(Reading { total: 3000, count: 1 }));
    assert_eq!(a.temperature, Some(Reading { total: 42000, count: 2 }));
    assert_eq!(a.soc, Some(85));
    assert_eq!(a.basic_st.as_deref(), Some("st1"));
    assert_eq!(a.system_rc, None);
}

#[test]
fn aggregate_without_packs() {
    let a = Aggregate::build_at(5, &[], None, &[]);
    assert_eq!(a.powers, Some(0));
    assert_eq!(a.voltage, None);
    assert_eq!(a.soc, None);
    assert_eq!(a.basic_st, None);
}

#[test]
fn aggregate_prefers_system_report() {
    let mut sys = PwrsysData::zeroed();
    sys.banks_current = 2;
    sys.banks_total = 3;
    sys.system_voltage = 51600;
    sys.system_soc = 90;
    sys.system_average_temp = 25000;
    let pwr = vec![pack(1, 1, 1, 1, 1)];
    let a = Aggregate::build_at(1_700_000_000_000, &pwr, Some(sys), &[]);
    assert_eq!(a.relay_local_time, 1_700_000_000_000);
    assert_eq!(a.powers, Some(2));
    assert_eq!(a.powers_total, Some(3));
    assert_eq!(a.voltage, Some(Reading { total: 51600, count: 1 }));
    assert_eq!(a.temperature, Some(Reading { total: 25000, count: 1 }));
    assert_eq!(a.average_temp, Some(25000));
    assert_eq!(a.soc, Some(90));
}

#[test]
fn events_are_counted_per_pack() {
    let mut a = PowerData::new(1);
    a.bat_events = Some(4);
    a.power_events = Some(0);
    let mut b = PowerData::new(2);
    b.bat_events = Some(1);
    b.sys_events = Some(8);
    let pwr = vec![a, b, PowerData::new(3)];
    let agg = Aggregate::build_at(0, &pwr, None, &[]);
    let e = detect_events(&pwr, &agg);
    assert_eq!(e.bat_events_no, 2);
    assert_eq!(e.pwr_events_no, 0);
    assert_eq!(e.sys_events_no, 1);
}
