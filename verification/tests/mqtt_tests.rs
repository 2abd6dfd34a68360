use rust_pytes_serial::events::EventsSummary;
use rust_pytes_serial::model::{Aggregate, CellData, CellPack, MonitoringLevel, PowerData, Reading};
use rust_pytes_serial::mqtt::{
    availability_topic, cell_topic_for, discovery_sensors, pack_topic_for_power, runtime_messages,
    state_topic, Figure, PublishCache, PublishRound,
};
use rust_pytes_serial::schedule::{
    command_for, on_reconnect, poll_commands, reading_period_secs, stat_due, Request,
};

#[test]
fn topics() {
    assert_eq!(availability_topic("pytes"), "pytes_serial/pytes/availability");
    assert_eq!(state_topic("pytes", "soc"), "pytes_serial/pytes/soc");
    assert_eq!(pack_topic_for_power("pytes", 1, "voltage"), "pytes_serial/pytes/0/voltage");
    assert_eq!(pack_topic_for_power("pytes", 12, "current"), "pytes_serial/pytes/11/current");
    assert_eq!(cell_topic_for("pytes", 2, 10, "temperature"), "pytes_serial/pytes/1/cells/9/temperature");
}

#[test]
fn discovery_without_cells() {
    let s = discovery_sensors("pytes", 2, 16, false, MonitoringLevel::High);
    assert_eq!(s.len(), 13 + 4 * 2);
    assert_eq!(s[0].uniq_id, "pytes_current");
    assert_eq!(s[0].topic, "homeassistant/sensor/pytes/pytes_current_config/config");
    assert_eq!(s[0].state_topic, "pytes_serial/pytes/current");
    assert_eq!(s[0].unit, "A");
    assert_eq!(s[3].unit, "°C");
    assert_eq!(s[4].name, "Remaining Capacity");
    assert_eq!(s[13].uniq_id, "pytes_voltage_1");
    assert_eq!(s[13].name, "Voltage_1");
    assert_eq!(s[13].state_topic, "pytes_serial/pytes/0/voltage");
    assert_eq!(s[20].uniq_id, "pytes_soc_2");
    assert_eq!(s[20].device_class, "battery");
}

#[test]
fn discovery_with_cells() {
    let s = discovery_sensors("pytes", 1, 10, true, MonitoringLevel::Medium);
    assert_eq!(s.len(), 13 + 4 + 10 * 2);
    assert_eq!(s[17].uniq_id, "pytes_voltage_1_1");
    assert_eq!(s[17].name, "Voltage_101");
    assert_eq!(s[17].state_topic, "pytes_serial/pytes/0/cells/0/voltage");
    assert_eq!(s[18].name, "Temperature_101");
    assert_eq!(s[36].name, "Temperature_110");
    assert_eq!(s[36].uniq_id, "pytes_temperature_1_10");
    let off = discovery_sensors("pytes", 1, 10, true, MonitoringLevel::Off);
    assert_eq!(off.len(), 17);
}

#[test]
fn cache_skips_unchanged_values() {
    let mut c = PublishCache::new();
    assert!(c.is_fresh("t", "1"));
    c.record("t", "1");
    assert!(!c.is_fresh("t", "1"));
    assert!(c.is_fresh("t", "2"));
    assert!(c.is_fresh("u", "1"));
    c.record("t", "2");
    assert_eq!(c.cached("t").as_deref(), Some("2"));
    assert!(!c.is_fresh("t", "2"));
    assert_eq!(c.cached("u"), None);
}

#[test]
fn schedule_decisions() {
    assert_eq!(reading_period_secs(2), 5);
    assert_eq!(reading_period_secs(10), 10);
    assert!(stat_due(60, 60));
    assert!(!stat_due(59, 60));
    assert_eq!(on_reconnect(false), (true, true));
    assert_eq!(on_reconnect(true), (false, true));
}

fn cell(power: u32, cell: u32, voltage: i32, temperature: Option<i32>) -> CellData {
    CellData {
        power,
        cell,
        voltage,
        temperature,
        current: None,
        basic_st: None,
        volt_st: None,
        curr_st: None,
        temp_st: None,
        soc: None,
        coulomb: None,
    }
}

#[test]
fn runtime_messages_follow_the_cycle() {
    let mut p1 = PowerData::new(1);
    p1.voltage = 51_200;
    p1.current = -1_500;
    p1.soc = 80;
    let mut p2 = PowerData::new(2);
    p2.voltage = 51_400;
    p2.current = 500;
    p2.soc = 90;
    let pwr = vec![p1, p2];
    let agg = Aggregate::build_at(0, &pwr, None, &[]);
    let pack = CellPack {
        power: 2,
        voltage_delta: None,
        voltage_min: None,
        voltage_max: None,
        temperature_delta: None,
        temperature_min: None,
        temperature_max: None,
        cells: vec![cell(2, 1, 3_301, Some(25_000)), cell(2, 2, 3_299, None)],
    };
    let events = EventsSummary { bat_events_no: 1, pwr_events_no: 0, sys_events_no: 2 };
    let msgs = runtime_messages("pytes", &agg, &pwr, &[pack], events);
    let got: Vec<(String, Figure)> = msgs.into_iter().map(|m| (m.topic, m.value)).collect();
    let want: Vec<(String, Figure)> = vec![
        ("pytes_serial/pytes/current".into(), Figure::Mean(Reading { total: -1_000, count: 1 })),
        ("pytes_serial/pytes/voltage".into(), Figure::Mean(Reading { total: 102_600, count: 2 })),
        ("pytes_serial/pytes/soc".into(), Figure::Whole(85)),
        ("pytes_serial/pytes/temperature".into(), Figure::Mean(Reading { total: 0, count: 2 })),
        ("pytes_serial/pytes/0/voltage".into(), Figure::Milli(51_200)),
        ("pytes_serial/pytes/0/current".into(), Figure::Milli(-1_500)),
        ("pytes_serial/pytes/1/voltage".into(), Figure::Milli(51_400)),
        ("pytes_serial/pytes/1/current".into(), Figure::Milli(500)),
        ("pytes_serial/pytes/1/cells/0/voltage".into(), Figure::Milli(3_301)),
        ("pytes_serial/pytes/1/cells/0/temperature".into(), Figure::Milli(25_000)),
        ("pytes_serial/pytes/1/cells/1/voltage".into(), Figure::Milli(3_299)),
        ("pytes_serial/pytes/events".into(), Figure::Events(events)),
    ];
    assert_eq!(got, want);
}

#[test]
fn runtime_messages_without_readings() {
    let agg = Aggregate::build_at(0, &[], None, &[]);
    let events = EventsSummary { bat_events_no: 0, pwr_events_no: 0, sys_events_no: 0 };
    let msgs = runtime_messages("bank", &agg, &[], &[], events);
    assert_eq!(msgs.len(), 1);
    assert_eq!(msgs[0].topic, "pytes_serial/bank/events");
}

#[test]
fn poll_commands_in_cycle_order() {
    let cmds = poll_commands(2, true, true);
    let got: Vec<(Request, String, String, String, u64)> = cmds
        .into_iter()
        .map(|c| (c.request, c.text, c.start, c.stop, c.timeout_secs))
        .collect();
    let done = "Command completed".to_string();
    let want = vec![
        (Request::Pwr(1), "pwr 1".to_string(), "pwr 1".to_string(), done.clone(), 5),
        (Request::Pwr(2), "pwr 2".to_string(), "pwr 2".to_string(), done.clone(), 5),
        (Request::Pwrsys, "pwrsys".to_string(), "Power System Information".to_string(), done.clone(), 5),
        (Request::Stat(1), "stat 1".to_string(), "Device address".to_string(), done.clone(), 5),
        (Request::Stat(2), "stat 2".to_string(), "Device address".to_string(), done.clone(), 5),
        (Request::Bat(1), "bat 1".to_string(), "Battery".to_string(), done.clone(), 6),
        (Request::Bat(2), "bat 2".to_string(), "Battery".to_string(), done.clone(), 6),
    ];
    assert_eq!(got, want);
}

#[test]
fn poll_commands_without_stat_or_cells() {
    let cmds = poll_commands(3, false, false);
    let texts: Vec<String> = cmds.into_iter().map(|c| c.text).collect();
    assert_eq!(texts, vec!["pwr 1", "pwr 2", "pwr 3", "pwrsys"]);
    assert_eq!(poll_commands(0, true, true).len(), 1);
    assert_eq!(command_for(Request::Bat(12)).text, "bat 12");
}

fn pass(cache: &mut PublishCache, msgs: &[(&str, &str)]) -> Vec<String> {
    let mut sent = Vec::new();
    for (t, p) in msgs {
        if cache.is_fresh(t, p) {
            sent.push(t.to_string());
            cache.record(t, p);
        }
    }
    sent
}

#[test]
fn second_pass_sends_nothing() {
    let msgs = [("a/voltage", "{\"value\":51.2}"), ("a/current", "{\"value\":1.0}"), ("a/voltage", "{\"value\":51.2}")];
    let mut cache = PublishCache::new();
    assert_eq!(pass(&mut cache, &msgs), vec!["a/voltage", "a/current"]);
    assert!(pass(&mut cache, &msgs).is_empty());
    let changed = [("a/voltage", "{\"value\":51.3}"), ("a/current", "{\"value\":1.0}")];
    assert_eq!(pass(&mut cache, &changed), vec!["a/voltage"]);
}

fn msgs(v: &[(&str, &str)]) -> Vec<(String, String)> {
    v.iter().map(|(t, p)| (t.to_string(), p.to_string())).collect()
}

#[test]
fn second_round_hands_out_nothing() {
    let m = msgs(&[("b/soc", "{\"value\":80}"), ("b/events", "{\"bat_events_no\":0}"), ("b/soc", "{\"value\":80}")]);
    let mut round = PublishRound::new(PublishCache::new(), m.clone());
    let mut sent = Vec::new();
    while let Some((t, _)) = round.next() {
        sent.push(t);
        round.sent();
    }
    assert_eq!(sent, vec!["b/soc", "b/events"]);
    let mut again = PublishRound::new(round.finish(), m);
    assert_eq!(again.next(), None);
}

#[test]
fn unsent_message_is_not_recorded() {
    let m = msgs(&[("c/voltage", "{\"value\":51.2}"), ("c/current", "{\"value\":2.0}")]);
    let mut round = PublishRound::new(PublishCache::new(), m.clone());
    assert_eq!(round.next().map(|x| x.0), Some("c/voltage".to_string()));
    round.sent();
    assert_eq!(round.next().map(|x| x.0), Some("c/current".to_string()));
    let cache = round.finish();
    assert!(!cache.is_fresh("c/voltage", "{\"value\":51.2}"));
    assert!(cache.is_fresh("c/current", "{\"value\":2.0}"));
    let mut retry = PublishRound::new(cache, m);
    assert_eq!(retry.next().map(|x| x.0), Some("c/current".to_string()));
}
