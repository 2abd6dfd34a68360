//! What goes to the MQTT broker: topic names, the Home Assistant discovery sensors, and
//! the cache that keeps unchanged values from being published again.

use vstd::prelude::*;
use crate::numbers::{decimal, decimal2, decimal_string, decimal2_string};
use crate::model::{Aggregate, AggregateView, CellData, CellPack, MonitoringLevel, PowerData, Reading};
use crate::events::EventsSummary;

verus! {

/// `pytes_serial/<dev>/availability`: where the bridge says `online` or `offline`.
pub open spec fn availability_topic_of(dev: Seq<char>) -> Seq<char> {
    "pytes_serial/"@ + dev + "/availability"@
}

/// `pytes_serial/<dev>/<key>`: a bank-wide value.
pub open spec fn state_topic_of(dev: Seq<char>, key: Seq<char>) -> Seq<char> {
    "pytes_serial/"@ + dev + "/"@ + key
}

/// `pytes_serial/<dev>/<idx>/<metric>`: a value of the pack numbered `idx` from zero.
pub open spec fn pack_topic_of(dev: Seq<char>, idx: nat, metric: Seq<char>) -> Seq<char> {
    "pytes_serial/"@ + dev + "/"@ + decimal(idx) + "/"@ + metric
}

/// `pytes_serial/<dev>/<p>/cells/<c>/<metric>`: a value of one cell, both numbered from zero.
pub open spec fn cell_topic_of(dev: Seq<char>, p: nat, c: nat, metric: Seq<char>) -> Seq<char> {
    "pytes_serial/"@ + dev + "/"@ + decimal(p) + "/cells/"@ + decimal(c) + "/"@ + metric
}

/// `homeassistant/sensor/<dev>/<uniq>_config/config`: where a sensor is announced.
pub open spec fn config_topic_of(dev: Seq<char>, uniq: Seq<char>) -> Seq<char> {
    "homeassistant"@ + "/sensor/"@ + dev + "/"@ + uniq + "_config/config"@
}

pub fn availability_topic(dev: &str) -> (t: String)
    ensures
        t@ == availability_topic_of(dev@),
{
    let mut t = String::from_str("pytes_serial/");
    t.append(dev);
    t.append("/availability");
    t
}

pub fn state_topic(dev: &str, key: &str) -> (t: String)
    ensures
        t@ == state_topic_of(dev@, key@),
{
    let mut t = String::from_str("pytes_serial/");
    t.append(dev);
    t.append("/");
    t.append(key);
    t
}

pub fn pack_topic(dev: &str, idx: u32, metric: &str) -> (t: String)
    ensures
        t@ == pack_topic_of(dev@, idx as nat, metric@),
{
    let mut t = String::from_str("pytes_serial/");
    t.append(dev);
    t.append("/");
    t.append(decimal_string(idx as u64).as_str());
    t.append("/");
    t.append(metric);
    t
}

pub fn cell_topic(dev: &str, p: u32, c: u32, metric: &str) -> (t: String)
    ensures
        t@ == cell_topic_of(dev@, p as nat, c as nat, metric@),
{
    let mut t = String::from_str("pytes_serial/");
    t.append(dev);
    t.append("/");
    t.append(decimal_string(p as u64).as_str());
    t.append("/cells/");
    t.append(decimal_string(c as u64).as_str());
    t.append("/");
    t.append(metric);
    t
}

pub fn config_topic(dev: &str, uniq: &str) -> (t: String)
    ensures
        t@ == config_topic_of(dev@, uniq@),
{
    let mut t = String::from_str("homeassistant");
    t.append("/sensor/");
    t.append(dev);
    t.append("/");
    t.append(uniq);
    t.append("_config/config");
    t
}

/// The topic of pack `power`'s `metric` (packs are numbered from one, topics from zero).
pub fn pack_topic_for_power(dev: &str, power: u32, metric: &str) -> (t: String)
    requires
        power >= 1,
    ensures
        t@ == pack_topic_of(dev@, (power - 1) as nat, metric@),
{
    pack_topic(dev, power - 1, metric)
}

/// The topic of a cell's `metric` (packs and cells are numbered from one, topics from zero).
pub fn cell_topic_for(dev: &str, power: u32, cell: u32, metric: &str) -> (t: String)
    requires
        power >= 1,
        cell >= 1,
    ensures
        t@ == cell_topic_of(dev@, (power - 1) as nat, (cell - 1) as nat, metric@),
{
    cell_topic(dev, power - 1, cell - 1, metric)
}

/// A sensor kind: its topic key, its display name, its unit and its device class.
pub struct MetricView {
    pub id: Seq<char>,
    pub name: Seq<char>,
    pub unit: Seq<char>,
    pub class: Seq<char>,
}

pub open spec fn metric(id: Seq<char>, name: Seq<char>, unit: Seq<char>, class: Seq<char>) -> MetricView {
    MetricView { id, name, unit, class }
}

pub struct Metric {
    pub id: &'static str,
    pub name: &'static str,
    pub unit: &'static str,
    pub class: &'static str,
}

impl View for Metric {
    type V = MetricView;

    open spec fn view(&self) -> MetricView {
        MetricView { id: self.id@, name: self.name@, unit: self.unit@, class: self.class@ }
    }
}

pub open spec fn metric_views(v: Seq<Metric>) -> Seq<MetricView> {
    v.map_values(|m: Metric| m@)
}

/// The bank-wide sensors.
pub open spec fn system_metrics() -> Seq<MetricView> {
    seq![
        metric("current"@, "Current"@, "A"@, "current"@),
        metric("voltage"@, "Voltage"@, "V"@, "voltage"@),
        metric("soc"@, "SOC"@, "%"@, "battery"@),
        metric("temperature"@, "Temperature"@, "°C"@, "temperature"@),
        metric("system_rc"@, "Remaining Capacity"@, "AH"@, "battery"@),
        metric("system_fcc"@, "Full Charge Capacity"@, "AH"@, "battery"@),
        metric("soh"@, "System SOH"@, "%"@, "battery"@),
        metric("highest_voltage"@, "Highest Cell Voltage"@, "V"@, "voltage"@),
        metric("lowest_voltage"@, "Lowest Cell Voltage"@, "V"@, "voltage"@),
        metric("average_voltage"@, "Average Cell Voltage"@, "V"@, "voltage"@),
        metric("highest_temp"@, "Highest Cell Temp"@, "°C"@, "temperature"@),
        metric("lowest_temp"@, "Lowest Cell Temp"@, "°C"@, "temperature"@),
        metric("average_temp"@, "Average Cell Temp"@, "°C"@, "temperature"@),
    ]
}

/// The sensors of each pack.
pub open spec fn power_metrics() -> Seq<MetricView> {
    seq![
        metric("voltage"@, "Voltage"@, "V"@, "voltage"@),
        metric("current"@, "Current"@, "A"@, "current"@),
        metric("temperature"@, "Temperature"@, "°C"@, "temperature"@),
        metric("soc"@, "SOC"@, "%"@, "battery"@),
    ]
}

/// The sensors of each cell at a monitoring level.
pub open spec fn cell_metrics(level: MonitoringLevel) -> Seq<MetricView> {
    match level {
        MonitoringLevel::Low => seq![
        metric("voltage"@, "Voltage"@, "V"@, "voltage"@),
    ],
        MonitoringLevel::Medium => seq![
        metric("voltage"@, "Voltage"@, "V"@, "voltage"@),
        metric("temperature"@, "Temperature"@, "°C"@, "temperature"@),
    ],
        MonitoringLevel::High => seq![
        metric("voltage"@, "Voltage"@, "V"@, "voltage"@),
        metric("temperature"@, "Temperature"@, "°C"@, "temperature"@),
        metric("current"@, "Current"@, "A"@, "current"@),
    ],
        MonitoringLevel::Off => seq![],
    }
}

pub fn system_metric_list() -> (v: Vec<Metric>)
    ensures
        metric_views(v@) == system_metrics(),
{
    let v = vec![
        Metric { id: "current", name: "Current", unit: "A", class: "current" },
        Metric { id: "voltage", name: "Voltage", unit: "V", class: "voltage" },
        Metric { id: "soc", name: "SOC", unit: "%", class: "battery" },
        Metric { id: "temperature", name: "Temperature", unit: "°C", class: "temperature" },
        Metric { id: "system_rc", name: "Remaining Capacity", unit: "AH", class: "battery" },
        Metric { id: "system_fcc", name: "Full Charge Capacity", unit: "AH", class: "battery" },
        Metric { id: "soh", name: "System SOH", unit: "%", class: "battery" },
        Metric { id: "highest_voltage", name: "Highest Cell Voltage", unit: "V", class: "voltage" },
        Metric { id: "lowest_voltage", name: "Lowest Cell Voltage", unit: "V", class: "voltage" },
        Metric { id: "average_voltage", name: "Average Cell Voltage", unit: "V", class: "voltage" },
        Metric { id: "highest_temp", name: "Highest Cell Temp", unit: "°C", class: "temperature" },
        Metric { id: "lowest_temp", name: "Lowest Cell Temp", unit: "°C", class: "temperature" },
        Metric { id: "average_temp", name: "Average Cell Temp", unit: "°C", class: "temperature" },
    ];
    assert(metric_views(v@) =~= system_metrics());
    v
}

pub fn power_metric_list() -> (v: Vec<Metric>)
    ensures
        metric_views(v@) == power_metrics(),
{
    let v = vec![
        Metric { id: "voltage", name: "Voltage", unit: "V", class: "voltage" },
        Metric { id: "current", name: "Current", unit: "A", class: "current" },
        Metric { id: "temperature", name: "Temperature", unit: "°C", class: "temperature" },
        Metric { id: "soc", name: "SOC", unit: "%", class: "battery" },
    ];
    assert(metric_views(v@) =~= power_metrics());
    v
}

pub fn cell_metric_list(level: MonitoringLevel) -> (v: Vec<Metric>)
    ensures
        metric_views(v@) == cell_metrics(level),
{
    let v = match level {
        MonitoringLevel::Low => vec![
        Metric { id: "voltage", name: "Voltage", unit: "V", class: "voltage" },
    ],
        MonitoringLevel::Medium => vec![
        Metric { id: "voltage", name: "Voltage", unit: "V", class: "voltage" },
        Metric { id: "temperature", name: "Temperature", unit: "°C", class: "temperature" },
    ],
        MonitoringLevel::High => vec![
        Metric { id: "voltage", name: "Voltage", unit: "V", class: "voltage" },
        Metric { id: "temperature", name: "Temperature", unit: "°C", class: "temperature" },
        Metric { id: "current", name: "Current", unit: "A", class: "current" },
    ],
        MonitoringLevel::Off => Vec::new(),
    };
    assert(metric_views(v@) =~= cell_metrics(level));
    v
}


/// A Home Assistant sensor announcement: the config topic and the payload's fields
/// (`uniq_id`, `name`, `stat_t`, `dev_cla`, `unit_of_meas`; the device block and the
/// value template are the same for every sensor).
pub struct SensorConfig {
    pub topic: String,
    pub uniq_id: String,
    pub name: String,
    pub state_topic: String,
    pub device_class: String,
    pub unit: String,
}

pub struct SensorView {
    pub topic: Seq<char>,
    pub uniq_id: Seq<char>,
    pub name: Seq<char>,
    pub state_topic: Seq<char>,
    pub device_class: Seq<char>,
    pub unit: Seq<char>,
}

impl View for SensorConfig {
    type V = SensorView;

    open spec fn view(&self) -> SensorView {
        SensorView {
            topic: self.topic@,
            uniq_id: self.uniq_id@,
            name: self.name@,
            state_topic: self.state_topic@,
            device_class: self.device_class@,
            unit: self.unit@,
        }
    }
}

pub open spec fn sensor_views(v: Seq<SensorConfig>) -> Seq<SensorView> {
    v.map_values(|c: SensorConfig| c@)
}

pub open spec fn sensor(dev: Seq<char>, uniq: Seq<char>, name: Seq<char>, state: Seq<char>, m: MetricView) -> SensorView {
    SensorView {
        topic: config_topic_of(dev, uniq),
        uniq_id: uniq,
        name,
        state_topic: state,
        device_class: m.class,
        unit: m.unit,
    }
}

/// A bank-wide sensor: `<dev>_<id>`, published at `pytes_serial/<dev>/<id>`.
pub open spec fn system_sensor(dev: Seq<char>, m: MetricView) -> SensorView {
    sensor(dev, dev + "_"@ + m.id, m.name, state_topic_of(dev, m.id), m)
}

/// A sensor of pack `p` (from zero): `<dev>_<id>_<p+1>`, named `<name>_<p+1>`.
pub open spec fn power_sensor(dev: Seq<char>, p: nat, m: MetricView) -> SensorView {
    sensor(
        dev,
        dev + "_"@ + m.id + "_"@ + decimal(p + 1),
        m.name + "_"@ + decimal(p + 1),
        pack_topic_of(dev, p, m.id),
        m,
    )
}

/// A sensor of cell `c` of pack `p` (both from zero): `<dev>_<id>_<p+1>_<c+1>`, named
/// `<name>_<p+1><c+1 in two digits>`.
pub open spec fn cell_sensor(dev: Seq<char>, p: nat, c: nat, m: MetricView) -> SensorView {
    sensor(
        dev,
        dev + "_"@ + m.id + "_"@ + decimal(p + 1) + "_"@ + decimal(c + 1),
        m.name + "_"@ + decimal(p + 1) + decimal2(c + 1),
        cell_topic_of(dev, p, c, m.id),
        m,
    )
}

pub open spec fn system_sensors(dev: Seq<char>) -> Seq<SensorView> {
    system_metrics().map_values(|m: MetricView| system_sensor(dev, m))
}

/// The sensors of packs `0..n`.
pub open spec fn power_sensors(dev: Seq<char>, n: int) -> Seq<SensorView>
    decreases n,
{
    if n <= 0 {
        seq![]
    } else {
        power_sensors(dev, n - 1) + power_metrics().map_values(
            |m: MetricView| power_sensor(dev, (n - 1) as nat, m),
        )
    }
}

/// The sensors of cells `0..n` of pack `p`.
pub open spec fn pack_cell_sensors(dev: Seq<char>, p: nat, n: int, ms: Seq<MetricView>) -> Seq<SensorView>
    decreases n,
{
    if n <= 0 {
        seq![]
    } else {
        pack_cell_sensors(dev, p, n - 1, ms) + ms.map_values(
            |m: MetricView| cell_sensor(dev, p, (n - 1) as nat, m),
        )
    }
}

/// The cell sensors of packs `0..n`, each with `cells` cells.
pub open spec fn cell_sensors(dev: Seq<char>, cells: nat, n: int, ms: Seq<MetricView>) -> Seq<SensorView>
    decreases n,
{
    if n <= 0 {
        seq![]
    } else {
        cell_sensors(dev, cells, n - 1, ms) + pack_cell_sensors(dev, (n - 1) as nat, cells as int, ms)
    }
}

/// Every sensor that discovery announces, in order: the bank's, each pack's, and, when
/// cell monitoring is on at a level other than `Off`, each cell's.
pub open spec fn discovery_plan(
    dev: Seq<char>,
    powers: u32,
    cells: u32,
    cells_monitoring: bool,
    level: MonitoringLevel,
) -> Seq<SensorView> {
    system_sensors(dev) + power_sensors(dev, powers as int) + if cells_monitoring && level
        != MonitoringLevel::Off {
        cell_sensors(dev, cells as nat, powers as int, cell_metrics(level))
    } else {
        seq![]
    }
}

fn make_sensor(dev: &str, uniq: String, name: String, state: String, m: &Metric) -> (s: SensorConfig)
    ensures
        s@ == sensor(dev@, uniq@, name@, state@, m@),
{
    let topic = config_topic(dev, uniq.as_str());
    SensorConfig {
        topic,
        uniq_id: uniq,
        name,
        state_topic: state,
        device_class: String::from_str(m.class),
        unit: String::from_str(m.unit),
    }
}

fn system_sensor_config(dev: &str, m: &Metric) -> (s: SensorConfig)
    ensures
        s@ == system_sensor(dev@, m@),
{
    let mut uniq = String::from_str(dev);
    uniq.append("_");
    uniq.append(m.id);
    make_sensor(dev, uniq, String::from_str(m.name), state_topic(dev, m.id), m)
}

fn power_sensor_config(dev: &str, p: u32, m: &Metric) -> (s: SensorConfig)
    requires
        p < u32::MAX,
    ensures
        s@ == power_sensor(dev@, p as nat, m@),
{
    let num = decimal_string((p + 1) as u64);
    let mut uniq = String::from_str(dev);
    uniq.append("_");
    uniq.append(m.id);
    uniq.append("_");
    uniq.append(num.as_str());
    let mut name = String::from_str(m.name);
    name.append("_");
    name.append(num.as_str());
    make_sensor(dev, uniq, name, pack_topic(dev, p, m.id), m)
}

fn cell_sensor_config(dev: &str, p: u32, c: u32, m: &Metric) -> (s: SensorConfig)
    requires
        p < u32::MAX,
        c < u32::MAX,
    ensures
        s@ == cell_sensor(dev@, p as nat, c as nat, m@),
{
    let pn = decimal_string((p + 1) as u64);
    let cn = decimal_string((c + 1) as u64);
    let cn2 = decimal2_string((c + 1) as u64);
    let mut uniq = String::from_str(dev);
    uniq.append("_");
    uniq.append(m.id);
    uniq.append("_");
    uniq.append(pn.as_str());
    uniq.append("_");
    uniq.append(cn.as_str());
    let mut name = String::from_str(m.name);
    name.append("_");
    name.append(pn.as_str());
    name.append(cn2.as_str());
    make_sensor(dev, uniq, name, cell_topic(dev, p, c, m.id), m)
}

/// The sensors that Home Assistant discovery announces for a bank of `powers` packs of
/// `cells` cells each.
pub fn discovery_sensors(
    dev: &str,
    powers: u32,
    cells: u32,
    cells_monitoring: bool,
    level: MonitoringLevel,
) -> (r: Vec<SensorConfig>)
    ensures
        sensor_views(r@) == discovery_plan(dev@, powers, cells, cells_monitoring, level),
{
    let mut out: Vec<SensorConfig> = Vec::new();
    let sys = system_metric_list();
    let mut k: usize = 0;
    while k < sys.len()
        invariant
            k <= sys.len(),
            metric_views(sys@) == system_metrics(),
            sensor_views(out@) == metric_views(sys@).take(k as int).map_values(
                |m: MetricView| system_sensor(dev@, m),
            ),
        decreases sys.len() - k,
    {
        assert(metric_views(sys@)[k as int] == sys@[k as int]@);
        let sc = system_sensor_config(dev, &sys[k]);
        let ghost before = sensor_views(out@);
        out.push(sc);
        assert(sensor_views(out@) =~= before.push(sc@));
        assert(metric_views(sys@).take(k + 1).map_values(|m: MetricView| system_sensor(dev@, m))
            =~= metric_views(sys@).take(k as int).map_values(
            |m: MetricView| system_sensor(dev@, m),
        ).push(system_sensor(dev@, metric_views(sys@)[k as int])));
        k = k + 1;
        assert(sensor_views(out@) =~= metric_views(sys@).take(k as int).map_values(
            |m: MetricView| system_sensor(dev@, m),
        ));
    }
    assert(metric_views(sys@).take(k as int) =~= system_metrics());
    let ghost base = sensor_views(out@);
    assert(base == system_sensors(dev@));
    let pm = power_metric_list();
    let mut p: u32 = 0;
    while p < powers
        invariant
            p <= powers,
            metric_views(pm@) == power_metrics(),
            base == system_sensors(dev@),
            sensor_views(out@) == base + power_sensors(dev@, p as int),
        decreases powers - p,
    {
        let ghost start = sensor_views(out@);
        let mut k: usize = 0;
        while k < pm.len()
            invariant
                k <= pm.len(),
                p < powers,
                metric_views(pm@) == power_metrics(),
                sensor_views(out@) == start + metric_views(pm@).take(k as int).map_values(
                    |m: MetricView| power_sensor(dev@, p as nat, m),
                ),
            decreases pm.len() - k,
        {
            assert(metric_views(pm@)[k as int] == pm@[k as int]@);
            let sc = power_sensor_config(dev, p, &pm[k]);
            let ghost before = sensor_views(out@);
            out.push(sc);
            assert(sensor_views(out@) =~= before.push(sc@));
            assert(metric_views(pm@).take(k + 1).map_values(
                |m: MetricView| power_sensor(dev@, p as nat, m),
            ) =~= metric_views(pm@).take(k as int).map_values(
                |m: MetricView| power_sensor(dev@, p as nat, m),
            ).push(power_sensor(dev@, p as nat, metric_views(pm@)[k as int])));
            k = k + 1;
            assert(sensor_views(out@) =~= start + metric_views(pm@).take(k as int).map_values(
                |m: MetricView| power_sensor(dev@, p as nat, m),
            ));
        }
        assert(metric_views(pm@).take(k as int) =~= power_metrics());
        p = p + 1;
        assert(sensor_views(out@) =~= base + power_sensors(dev@, p as int));
    }
    let ghost mid = sensor_views(out@);
    if cells_monitoring && level != MonitoringLevel::Off {
        let cm = cell_metric_list(level);
        let ghost ms = cell_metrics(level);
        let mut p: u32 = 0;
        while p < powers
            invariant
                p <= powers,
                metric_views(cm@) == ms,
                ms == cell_metrics(level),
                sensor_views(out@) == mid + cell_sensors(dev@, cells as nat, p as int, ms),
            decreases powers - p,
        {
            let ghost pstart = sensor_views(out@);
            let mut c: u32 = 0;
            while c < cells
                invariant
                    c <= cells,
                    p < powers,
                    metric_views(cm@) == ms,
                    sensor_views(out@) == pstart + pack_cell_sensors(dev@, p as nat, c as int, ms),
                decreases cells - c,
            {
                let ghost cstart = sensor_views(out@);
                let mut k: usize = 0;
                while k < cm.len()
                    invariant
                        k <= cm.len(),
                        p < powers,
                        c < cells,
                        metric_views(cm@) == ms,
                        sensor_views(out@) == cstart + ms.take(k as int).map_values(
                            |m: MetricView| cell_sensor(dev@, p as nat, c as nat, m),
                        ),
                    decreases cm.len() - k,
                {
                    assert(ms[k as int] == cm@[k as int]@);
                    let sc = cell_sensor_config(dev, p, c, &cm[k]);
                    let ghost before = sensor_views(out@);
                    out.push(sc);
                    assert(sensor_views(out@) =~= before.push(sc@));
                    assert(ms.take(k + 1).map_values(
                        |m: MetricView| cell_sensor(dev@, p as nat, c as nat, m),
                    ) =~= ms.take(k as int).map_values(
                        |m: MetricView| cell_sensor(dev@, p as nat, c as nat, m),
                    ).push(cell_sensor(dev@, p as nat, c as nat, ms[k as int])));
                    k = k + 1;
                    assert(sensor_views(out@) =~= cstart + ms.take(k as int).map_values(
                        |m: MetricView| cell_sensor(dev@, p as nat, c as nat, m),
                    ));
                }
                assert(ms.take(k as int) =~= ms);
                c = c + 1;
                assert(sensor_views(out@) =~= pstart + pack_cell_sensors(dev@, p as nat, c as int, ms));
            }
            p = p + 1;
            assert(sensor_views(out@) =~= mid + cell_sensors(dev@, cells as nat, p as int, ms));
        }
        assert(sensor_views(out@) =~= discovery_plan(dev@, powers, cells, cells_monitoring, level));
    } else {
        assert(sensor_views(out@) =~= discovery_plan(dev@, powers, cells, cells_monitoring, level));
    }
    out
}


/// The value cached for `topic`: that of the first entry for it, looking from index `i`.
pub open spec fn cache_lookup(e: Seq<(Seq<char>, Seq<char>)>, topic: Seq<char>, i: int) -> Option<Seq<char>>
    decreases e.len() - i,
{
    if 0 <= i < e.len() {
        if e[i].0 == topic {
            Some(e[i].1)
        } else {
            cache_lookup(e, topic, i + 1)
        }
    } else {
        None
    }
}

/// A value must be published: nothing, or something else, was last published on its topic.
pub open spec fn fresh(m: Map<Seq<char>, Seq<char>>, topic: Seq<char>, payload: Seq<char>) -> bool {
    !(m.contains_key(topic) && m[topic] == payload)
}

/// The payload last published on each topic.
pub struct PublishCache {
    entries: Vec<(String, String)>,
}

pub open spec fn entry_pairs(v: Seq<(String, String)>) -> Seq<(Seq<char>, Seq<char>)> {
    v.map_values(|p: (String, String)| (p.0@, p.1@))
}

pub open spec fn cache_map(e: Seq<(Seq<char>, Seq<char>)>) -> Map<Seq<char>, Seq<char>> {
    Map::new(|t: Seq<char>| cache_lookup(e, t, 0) is Some, |t: Seq<char>| cache_lookup(e, t, 0)->0)
}

impl View for PublishCache {
    type V = Map<Seq<char>, Seq<char>>;

    closed spec fn view(&self) -> Map<Seq<char>, Seq<char>> {
        cache_map(entry_pairs(self.entries@))
    }
}

proof fn lemma_lookup_update(
    e: Seq<(Seq<char>, Seq<char>)>,
    k: int,
    t: Seq<char>,
    p: Seq<char>,
    t2: Seq<char>,
    i: int,
)
    requires
        0 <= i <= e.len(),
        0 <= k < e.len(),
        e[k].0 == t,
        forall|j: int| 0 <= j < k ==> #[trigger] e[j].0 != t,
    ensures
        cache_lookup(e.update(k, (t, p)), t2, i) == (if t2 == t && i <= k {
            Some(p)
        } else {
            cache_lookup(e, t2, i)
        }),
    decreases e.len() - i,
{
    if i < e.len() {
        lemma_lookup_update(e, k, t, p, t2, i + 1);
    }
}

proof fn lemma_lookup_push(e: Seq<(Seq<char>, Seq<char>)>, t: Seq<char>, p: Seq<char>, t2: Seq<char>, i: int)
    requires
        0 <= i <= e.len(),
        forall|j: int| 0 <= j < e.len() ==> #[trigger] e[j].0 != t,
    ensures
        cache_lookup(e.push((t, p)), t2, i) == (if t2 == t {
            Some(p)
        } else {
            cache_lookup(e, t2, i)
        }),
    decreases e.len() - i,
{
    if i < e.len() {
        lemma_lookup_push(e, t, p, t2, i + 1);
    } else {
        assert(e.push((t, p))[i] == (t, p));
        assert(cache_lookup(e.push((t, p)), t2, i + 1) == None::<Seq<char>>);
    }
}

proof fn lemma_lookup_skips(e: Seq<(Seq<char>, Seq<char>)>, t: Seq<char>, i: int)
    requires
        0 <= i <= e.len(),
        forall|j: int| 0 <= j < i ==> #[trigger] e[j].0 != t,
    ensures
        cache_lookup(e, t, 0) == cache_lookup(e, t, i),
    decreases i,
{
    if i > 0 {
        lemma_lookup_skips(e, t, i - 1);
    }
}

impl PublishCache {
    pub fn new() -> (c: PublishCache)
        ensures
            c@ == Map::<Seq<char>, Seq<char>>::empty(),
    {
        let c = PublishCache { entries: Vec::new() };
        assert(c@ =~= Map::<Seq<char>, Seq<char>>::empty());
        c
    }

    /// Index of the first entry for `topic` (the length when there is none).
    fn find(&self, topic: &str) -> (k: usize)
        ensures
            k <= self.entries@.len(),
            forall|j: int| 0 <= j < k ==> #[trigger] entry_pairs(self.entries@)[j].0 != topic@,
            k < self.entries@.len() ==> entry_pairs(self.entries@)[k as int].0 == topic@,
    {
        let ghost e = entry_pairs(self.entries@);
        let tc = crate::text::chars_of(topic);
        let mut k: usize = 0;
        while k < self.entries.len()
            invariant
                k <= self.entries@.len(),
                e == entry_pairs(self.entries@),
                tc@ == topic@,
                forall|j: int| 0 <= j < k ==> #[trigger] e[j].0 != topic@,
            decreases self.entries.len() - k,
        {
            let kc = crate::text::chars_of(self.entries[k].0.as_str());
            assert(e[k as int].0 == self.entries@[k as int].0@);
            if crate::text::same_chars(&kc, &tc) {
                return k;
            }
            k = k + 1;
        }
        k
    }

    /// The payload last recorded for `topic`.
    pub fn cached(&self, topic: &str) -> (r: Option<String>)
        ensures
            match r {
                Some(p) => self@.contains_key(topic@) && self@[topic@] == p@,
                None => !self@.contains_key(topic@),
            },
    {
        let k = self.find(topic);
        proof {
            lemma_lookup_skips(entry_pairs(self.entries@), topic@, k as int);
        }
        if k < self.entries.len() {
            let p = self.entries[k].1.clone();
            Some(p)
        } else {
            None
        }
    }

    /// `payload` differs from what was last recorded for `topic` (or nothing was).
    pub fn is_fresh(&self, topic: &str, payload: &str) -> (b: bool)
        ensures
            b == fresh(self@, topic@, payload@),
    {
        match self.cached(topic) {
            Some(p) => {
                let a = crate::text::chars_of(p.as_str());
                let b = crate::text::chars_of(payload);
                !crate::text::same_chars(&a, &b)
            },
            None => true,
        }
    }

    /// Remembers `payload` as the last one published on `topic`.
    pub fn record(&mut self, topic: &str, payload: &str)
        ensures
            final(self)@ == old(self)@.insert(topic@, payload@),
    {
        let ghost e = entry_pairs(self.entries@);
        let k = self.find(topic);
        let pair = (String::from_str(topic), String::from_str(payload));
        if k < self.entries.len() {
            self.entries.set(k, pair);
            proof {
                assert(entry_pairs(self.entries@) =~= e.update(k as int, (topic@, payload@)));
                assert forall|t2: Seq<char>| #[trigger] cache_lookup(entry_pairs(self.entries@), t2, 0)
                    == (if t2 == topic@ {
                    Some(payload@)
                } else {
                    cache_lookup(e, t2, 0)
                }) by {
                    lemma_lookup_update(e, k as int, topic@, payload@, t2, 0);
                }
            }
        } else {
            self.entries.push(pair);
            proof {
                assert(entry_pairs(self.entries@) =~= e.push((topic@, payload@)));
                assert forall|t2: Seq<char>| #[trigger] cache_lookup(entry_pairs(self.entries@), t2, 0)
                    == (if t2 == topic@ {
                    Some(payload@)
                } else {
                    cache_lookup(e, t2, 0)
                }) by {
                    lemma_lookup_push(e, topic@, payload@, t2, 0);
                }
            }
        }
        assert(self@ =~= old(self)@.insert(topic@, payload@));
    }
}

// ---------------------------------------------------------------------------------------
// State messages of one polling cycle

/// What a state message carries: a mean of thousandths (`total / count`), a value in
/// thousandths, a whole number, or the event counters.
#[derive(Debug, Clone, Copy, PartialEq, Eq, Structural)]
pub enum Figure {
    Mean(Reading),
    Milli(i32),
    Whole(u32),
    Events(EventsSummary),
}

/// A value to publish (its JSON payload is `{"value": ..}`, or the counters object).
pub struct StateMessage {
    pub topic: String,
    pub value: Figure,
}

pub struct MessageView {
    pub topic: Seq<char>,
    pub value: Figure,
}

impl View for StateMessage {
    type V = MessageView;

    open spec fn view(&self) -> MessageView {
        MessageView { topic: self.topic@, value: self.value }
    }
}

pub open spec fn message_views(v: Seq<StateMessage>) -> Seq<MessageView> {
    v.map_values(|m: StateMessage| m@)
}

pub open spec fn message(topic: Seq<char>, value: Figure) -> MessageView {
    MessageView { topic, value }
}

/// One message when there is a value, none otherwise.
pub open spec fn optional_message(topic: Seq<char>, value: Option<Figure>) -> Seq<MessageView> {
    match value {
        Some(f) => seq![message(topic, f)],
        None => seq![],
    }
}

pub open spec fn mean_figure(o: Option<Reading>) -> Option<Figure> {
    match o {
        Some(r) => Some(Figure::Mean(r)),
        None => None,
    }
}

pub open spec fn whole_figure(o: Option<u32>) -> Option<Figure> {
    match o {
        Some(n) => Some(Figure::Whole(n)),
        None => None,
    }
}

/// The bank's current, voltage, charge and temperature, those that are known.
pub open spec fn bank_messages(dev: Seq<char>, a: AggregateView) -> Seq<MessageView> {
    optional_message(state_topic_of(dev, "current"@), mean_figure(a.current))
        + optional_message(state_topic_of(dev, "voltage"@), mean_figure(a.voltage))
        + optional_message(state_topic_of(dev, "soc"@), whole_figure(a.soc))
        + optional_message(state_topic_of(dev, "temperature"@), mean_figure(a.temperature))
}

/// The voltage and current of the first `n` packs.
pub open spec fn pack_messages(dev: Seq<char>, pwr: Seq<PowerData>, n: int) -> Seq<MessageView>
    decreases n,
{
    if n <= 0 {
        seq![]
    } else {
        let p = pwr[n - 1];
        let idx = (p.power - 1) as nat;
        pack_messages(dev, pwr, n - 1) + seq![
            message(pack_topic_of(dev, idx, "voltage"@), Figure::Milli(p.voltage)),
            message(pack_topic_of(dev, idx, "current"@), Figure::Milli(p.current)),
        ]
    }
}

/// A cell's voltage, and its temperature when it was read.
pub open spec fn one_cell_messages(dev: Seq<char>, power: u32, c: CellData) -> Seq<MessageView> {
    let p = (power - 1) as nat;
    let k = (c.cell - 1) as nat;
    seq![message(cell_topic_of(dev, p, k, "voltage"@), Figure::Milli(c.voltage))]
        + match c.temperature {
        Some(t) => seq![message(cell_topic_of(dev, p, k, "temperature"@), Figure::Milli(t))],
        None => seq![],
    }
}

/// The messages of the first `n` cells of pack `power`.
pub open spec fn pack_cell_messages(dev: Seq<char>, power: u32, cells: Seq<CellData>, n: int) -> Seq<MessageView>
    decreases n,
{
    if n <= 0 {
        seq![]
    } else {
        pack_cell_messages(dev, power, cells, n - 1) + one_cell_messages(dev, power, cells[n - 1])
    }
}

/// The cell messages of the first `n` packs.
pub open spec fn cell_messages(dev: Seq<char>, packs: Seq<CellPack>, n: int) -> Seq<MessageView>
    decreases n,
{
    if n <= 0 {
        seq![]
    } else {
        let pk = packs[n - 1];
        cell_messages(dev, packs, n - 1) + pack_cell_messages(dev, pk.power, pk.cells@, pk.cells@.len() as int)
    }
}

/// Every value a polling cycle publishes, in order: the bank's, each pack's, each cell's,
/// and the event counters.
pub open spec fn runtime_plan(
    dev: Seq<char>,
    a: AggregateView,
    pwr: Seq<PowerData>,
    packs: Seq<CellPack>,
    events: EventsSummary,
) -> Seq<MessageView> {
    bank_messages(dev, a) + pack_messages(dev, pwr, pwr.len() as int) + cell_messages(
        dev,
        packs,
        packs.len() as int,
    ) + seq![message(state_topic_of(dev, "events"@), Figure::Events(events))]
}

/// Packs are numbered from one, and so are the cells of every pack that has any.
pub open spec fn numbered_from_one(pwr: Seq<PowerData>, packs: Seq<CellPack>) -> bool {
    &&& forall|i: int| 0 <= i < pwr.len() ==> #[trigger] pwr[i].power >= 1
    &&& forall|k: int, j: int|
        0 <= k < packs.len() && 0 <= j < packs[k].cells@.len() ==> packs[k].power >= 1
            && #[trigger] packs[k].cells@[j].cell >= 1
}

fn push_message(out: &mut Vec<StateMessage>, topic: String, value: Figure)
    ensures
        message_views(final(out)@) == message_views(old(out)@).push(message(topic@, value)),
{
    let ghost before = message_views(out@);
    let ghost t = topic@;
    out.push(StateMessage { topic, value });
    assert(message_views(out@) =~= before.push(message(t, value)));
}

fn push_optional(out: &mut Vec<StateMessage>, topic: String, value: Option<Figure>)
    ensures
        message_views(final(out)@) == message_views(old(out)@) + optional_message(topic@, value),
{
    let ghost before = message_views(out@);
    let ghost t = topic@;
    match value {
        Some(f) => {
            push_message(out, topic, f);
            assert(message_views(out@) =~= before + optional_message(t, value));
        },
        None => {
            assert(message_views(out@) =~= before + optional_message(t, value));
        },
    }
}

fn mean_of(o: Option<Reading>) -> (r: Option<Figure>)
    ensures
        r == mean_figure(o),
{
    match o {
        Some(v) => Some(Figure::Mean(v)),
        None => None,
    }
}

fn push_cell(out: &mut Vec<StateMessage>, dev: &str, power: u32, c: &CellData)
    requires
        power >= 1,
        c.cell >= 1,
    ensures
        message_views(final(out)@) == message_views(old(out)@) + one_cell_messages(dev@, power, *c),
{
    let ghost before = message_views(out@);
    push_message(out, cell_topic_for(dev, power, c.cell, "voltage"), Figure::Milli(c.voltage));
    match c.temperature {
        Some(t) => {
            push_message(out, cell_topic_for(dev, power, c.cell, "temperature"), Figure::Milli(t));
        },
        None => {},
    }
    assert(message_views(out@) =~= before + one_cell_messages(dev@, power, *c));
}

/// The values to publish after a polling cycle, in order (see [`runtime_plan`]).
pub fn runtime_messages(
    dev: &str,
    agg: &Aggregate,
    pwr: &[PowerData],
    cells: &[CellPack],
    events: EventsSummary,
) -> (r: Vec<StateMessage>)
    requires
        numbered_from_one(pwr@, cells@),
    ensures
        message_views(r@) == runtime_plan(dev@, agg@, pwr@, cells@, events),
{
    let mut out: Vec<StateMessage> = Vec::new();
    push_optional(&mut out, state_topic(dev, "current"), mean_of(agg.current));
    push_optional(&mut out, state_topic(dev, "voltage"), mean_of(agg.voltage));
    let soc = match agg.soc {
        Some(n) => Some(Figure::Whole(n)),
        None => None,
    };
    push_optional(&mut out, state_topic(dev, "soc"), soc);
    push_optional(&mut out, state_topic(dev, "temperature"), mean_of(agg.temperature));
    let ghost bank = message_views(out@);
    assert(bank =~= bank_messages(dev@, agg@));

    let mut i: usize = 0;
    while i < pwr.len()
        invariant
            i <= pwr@.len(),
            numbered_from_one(pwr@, cells@),
            message_views(out@) == bank + pack_messages(dev@, pwr@, i as int),
        decreases pwr.len() - i,
    {
        let p = &pwr[i];
        assert(pwr@[i as int].power >= 1);
        push_message(&mut out, pack_topic_for_power(dev, p.power, "voltage"), Figure::Milli(p.voltage));
        push_message(&mut out, pack_topic_for_power(dev, p.power, "current"), Figure::Milli(p.current));
        assert(message_views(out@) =~= bank + pack_messages(dev@, pwr@, i + 1));
        i = i + 1;
    }
    let ghost packs_done = message_views(out@);

    let mut k: usize = 0;
    while k < cells.len()
        invariant
            k <= cells@.len(),
            numbered_from_one(pwr@, cells@),
            message_views(out@) == packs_done + cell_messages(dev@, cells@, k as int),
        decreases cells.len() - k,
    {
        let pack = &cells[k];
        let ghost at_pack = message_views(out@);
        let mut j: usize = 0;
        while j < pack.cells.len()
            invariant
                k < cells@.len(),
                pack == cells@[k as int],
                j <= pack.cells@.len(),
                numbered_from_one(pwr@, cells@),
                message_views(out@) == at_pack + pack_cell_messages(dev@, pack.power, pack.cells@, j as int),
            decreases pack.cells.len() - j,
        {
            assert(cells@[k as int].cells@[j as int].cell >= 1);
            push_cell(&mut out, dev, pack.power, &pack.cells[j]);
            assert(message_views(out@) =~= at_pack + pack_cell_messages(dev@, pack.power, pack.cells@, j + 1));
            j = j + 1;
        }
        assert(message_views(out@) =~= packs_done + cell_messages(dev@, cells@, k + 1));
        k = k + 1;
    }
    push_message(&mut out, state_topic(dev, "events"), Figure::Events(events));
    assert(message_views(out@) =~= runtime_plan(dev@, agg@, pwr@, cells@, events));
    out
}


/// Once a payload is recorded for a topic, publishing the same payload there again is not fresh.
pub proof fn law_recorded_payload_is_not_fresh(m: Map<Seq<char>, Seq<char>>, topic: Seq<char>, payload: Seq<char>)
    ensures
        !fresh(m.insert(topic, payload), topic, payload),
{
}

/// Recording a payload for one topic leaves every other topic's freshness as it was.
pub proof fn law_record_leaves_other_topics(
    m: Map<Seq<char>, Seq<char>>,
    topic: Seq<char>,
    payload: Seq<char>,
    other: Seq<char>,
    other_payload: Seq<char>,
)
    requires
        other != topic,
    ensures
        fresh(m.insert(topic, payload), other, other_payload) == fresh(m, other, other_payload),
{
}


/// One publishing pass over the first `n` of `msgs` (topic, payload), starting from the
/// cache `m`: a message is sent when it is fresh ([`PublishCache::is_fresh`]) and then
/// recorded ([`PublishCache::record`]). Gives the cache after the pass and the messages
/// sent, in order.
pub open spec fn publish_pass(
    m: Map<Seq<char>, Seq<char>>,
    msgs: Seq<(Seq<char>, Seq<char>)>,
    n: int,
) -> (Map<Seq<char>, Seq<char>>, Seq<(Seq<char>, Seq<char>)>)
    decreases n,
{
    if n <= 0 {
        (m, seq![])
    } else {
        let (c, sent) = publish_pass(m, msgs, n - 1);
        let msg = msgs[n - 1];
        if fresh(c, msg.0, msg.1) {
            (c.insert(msg.0, msg.1), sent.push(msg))
        } else {
            (c, sent)
        }
    }
}

/// No two of `msgs` carry different payloads on one topic.
pub open spec fn one_payload_per_topic(msgs: Seq<(Seq<char>, Seq<char>)>) -> bool {
    forall|i: int, j: int|
        0 <= i < msgs.len() && 0 <= j < msgs.len() && #[trigger] msgs[i].0 == #[trigger] msgs[j].0
            ==> msgs[i].1 == msgs[j].1
}

proof fn lemma_pass_holds(m: Map<Seq<char>, Seq<char>>, msgs: Seq<(Seq<char>, Seq<char>)>, n: int)
    requires
        0 <= n <= msgs.len(),
        one_payload_per_topic(msgs),
    ensures
        forall|i: int|
            0 <= i < n ==> publish_pass(m, msgs, n).0.contains_key(#[trigger] msgs[i].0)
                && publish_pass(m, msgs, n).0[msgs[i].0] == msgs[i].1,
    decreases n,
{
    if n > 0 {
        lemma_pass_holds(m, msgs, n - 1);
        let c = publish_pass(m, msgs, n - 1).0;
        let c2 = publish_pass(m, msgs, n).0;
        let last = msgs[n - 1];
        assert forall|i: int| 0 <= i < n implies c2.contains_key(#[trigger] msgs[i].0) && c2[msgs[i].0]
            == msgs[i].1 by {
            if i < n - 1 && msgs[i].0 == last.0 {
                assert(msgs[i].1 == last.1);
            }
        }
    }
}

proof fn lemma_pass_idle(m: Map<Seq<char>, Seq<char>>, msgs: Seq<(Seq<char>, Seq<char>)>, n: int)
    requires
        0 <= n <= msgs.len(),
        forall|i: int| 0 <= i < msgs.len() ==> m.contains_key(#[trigger] msgs[i].0) && m[msgs[i].0] == msgs[i].1,
    ensures
        publish_pass(m, msgs, n) == (m, Seq::<(Seq<char>, Seq<char>)>::empty()),
    decreases n,
{
    if n > 0 {
        lemma_pass_idle(m, msgs, n - 1);
        assert(m.contains_key(msgs[n - 1].0));
    }
}

/// A topic is published only when its payload changed: after a publishing pass the cache
/// holds every message's payload, so a second pass over the same messages sends nothing
/// and leaves the cache as it was (when no two messages carry different payloads on one
/// topic).
pub proof fn law_repeat_pass_sends_nothing(m: Map<Seq<char>, Seq<char>>, msgs: Seq<(Seq<char>, Seq<char>)>)
    requires
        one_payload_per_topic(msgs),
    ensures
        forall|i: int|
            0 <= i < msgs.len() ==> publish_pass(m, msgs, msgs.len() as int).0.contains_key(
                #[trigger] msgs[i].0,
            ) && publish_pass(m, msgs, msgs.len() as int).0[msgs[i].0] == msgs[i].1,
        publish_pass(publish_pass(m, msgs, msgs.len() as int).0, msgs, msgs.len() as int) == (
            publish_pass(m, msgs, msgs.len() as int).0,
            Seq::<(Seq<char>, Seq<char>)>::empty(),
        ),
{
    let n = msgs.len() as int;
    lemma_pass_holds(m, msgs, n);
    lemma_pass_idle(publish_pass(m, msgs, n).0, msgs, n);
}

/// The cache `m` after recording each of `sent`, in order.
pub open spec fn record_all(m: Map<Seq<char>, Seq<char>>, sent: Seq<(Seq<char>, Seq<char>)>) -> Map<Seq<char>, Seq<char>>
    decreases sent.len(),
{
    if sent.len() == 0 {
        m
    } else {
        record_all(m, sent.drop_last()).insert(sent.last().0, sent.last().1)
    }
}

/// Within a pass, the cache is always the starting cache with the messages sent so far
/// recorded in order; so a message is sent exactly when its payload differs from the one
/// last sent on its topic, or, before any was, from the starting cache's.
pub proof fn law_pass_sends_changes(m: Map<Seq<char>, Seq<char>>, msgs: Seq<(Seq<char>, Seq<char>)>, n: int)
    requires
        0 <= n <= msgs.len(),
    ensures
        publish_pass(m, msgs, n).0 == record_all(m, publish_pass(m, msgs, n).1),
        n > 0 ==> (publish_pass(m, msgs, n).1 == if fresh(
            record_all(m, publish_pass(m, msgs, n - 1).1),
            msgs[n - 1].0,
            msgs[n - 1].1,
        ) {
            publish_pass(m, msgs, n - 1).1.push(msgs[n - 1])
        } else {
            publish_pass(m, msgs, n - 1).1
        }),
    decreases n,
{
    if n > 0 {
        law_pass_sends_changes(m, msgs, n - 1);
        let sent = publish_pass(m, msgs, n - 1).1;
        let msg = msgs[n - 1];
        assert(sent.push(msg).drop_last() =~= sent);
    }
}

/// A publishing pass in progress: the cache, the messages of the pass, how far the pass
/// has gone, and whether the message last handed out awaits its sending.
pub struct PublishRound {
    cache: PublishCache,
    msgs: Vec<(String, String)>,
    pos: usize,
    awaiting: bool,
    start: Ghost<Map<Seq<char>, Seq<char>>>,
}

pub struct RoundView {
    /// The cache when the pass began.
    pub start: Map<Seq<char>, Seq<char>>,
    pub msgs: Seq<(Seq<char>, Seq<char>)>,
    /// The messages before this index have been dealt with.
    pub pos: nat,
    /// The message at `pos - 1` was handed out and is not yet recorded as sent.
    pub awaiting: bool,
    pub cache: Map<Seq<char>, Seq<char>>,
}

impl View for PublishRound {
    type V = RoundView;

    closed spec fn view(&self) -> RoundView {
        RoundView {
            start: self.start@,
            msgs: entry_pairs(self.msgs@),
            pos: self.pos as nat,
            awaiting: self.awaiting,
            cache: self.cache@,
        }
    }
}

/// The state of a pass that every handed-out message was sent for: the cache is what
/// [`publish_pass`] leaves after the messages dealt with; while a message awaits its
/// sending, the cache is that of the messages before it, and the message is fresh there.
pub open spec fn round_ok(v: RoundView) -> bool {
    &&& v.pos <= v.msgs.len()
    &&& if v.awaiting {
        &&& v.pos > 0
        &&& v.cache == publish_pass(v.start, v.msgs, v.pos - 1).0
        &&& fresh(v.cache, v.msgs[v.pos - 1].0, v.msgs[v.pos - 1].1)
    } else {
        v.cache == publish_pass(v.start, v.msgs, v.pos as int).0
    }
}

impl PublishRound {
    /// Begins a pass over `msgs` (topic, payload) with `cache`.
    pub fn new(cache: PublishCache, msgs: Vec<(String, String)>) -> (r: PublishRound)
        ensures
            r@ == (RoundView {
                start: cache@,
                msgs: entry_pairs(msgs@),
                pos: 0,
                awaiting: false,
                cache: cache@,
            }),
            round_ok(r@),
    {
        let ghost start = cache@;
        PublishRound { cache, msgs, pos: 0, awaiting: false, start: Ghost(start) }
    }

    /// The next message of the pass that is fresh, to be sent; the ones before it are not
    /// fresh and are passed over. Nothing when the pass has no fresh message left.
    pub fn next(&mut self) -> (r: Option<(String, String)>)
        requires
            round_ok(old(self)@),
            !old(self)@.awaiting,
        ensures
            round_ok(final(self)@),
            final(self)@.start == old(self)@.start,
            final(self)@.msgs == old(self)@.msgs,
            final(self)@.cache == old(self)@.cache,
            old(self)@.pos <= final(self)@.pos,
            forall|j: int|
                old(self)@.pos <= j < final(self)@.pos - (if final(self)@.awaiting {
                    1int
                } else {
                    0int
                }) ==> !fresh(old(self)@.cache, #[trigger] old(self)@.msgs[j].0, old(self)@.msgs[j].1),
            match r {
                Some(m) => final(self)@.awaiting && (m.0@, m.1@) == final(self)@.msgs[final(self)@.pos - 1],
                None => !final(self)@.awaiting && final(self)@.pos == final(self)@.msgs.len(),
            },
    {
        let ghost v0 = self@;
        while self.pos < self.msgs.len()
            invariant
                v0 == old(self)@,
                round_ok(self@),
                !self@.awaiting,
                self@.start == v0.start,
                self@.msgs == v0.msgs,
                self@.cache == v0.cache,
                v0.pos <= self@.pos,
                forall|j: int| v0.pos <= j < self@.pos ==> !fresh(v0.cache, #[trigger] v0.msgs[j].0, v0.msgs[j].1),
            decreases self.msgs.len() - self.pos,
        {
            let k = self.pos;
            proof {
                assert(self@.msgs[k as int] == (self.msgs@[k as int].0@, self.msgs@[k as int].1@));
            }
            let is_new = self.cache.is_fresh(self.msgs[k].0.as_str(), self.msgs[k].1.as_str());
            self.pos = k + 1;
            if is_new {
                self.awaiting = true;
                let t = self.msgs[k].0.clone();
                let p = self.msgs[k].1.clone();
                return Some((t, p));
            }
        }
        None
    }

    /// The message last handed out was sent: it is recorded.
    pub fn sent(&mut self)
        requires
            round_ok(old(self)@),
            old(self)@.awaiting,
        ensures
            round_ok(final(self)@),
            !final(self)@.awaiting,
            final(self)@.start == old(self)@.start,
            final(self)@.msgs == old(self)@.msgs,
            final(self)@.pos == old(self)@.pos,
            final(self)@.cache == old(self)@.cache.insert(
                old(self)@.msgs[old(self)@.pos - 1].0,
                old(self)@.msgs[old(self)@.pos - 1].1,
            ),
    {
        let k = self.pos - 1;
        proof {
            assert(self@.msgs[k as int] == (self.msgs@[k as int].0@, self.msgs@[k as int].1@));
        }
        let t = self.msgs[k].0.clone();
        let p = self.msgs[k].1.clone();
        self.cache.record(t.as_str(), p.as_str());
        self.awaiting = false;
    }

    /// Ends the pass and gives the cache back.
    pub fn finish(self) -> (c: PublishCache)
        ensures
            c@ == self@.cache,
    {
        self.cache
    }
}

/// Publishing the same messages twice: once a pass has sent every message it handed out,
/// a pass over the same messages with the cache it left hands out nothing (when no two
/// messages carry different payloads on one topic).
pub proof fn law_second_round_sends_nothing(first: RoundView, msgs: Seq<(Seq<char>, Seq<char>)>)
    requires
        round_ok(first),
        !first.awaiting,
        first.pos == first.msgs.len(),
        first.msgs == msgs,
        one_payload_per_topic(msgs),
    ensures
        forall|j: int| 0 <= j < msgs.len() ==> !fresh(first.cache, #[trigger] msgs[j].0, msgs[j].1),
{
    law_repeat_pass_sends_nothing(first.start, msgs);
}

/// Each monitoring level adds cell sensors to the one below it: low reports voltage,
/// medium adds temperature, high adds current.
pub proof fn law_cell_metrics_grow_with_level()
    ensures
        cell_metrics(MonitoringLevel::Low).len() == 1,
        cell_metrics(MonitoringLevel::Medium).take(1) == cell_metrics(MonitoringLevel::Low),
        cell_metrics(MonitoringLevel::High).take(2) == cell_metrics(MonitoringLevel::Medium),
        cell_metrics(MonitoringLevel::High).len() == 3,
        cell_metrics(MonitoringLevel::Off).len() == 0,
{
    assert(cell_metrics(MonitoringLevel::Medium).take(1) =~= cell_metrics(MonitoringLevel::Low));
    assert(cell_metrics(MonitoringLevel::High).take(2) =~= cell_metrics(MonitoringLevel::Medium));
}

proof fn lemma_power_sensors_len(dev: Seq<char>, n: int)
    requires
        n >= 0,
    ensures
        power_sensors(dev, n).len() == 4 * n,
    decreases n,
{
    if n > 0 {
        lemma_power_sensors_len(dev, n - 1);
    }
}

proof fn lemma_pack_cell_sensors_len(dev: Seq<char>, p: nat, n: int, ms: Seq<MetricView>)
    requires
        n >= 0,
    ensures
        pack_cell_sensors(dev, p, n, ms).len() == n * ms.len(),
    decreases n,
{
    if n > 0 {
        lemma_pack_cell_sensors_len(dev, p, n - 1, ms);
        assert((n - 1) * ms.len() + ms.len() == n * ms.len()) by (nonlinear_arith);
    } else {
        assert(n * ms.len() == 0) by (nonlinear_arith)
            requires
                n == 0,
        ;
    }
}

proof fn lemma_cell_sensors_len(dev: Seq<char>, cells: nat, n: int, ms: Seq<MetricView>)
    requires
        n >= 0,
    ensures
        cell_sensors(dev, cells, n, ms).len() == n * (cells * ms.len()),
    decreases n,
{
    if n > 0 {
        lemma_cell_sensors_len(dev, cells, n - 1, ms);
        lemma_pack_cell_sensors_len(dev, (n - 1) as nat, cells as int, ms);
        assert((n - 1) * (cells * ms.len()) + cells * ms.len() == n * (cells * ms.len()))
            by (nonlinear_arith);
    } else {
        assert(n * (cells * ms.len()) == 0) by (nonlinear_arith)
            requires
                n == 0,
        ;
    }
}

/// Discovery announces 13 bank sensors, 4 per pack and, with cell monitoring on, one per
/// cell metric of the level for every cell of every pack.
pub proof fn law_discovery_count(dev: Seq<char>, powers: u32, cells: u32, cells_monitoring: bool, level: MonitoringLevel)
    ensures
        discovery_plan(dev, powers, cells, cells_monitoring, level).len() == 13 + 4 * powers + (
        if cells_monitoring && level != MonitoringLevel::Off {
            powers * (cells * cell_metrics(level).len())
        } else {
            0
        }),
{
    lemma_power_sensors_len(dev, powers as int);
    lemma_cell_sensors_len(dev, cells as nat, powers as int, cell_metrics(level));
}

proof fn lemma_pack_message_at(dev: Seq<char>, pwr: Seq<PowerData>, n: int, i: int)
    requires
        0 <= n <= pwr.len(),
        0 <= i < 2 * n,
    ensures
        pack_messages(dev, pwr, n).len() == 2 * n,
        pack_messages(dev, pwr, n)[i].topic == pack_topic_of(
            dev,
            (pwr[i / 2].power - 1) as nat,
            if i % 2 == 0 {
                "voltage"@
            } else {
                "current"@
            },
        ),
    decreases n,
{
    lemma_pack_messages_len(dev, pwr, n - 1);
    if i < 2 * (n - 1) {
        lemma_pack_message_at(dev, pwr, n - 1, i);
    }
}

proof fn lemma_pack_messages_len(dev: Seq<char>, pwr: Seq<PowerData>, n: int)
    requires
        0 <= n <= pwr.len(),
    ensures
        pack_messages(dev, pwr, n).len() == 2 * n,
    decreases n,
{
    if n > 0 {
        lemma_pack_messages_len(dev, pwr, n - 1);
    }
}

proof fn lemma_power_sensor_at(dev: Seq<char>, n: int, p: int, mi: int)
    requires
        0 <= p < n,
        0 <= mi < 4,
    ensures
        power_sensors(dev, n)[4 * p + mi] == power_sensor(dev, p as nat, power_metrics()[mi]),
    decreases n,
{
    lemma_power_sensors_len(dev, n - 1);
    if p < n - 1 {
        lemma_power_sensor_at(dev, n - 1, p, mi);
    }
}

/// Every pack value that a polling cycle publishes goes to a topic that discovery
/// announced, when the packs are numbered within the configured number of packs.
pub proof fn law_pack_values_are_announced(
    dev: Seq<char>,
    powers: u32,
    cells: u32,
    cells_monitoring: bool,
    level: MonitoringLevel,
    pwr: Seq<PowerData>,
    i: int,
)
    requires
        0 <= i < pack_messages(dev, pwr, pwr.len() as int).len(),
        forall|k: int| 0 <= k < pwr.len() ==> 1 <= #[trigger] pwr[k].power <= powers,
    ensures
        exists|s: int|
            0 <= s < discovery_plan(dev, powers, cells, cells_monitoring, level).len()
                && #[trigger] discovery_plan(dev, powers, cells, cells_monitoring, level)[s].state_topic
                == pack_messages(dev, pwr, pwr.len() as int)[i].topic,
{
    let n = pwr.len() as int;
    lemma_pack_messages_len(dev, pwr, n);
    lemma_pack_message_at(dev, pwr, n, i);
    let k = i / 2;
    assert(1 <= pwr[k].power <= powers);
    let p = pwr[k].power - 1;
    let mi = i % 2;
    lemma_power_sensor_at(dev, powers as int, p, mi);
    lemma_power_sensors_len(dev, powers as int);
    let plan = discovery_plan(dev, powers, cells, cells_monitoring, level);
    let s = 13 + 4 * p + mi;
    assert(system_sensors(dev).len() == 13);
    assert(plan[s] == power_sensors(dev, powers as int)[4 * p + mi]);
    assert(plan[s].state_topic == pack_messages(dev, pwr, n)[i].topic);
}


proof fn lemma_pack_message_values(dev: Seq<char>, pwr: Seq<PowerData>, n: int, k: int)
    requires
        0 <= k < n <= pwr.len(),
    ensures
        pack_messages(dev, pwr, n).len() == 2 * n,
        pack_messages(dev, pwr, n)[2 * k] == message(
            pack_topic_of(dev, (pwr[k].power - 1) as nat, "voltage"@),
            Figure::Milli(pwr[k].voltage),
        ),
        pack_messages(dev, pwr, n)[2 * k + 1] == message(
            pack_topic_of(dev, (pwr[k].power - 1) as nat, "current"@),
            Figure::Milli(pwr[k].current),
        ),
    decreases n,
{
    lemma_pack_messages_len(dev, pwr, n - 1);
    if k < n - 1 {
        lemma_pack_message_values(dev, pwr, n - 1, k);
    }
}

/// Each pack's voltage goes to its voltage topic and its current to its current topic,
/// pack after pack in the order of the list, right after the bank's figures.
pub proof fn law_pack_messages_carry_readings(
    dev: Seq<char>,
    a: AggregateView,
    pwr: Seq<PowerData>,
    packs: Seq<CellPack>,
    events: EventsSummary,
    k: int,
)
    requires
        0 <= k < pwr.len(),
    ensures
        ({
            let plan = runtime_plan(dev, a, pwr, packs, events);
            let b = bank_messages(dev, a).len();
            &&& plan[b + 2 * k] == message(
                pack_topic_of(dev, (pwr[k].power - 1) as nat, "voltage"@),
                Figure::Milli(pwr[k].voltage),
            )
            &&& plan[b + 2 * k + 1] == message(
                pack_topic_of(dev, (pwr[k].power - 1) as nat, "current"@),
                Figure::Milli(pwr[k].current),
            )
        }),
{
    lemma_pack_message_values(dev, pwr, pwr.len() as int, k);
}

/// The bank's figures come first: its current, voltage, charge and temperature, each on
/// its own topic and each only when known; the event counters come last.
pub proof fn law_bank_messages_and_events(
    dev: Seq<char>,
    a: AggregateView,
    pwr: Seq<PowerData>,
    packs: Seq<CellPack>,
    events: EventsSummary,
)
    ensures
        ({
            let plan = runtime_plan(dev, a, pwr, packs, events);
            &&& plan.last() == message(state_topic_of(dev, "events"@), Figure::Events(events))
            &&& (a.current is Some && a.voltage is Some && a.soc is Some && a.temperature is Some) ==> {
                &&& plan[0] == message(state_topic_of(dev, "current"@), Figure::Mean(a.current->0))
                &&& plan[1] == message(state_topic_of(dev, "voltage"@), Figure::Mean(a.voltage->0))
                &&& plan[2] == message(state_topic_of(dev, "soc"@), Figure::Whole(a.soc->0))
                &&& plan[3] == message(state_topic_of(dev, "temperature"@), Figure::Mean(a.temperature->0))
            }
            &&& (a.current is None && a.voltage is None && a.soc is None && a.temperature is None)
                ==> bank_messages(dev, a).len() == 0
        }),
{
}

/// A cell publishes its voltage on its voltage topic and, when it was read, its
/// temperature on its temperature topic, nothing else; packs and cells numbered from one
/// go to topics numbered from zero.
pub proof fn law_cell_messages(dev: Seq<char>, power: u32, c: CellData)
    ensures
        one_cell_messages(dev, power, c).len() == (if c.temperature is Some {
            2int
        } else {
            1int
        }),
        one_cell_messages(dev, power, c)[0] == message(
            cell_topic_of(dev, (power - 1) as nat, (c.cell - 1) as nat, "voltage"@),
            Figure::Milli(c.voltage),
        ),
        forall|t: i32| c.temperature == Some(t) ==> one_cell_messages(dev, power, c)[1] == message(
            cell_topic_of(dev, (power - 1) as nat, (c.cell - 1) as nat, "temperature"@),
            Figure::Milli(t),
        ),
{
}

/// What discovery announces for a bank-wide value: uniq id `<dev>_<id>`, the display name,
/// state topic `pytes_serial/<dev>/<id>`, and the unit and device class.
pub open spec fn bank_sensor_expected(dev: Seq<char>, id: Seq<char>, name: Seq<char>, unit: Seq<char>, class: Seq<char>) -> SensorView {
    SensorView {
        topic: config_topic_of(dev, dev + "_"@ + id),
        uniq_id: dev + "_"@ + id,
        name,
        state_topic: "pytes_serial/"@ + dev + "/"@ + id,
        device_class: class,
        unit,
    }
}

/// Discovery first announces the bank sensors that the README lists, in its order: current
/// (A), voltage (V), charge (%), temperature (°C), remaining and full-charge capacity (AH),
/// health (%), highest, lowest and average cell voltage (V) and cell temperature (°C).
pub proof fn law_bank_sensors(dev: Seq<char>, powers: u32, cells: u32, cells_monitoring: bool, level: MonitoringLevel)
    ensures
        discovery_plan(dev, powers, cells, cells_monitoring, level)[0] == bank_sensor_expected(dev, "current"@, "Current"@, "A"@, "current"@),
        discovery_plan(dev, powers, cells, cells_monitoring, level)[1] == bank_sensor_expected(dev, "voltage"@, "Voltage"@, "V"@, "voltage"@),
        discovery_plan(dev, powers, cells, cells_monitoring, level)[2] == bank_sensor_expected(dev, "soc"@, "SOC"@, "%"@, "battery"@),
        discovery_plan(dev, powers, cells, cells_monitoring, level)[3] == bank_sensor_expected(dev, "temperature"@, "Temperature"@, "°C"@, "temperature"@),
        discovery_plan(dev, powers, cells, cells_monitoring, level)[4] == bank_sensor_expected(dev, "system_rc"@, "Remaining Capacity"@, "AH"@, "battery"@),
        discovery_plan(dev, powers, cells, cells_monitoring, level)[5] == bank_sensor_expected(dev, "system_fcc"@, "Full Charge Capacity"@, "AH"@, "battery"@),
        discovery_plan(dev, powers, cells, cells_monitoring, level)[6] == bank_sensor_expected(dev, "soh"@, "System SOH"@, "%"@, "battery"@),
        discovery_plan(dev, powers, cells, cells_monitoring, level)[7] == bank_sensor_expected(dev, "highest_voltage"@, "Highest Cell Voltage"@, "V"@, "voltage"@),
        discovery_plan(dev, powers, cells, cells_monitoring, level)[8] == bank_sensor_expected(dev, "lowest_voltage"@, "Lowest Cell Voltage"@, "V"@, "voltage"@),
        discovery_plan(dev, powers, cells, cells_monitoring, level)[9] == bank_sensor_expected(dev, "average_voltage"@, "Average Cell Voltage"@, "V"@, "voltage"@),
        discovery_plan(dev, powers, cells, cells_monitoring, level)[10] == bank_sensor_expected(dev, "highest_temp"@, "Highest Cell Temp"@, "°C"@, "temperature"@),
        discovery_plan(dev, powers, cells, cells_monitoring, level)[11] == bank_sensor_expected(dev, "lowest_temp"@, "Lowest Cell Temp"@, "°C"@, "temperature"@),
        discovery_plan(dev, powers, cells, cells_monitoring, level)[12] == bank_sensor_expected(dev, "average_temp"@, "Average Cell Temp"@, "°C"@, "temperature"@),
{
    lemma_power_sensors_len(dev, powers as int);
}

/// Then, for each pack `p` (numbered from zero), its voltage (V), current (A), temperature
/// (°C) and charge (%) sensors: uniq id `<dev>_<id>_<p+1>`, name `<Name>_<p+1>`, state
/// topic that of the pack's value.
pub proof fn law_pack_sensors(
    dev: Seq<char>,
    powers: u32,
    cells: u32,
    cells_monitoring: bool,
    level: MonitoringLevel,
    p: int,
)
    requires
        0 <= p < powers,
    ensures
        ({
            let plan = discovery_plan(dev, powers, cells, cells_monitoring, level);
            let n = decimal((p + 1) as nat);
            &&& plan[13 + 4 * p] == sensor(dev, dev + "_voltage_"@ + n, "Voltage_"@ + n, pack_topic_of(dev, p as nat, "voltage"@), metric("voltage"@, "Voltage"@, "V"@, "voltage"@))
            &&& plan[13 + 4 * p + 1] == sensor(dev, dev + "_current_"@ + n, "Current_"@ + n, pack_topic_of(dev, p as nat, "current"@), metric("current"@, "Current"@, "A"@, "current"@))
            &&& plan[13 + 4 * p + 2] == sensor(dev, dev + "_temperature_"@ + n, "Temperature_"@ + n, pack_topic_of(dev, p as nat, "temperature"@), metric("temperature"@, "Temperature"@, "°C"@, "temperature"@))
            &&& plan[13 + 4 * p + 3] == sensor(dev, dev + "_soc_"@ + n, "SOC_"@ + n, pack_topic_of(dev, p as nat, "soc"@), metric("soc"@, "SOC"@, "%"@, "battery"@))
        }),
{
    lemma_power_sensors_len(dev, powers as int);
    let n = decimal((p + 1) as nat);
    reveal_strlit("_");
    reveal_strlit("_voltage_");
    reveal_strlit("_current_");
    reveal_strlit("_temperature_");
    reveal_strlit("_soc_");
    reveal_strlit("voltage");
    reveal_strlit("current");
    reveal_strlit("temperature");
    reveal_strlit("soc");
    reveal_strlit("Voltage_");
    reveal_strlit("Voltage");
    reveal_strlit("Current_");
    reveal_strlit("Current");
    reveal_strlit("Temperature_");
    reveal_strlit("Temperature");
    reveal_strlit("SOC_");
    reveal_strlit("SOC");
    lemma_power_sensor_at(dev, powers as int, p, 0);
    lemma_power_sensor_at(dev, powers as int, p, 1);
    lemma_power_sensor_at(dev, powers as int, p, 2);
    lemma_power_sensor_at(dev, powers as int, p, 3);
    let plan = discovery_plan(dev, powers, cells, cells_monitoring, level);
    assert(plan[13 + 4 * p] == power_sensors(dev, powers as int)[4 * p + 0]);
    assert(plan[13 + 4 * p + 1] == power_sensors(dev, powers as int)[4 * p + 1]);
    assert(plan[13 + 4 * p + 2] == power_sensors(dev, powers as int)[4 * p + 2]);
    assert(plan[13 + 4 * p + 3] == power_sensors(dev, powers as int)[4 * p + 3]);
    assert(dev + "_"@ + "voltage"@ + "_"@ + n =~= dev + "_voltage_"@ + n);
    assert(dev + "_"@ + "current"@ + "_"@ + n =~= dev + "_current_"@ + n);
    assert(dev + "_"@ + "temperature"@ + "_"@ + n =~= dev + "_temperature_"@ + n);
    assert(dev + "_"@ + "soc"@ + "_"@ + n =~= dev + "_soc_"@ + n);
    assert("Voltage"@ + "_"@ + n =~= "Voltage_"@ + n);
    assert("Current"@ + "_"@ + n =~= "Current_"@ + n);
    assert("Temperature"@ + "_"@ + n =~= "Temperature_"@ + n);
    assert("SOC"@ + "_"@ + n =~= "SOC_"@ + n);
}
} // verus!
