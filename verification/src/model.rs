//! The records that the console parsers fill in. Electrical and thermal readings are
//! kept as the integers the console prints: thousandths of a volt, an ampere or a
//! degree Celsius.

use vstd::prelude::*;
use crate::text::{eq_str, is_upper, lower, lower_chars, ascii_lower};

verus! {

/// The text held in an optional string.
pub open spec fn opt_view(o: Option<String>) -> Option<Seq<char>> {
    match o {
        Some(s) => Some(s@),
        None => None,
    }
}

/// One battery pack's `pwr` report (plus the cycle count that `stat` adds).
#[derive(Debug)]
pub struct PowerData {
    pub power: u32,
    /// Pack voltage, in thousandths of a volt.
    pub voltage: i32,
    /// Pack current, in thousandths of an ampere.
    pub current: i32,
    /// Pack temperature, in thousandths of a degree Celsius.
    pub temperature: i32,
    pub soc: u32,
    pub basic_st: String,
    pub volt_st: Option<String>,
    pub current_st: Option<String>,
    pub temp_st: Option<String>,
    pub soh_st: Option<String>,
    pub coul_st: Option<String>,
    pub heater_st: Option<String>,
    pub bat_events: Option<u64>,
    pub power_events: Option<u64>,
    pub sys_events: Option<u64>,
    pub cycle_times: Option<u64>,
}

/// The mathematical content of a [`PowerData`].
pub struct PowerView {
    pub power: u32,
    pub voltage: i32,
    pub current: i32,
    pub temperature: i32,
    pub soc: u32,
    pub basic_st: Seq<char>,
    pub volt_st: Option<Seq<char>>,
    pub current_st: Option<Seq<char>>,
    pub temp_st: Option<Seq<char>>,
    pub soh_st: Option<Seq<char>>,
    pub coul_st: Option<Seq<char>>,
    pub heater_st: Option<Seq<char>>,
    pub bat_events: Option<u64>,
    pub power_events: Option<u64>,
    pub sys_events: Option<u64>,
    pub cycle_times: Option<u64>,
}

impl View for PowerData {
    type V = PowerView;

    open spec fn view(&self) -> PowerView {
        PowerView {
            power: self.power,
            voltage: self.voltage,
            current: self.current,
            temperature: self.temperature,
            soc: self.soc,
            basic_st: self.basic_st@,
            volt_st: opt_view(self.volt_st),
            current_st: opt_view(self.current_st),
            temp_st: opt_view(self.temp_st),
            soh_st: opt_view(self.soh_st),
            coul_st: opt_view(self.coul_st),
            heater_st: opt_view(self.heater_st),
            bat_events: self.bat_events,
            power_events: self.power_events,
            sys_events: self.sys_events,
            cycle_times: self.cycle_times,
        }
    }
}

/// A pack record that holds nothing but its number.
pub open spec fn blank_power(power: u32) -> PowerView {
    PowerView {
        power,
        voltage: 0,
        current: 0,
        temperature: 0,
        soc: 0,
        basic_st: seq![],
        volt_st: None,
        current_st: None,
        temp_st: None,
        soh_st: None,
        coul_st: None,
        heater_st: None,
        bat_events: None,
        power_events: None,
        sys_events: None,
        cycle_times: None,
    }
}

impl PowerData {
    /// A record for pack `power` with every reading zero or absent.
    pub fn new(power: u32) -> (d: PowerData)
        ensures
            d@ == blank_power(power),
    {
        PowerData {
            power,
            voltage: 0,
            current: 0,
            temperature: 0,
            soc: 0,
            basic_st: String::new(),
            volt_st: None,
            current_st: None,
            temp_st: None,
            soh_st: None,
            coul_st: None,
            heater_st: None,
            bat_events: None,
            power_events: None,
            sys_events: None,
            cycle_times: None,
        }
    }
}

/// The whole system's `pwrsys` report.
#[derive(Debug, Clone, Copy, Default, PartialEq, Eq, Structural)]
pub struct PwrsysData {
    pub banks_total: u32,
    pub banks_current: u32,
    pub banks_sleep: u32,
    /// Thousandths of a volt.
    pub system_voltage: i32,
    /// Thousandths of an ampere.
    pub system_current: i32,
    /// Remaining capacity, in thousandths of an ampere-hour.
    pub system_rc: i32,
    /// Full-charge capacity, in thousandths of an ampere-hour.
    pub system_fcc: i32,
    pub system_soc: u32,
    pub system_soh: u32,
    pub system_highest_voltage: i32,
    pub system_average_voltage: i32,
    pub system_lowest_voltage: i32,
    pub system_highest_temp: i32,
    pub system_average_temp: i32,
    pub system_lowest_temp: i32,
    pub system_recommend_chg_volt: i32,
    pub system_recommend_dsg_volt: i32,
    pub system_recommend_chg_curr: i32,
    pub system_recommend_dsg_curr: i32,
}

pub open spec fn zero_pwrsys() -> PwrsysData {
    PwrsysData {
        banks_total: 0,
        banks_current: 0,
        banks_sleep: 0,
        system_voltage: 0,
        system_current: 0,
        system_rc: 0,
        system_fcc: 0,
        system_soc: 0,
        system_soh: 0,
        system_highest_voltage: 0,
        system_average_voltage: 0,
        system_lowest_voltage: 0,
        system_highest_temp: 0,
        system_average_temp: 0,
        system_lowest_temp: 0,
        system_recommend_chg_volt: 0,
        system_recommend_dsg_volt: 0,
        system_recommend_chg_curr: 0,
        system_recommend_dsg_curr: 0,
    }
}

impl PwrsysData {
    /// A report with every reading zero.
    pub fn zeroed() -> (d: PwrsysData)
        ensures
            d == zero_pwrsys(),
    {
        PwrsysData {
            banks_total: 0,
            banks_current: 0,
            banks_sleep: 0,
            system_voltage: 0,
            system_current: 0,
            system_rc: 0,
            system_fcc: 0,
            system_soc: 0,
            system_soh: 0,
            system_highest_voltage: 0,
            system_average_voltage: 0,
            system_lowest_voltage: 0,
            system_highest_temp: 0,
            system_average_temp: 0,
            system_lowest_temp: 0,
            system_recommend_chg_volt: 0,
            system_recommend_dsg_volt: 0,
            system_recommend_chg_curr: 0,
            system_recommend_dsg_curr: 0,
        }
    }
}

/// One cell's line of a `bat` report.
#[derive(Debug)]
pub struct CellData {
    pub power: u32,
    pub cell: u32,
    /// Thousandths of a volt.
    pub voltage: i32,
    /// Thousandths of a degree Celsius.
    pub temperature: Option<i32>,
    /// Thousandths of an ampere.
    pub current: Option<i32>,
    pub basic_st: Option<String>,
    pub volt_st: Option<String>,
    pub curr_st: Option<String>,
    pub temp_st: Option<String>,
    pub soc: Option<u32>,
    /// Thousandths of an ampere-hour.
    pub coulomb: Option<i32>,
}

/// The mathematical content of a [`CellData`].
pub struct CellView {
    pub power: u32,
    pub cell: u32,
    pub voltage: i32,
    pub temperature: Option<i32>,
    pub current: Option<i32>,
    pub basic_st: Option<Seq<char>>,
    pub volt_st: Option<Seq<char>>,
    pub curr_st: Option<Seq<char>>,
    pub temp_st: Option<Seq<char>>,
    pub soc: Option<u32>,
    pub coulomb: Option<i32>,
}

impl View for CellData {
    type V = CellView;

    open spec fn view(&self) -> CellView {
        CellView {
            power: self.power,
            cell: self.cell,
            voltage: self.voltage,
            temperature: self.temperature,
            current: self.current,
            basic_st: opt_view(self.basic_st),
            volt_st: opt_view(self.volt_st),
            curr_st: opt_view(self.curr_st),
            temp_st: opt_view(self.temp_st),
            soc: self.soc,
            coulomb: self.coulomb,
        }
    }
}

/// The cells of one pack, with the spread of their voltages.
#[derive(Debug)]
pub struct CellPack {
    pub power: u32,
    /// Highest minus lowest cell voltage, in thousandths of a volt.
    pub voltage_delta: Option<i64>,
    pub voltage_min: Option<i32>,
    pub voltage_max: Option<i32>,
    pub temperature_delta: Option<i64>,
    pub temperature_min: Option<i32>,
    pub temperature_max: Option<i32>,
    pub cells: Vec<CellData>,
}

/// The mathematical content of a [`CellPack`].
pub struct CellPackView {
    pub power: u32,
    pub voltage_delta: Option<i64>,
    pub voltage_min: Option<i32>,
    pub voltage_max: Option<i32>,
    pub temperature_delta: Option<i64>,
    pub temperature_min: Option<i32>,
    pub temperature_max: Option<i32>,
    pub cells: Seq<CellView>,
}

impl View for CellPack {
    type V = CellPackView;

    open spec fn view(&self) -> CellPackView {
        CellPackView {
            power: self.power,
            voltage_delta: self.voltage_delta,
            voltage_min: self.voltage_min,
            voltage_max: self.voltage_max,
            temperature_delta: self.temperature_delta,
            temperature_min: self.temperature_min,
            temperature_max: self.temperature_max,
            cells: self.cells@.map_values(|c: CellData| c@),
        }
    }
}

/// How much per-cell detail is polled and published (`Off`: none).
#[derive(Debug, Clone, Copy, PartialEq, Eq, Structural)]
pub enum MonitoringLevel {
    Off,
    Low,
    Medium,
    High,
}

/// The level that a configuration word names, its case ignored; anything else is `None`.
pub open spec fn level_named(s: Seq<char>) -> MonitoringLevel {
    let l = ascii_lower(s);
    if l == "low"@ {
        MonitoringLevel::Low
    } else if l == "medium"@ {
        MonitoringLevel::Medium
    } else if l == "high"@ {
        MonitoringLevel::High
    } else {
        MonitoringLevel::Off
    }
}

impl MonitoringLevel {
    pub fn from_str(s: &str) -> (l: MonitoringLevel)
        ensures
            l == level_named(s@),
    {
        let low = lower_chars(&crate::text::chars_of(s));
        if eq_str(&low, "low") {
            MonitoringLevel::Low
        } else if eq_str(&low, "medium") {
            MonitoringLevel::Medium
        } else if eq_str(&low, "high") {
            MonitoringLevel::High
        } else {
            MonitoringLevel::Off
        }
    }

    /// Cell temperatures (and the voltage spread) are read at this level.
    pub open spec fn spec_reads_temperature(self) -> bool {
        self == MonitoringLevel::Medium || self == MonitoringLevel::High
    }

    #[verifier::when_used_as_spec(spec_reads_temperature)]
    pub fn reads_temperature(self) -> (b: bool)
        ensures
            b == self.spec_reads_temperature(),
    {
        self == MonitoringLevel::Medium || self == MonitoringLevel::High
    }
}


/// A reading in thousandths, kept exact: `total / count` thousandths (`count` is at least one).
#[derive(Debug, Clone, Copy, PartialEq, Eq, Structural)]
pub struct Reading {
    pub total: i128,
    pub count: u64,
}

/// A single reading of `v` thousandths.
pub open spec fn single(v: int) -> Reading {
    Reading { total: v as i128, count: 1 }
}

/// The figures published for the whole battery bank.
#[derive(Debug)]
pub struct Aggregate {
    /// When the figures were put together, in milliseconds since the Unix epoch (UTC).
    pub relay_local_time: i64,
    pub powers: Option<u32>,
    pub powers_total: Option<u32>,
    pub powers_sleep: Option<u32>,
    pub voltage: Option<Reading>,
    pub current: Option<Reading>,
    pub system_rc: Option<i32>,
    pub system_fcc: Option<i32>,
    pub temperature: Option<Reading>,
    pub soc: Option<u32>,
    pub soh: Option<u32>,
    pub highest_voltage: Option<i32>,
    pub average_voltage: Option<i32>,
    pub lowest_voltage: Option<i32>,
    pub highest_temp: Option<i32>,
    pub average_temp: Option<i32>,
    pub lowest_temp: Option<i32>,
    pub recommend_chg_volt: Option<i32>,
    pub recommend_dsg_volt: Option<i32>,
    pub recommend_chg_curr: Option<i32>,
    pub recommend_dsg_curr: Option<i32>,
    pub basic_st: Option<String>,
}

/// The mathematical content of an [`Aggregate`].
pub struct AggregateView {
    pub relay_local_time: i64,
    pub powers: Option<u32>,
    pub powers_total: Option<u32>,
    pub powers_sleep: Option<u32>,
    pub voltage: Option<Reading>,
    pub current: Option<Reading>,
    pub system_rc: Option<i32>,
    pub system_fcc: Option<i32>,
    pub temperature: Option<Reading>,
    pub soc: Option<u32>,
    pub soh: Option<u32>,
    pub highest_voltage: Option<i32>,
    pub average_voltage: Option<i32>,
    pub lowest_voltage: Option<i32>,
    pub highest_temp: Option<i32>,
    pub average_temp: Option<i32>,
    pub lowest_temp: Option<i32>,
    pub recommend_chg_volt: Option<i32>,
    pub recommend_dsg_volt: Option<i32>,
    pub recommend_chg_curr: Option<i32>,
    pub recommend_dsg_curr: Option<i32>,
    pub basic_st: Option<Seq<char>>,
}

impl View for Aggregate {
    type V = AggregateView;

    open spec fn view(&self) -> AggregateView {
        AggregateView {
            relay_local_time: self.relay_local_time,
            powers: self.powers,
            powers_total: self.powers_total,
            powers_sleep: self.powers_sleep,
            voltage: self.voltage,
            current: self.current,
            system_rc: self.system_rc,
            system_fcc: self.system_fcc,
            temperature: self.temperature,
            soc: self.soc,
            soh: self.soh,
            highest_voltage: self.highest_voltage,
            average_voltage: self.average_voltage,
            lowest_voltage: self.lowest_voltage,
            highest_temp: self.highest_temp,
            average_temp: self.average_temp,
            lowest_temp: self.lowest_temp,
            recommend_chg_volt: self.recommend_chg_volt,
            recommend_dsg_volt: self.recommend_dsg_volt,
            recommend_chg_curr: self.recommend_chg_curr,
            recommend_dsg_curr: self.recommend_dsg_curr,
            basic_st: opt_view(self.basic_st),
        }
    }
}

/// Sum of the first `n` pack voltages.
pub open spec fn sum_voltage(pwr: Seq<PowerData>, n: int) -> int
    decreases n,
{
    if n <= 0 {
        0
    } else {
        sum_voltage(pwr, n - 1) + pwr[n - 1].voltage
    }
}

/// Sum of the first `n` pack currents.
pub open spec fn sum_current(pwr: Seq<PowerData>, n: int) -> int
    decreases n,
{
    if n <= 0 {
        0
    } else {
        sum_current(pwr, n - 1) + pwr[n - 1].current
    }
}

/// Sum of the first `n` pack temperatures.
pub open spec fn sum_temperature(pwr: Seq<PowerData>, n: int) -> int
    decreases n,
{
    if n <= 0 {
        0
    } else {
        sum_temperature(pwr, n - 1) + pwr[n - 1].temperature
    }
}

/// Sum of the first `n` pack states of charge.
pub open spec fn sum_soc(pwr: Seq<PowerData>, n: int) -> int
    decreases n,
{
    if n <= 0 {
        0
    } else {
        sum_soc(pwr, n - 1) + pwr[n - 1].soc
    }
}

/// The bank figures at time `t`: the system report's figures when there is one, else
/// the packs' mean voltage and temperature, total current and (integer) mean charge.
pub open spec fn aggregate_at(t: i64, pwr: Seq<PowerData>, pwrsys: Option<PwrsysData>) -> AggregateView {
    let n = pwr.len() as int;
    let basic = if n > 0 {
        Some(pwr[0].basic_st@)
    } else {
        None
    };
    match pwrsys {
        Some(sys) => AggregateView {
            relay_local_time: t,
            powers: Some(sys.banks_current),
            powers_total: Some(sys.banks_total),
            powers_sleep: Some(sys.banks_sleep),
            voltage: Some(single(sys.system_voltage as int)),
            current: Some(single(sys.system_current as int)),
            system_rc: Some(sys.system_rc),
            system_fcc: Some(sys.system_fcc),
            temperature: Some(single(sys.system_average_temp as int)),
            soc: Some(sys.system_soc),
            soh: Some(sys.system_soh),
            highest_voltage: Some(sys.system_highest_voltage),
            average_voltage: Some(sys.system_average_voltage),
            lowest_voltage: Some(sys.system_lowest_voltage),
            highest_temp: Some(sys.system_highest_temp),
            average_temp: Some(sys.system_average_temp),
            lowest_temp: Some(sys.system_lowest_temp),
            recommend_chg_volt: Some(sys.system_recommend_chg_volt),
            recommend_dsg_volt: Some(sys.system_recommend_dsg_volt),
            recommend_chg_curr: Some(sys.system_recommend_chg_curr),
            recommend_dsg_curr: Some(sys.system_recommend_dsg_curr),
            basic_st: basic,
        },
        None => AggregateView {
            relay_local_time: t,
            powers: Some(pwr.len() as u32),
            powers_total: None,
            powers_sleep: None,
            voltage: if n > 0 {
                Some(Reading { total: sum_voltage(pwr, n) as i128, count: n as u64 })
            } else {
                None
            },
            current: if n > 0 {
                Some(single(sum_current(pwr, n)))
            } else {
                None
            },
            system_rc: None,
            system_fcc: None,
            temperature: if n > 0 {
                Some(Reading { total: sum_temperature(pwr, n) as i128, count: n as u64 })
            } else {
                None
            },
            soc: if n > 0 {
                Some((sum_soc(pwr, n) / n) as u32)
            } else {
                None
            },
            soh: None,
            highest_voltage: None,
            average_voltage: None,
            lowest_voltage: None,
            highest_temp: None,
            average_temp: None,
            lowest_temp: None,
            recommend_chg_volt: None,
            recommend_dsg_volt: None,
            recommend_chg_curr: None,
            recommend_dsg_curr: None,
            basic_st: basic,
        },
    }
}

/// The four pack sums, each within what the number of packs allows.
fn pack_sums(pwr: &[PowerData]) -> (r: (i128, i128, i128, u128))
    ensures
        r.0 == sum_voltage(pwr@, pwr@.len() as int),
        r.1 == sum_current(pwr@, pwr@.len() as int),
        r.2 == sum_temperature(pwr@, pwr@.len() as int),
        r.3 == sum_soc(pwr@, pwr@.len() as int),
        r.3 <= pwr@.len() * 0xffff_ffff,
{
    let mut v: i128 = 0;
    let mut c: i128 = 0;
    let mut t: i128 = 0;
    let mut s: u128 = 0;
    let mut i: usize = 0;
    while i < pwr.len()
        invariant
            i <= pwr.len(),
            v == sum_voltage(pwr@, i as int),
            c == sum_current(pwr@, i as int),
            t == sum_temperature(pwr@, i as int),
            s == sum_soc(pwr@, i as int),
            -(i * 0x8000_0000) <= v <= i * 0x8000_0000,
            -(i * 0x8000_0000) <= c <= i * 0x8000_0000,
            -(i * 0x8000_0000) <= t <= i * 0x8000_0000,
            0 <= s <= i * 0xffff_ffff,
        decreases pwr.len() - i,
    {
        v = v + pwr[i].voltage as i128;
        c = c + pwr[i].current as i128;
        t = t + pwr[i].temperature as i128;
        s = s + pwr[i].soc as u128;
        i = i + 1;
    }
    (v, c, t, s)
}

impl Aggregate {
    /// The bank figures at time `t` (milliseconds since the Unix epoch).
    pub fn build_at(t: i64, pwr: &[PowerData], pwrsys: Option<PwrsysData>, _cells: &[CellPack]) -> (a: Aggregate)
        ensures
            a@ == aggregate_at(t, pwr@, pwrsys),
    {
        let basic = if pwr.len() > 0 {
            Some(pwr[0].basic_st.clone())
        } else {
            None
        };
        match pwrsys {
            Some(sys) => Aggregate {
                relay_local_time: t,
                powers: Some(sys.banks_current),
                powers_total: Some(sys.banks_total),
                powers_sleep: Some(sys.banks_sleep),
                voltage: Some(Reading { total: sys.system_voltage as i128, count: 1 }),
                current: Some(Reading { total: sys.system_current as i128, count: 1 }),
                system_rc: Some(sys.system_rc),
                system_fcc: Some(sys.system_fcc),
                temperature: Some(Reading { total: sys.system_average_temp as i128, count: 1 }),
                soc: Some(sys.system_soc),
                soh: Some(sys.system_soh),
                highest_voltage: Some(sys.system_highest_voltage),
                average_voltage: Some(sys.system_average_voltage),
                lowest_voltage: Some(sys.system_lowest_voltage),
                highest_temp: Some(sys.system_highest_temp),
                average_temp: Some(sys.system_average_temp),
                lowest_temp: Some(sys.system_lowest_temp),
                recommend_chg_volt: Some(sys.system_recommend_chg_volt),
                recommend_dsg_volt: Some(sys.system_recommend_dsg_volt),
                recommend_chg_curr: Some(sys.system_recommend_chg_curr),
                recommend_dsg_curr: Some(sys.system_recommend_dsg_curr),
                basic_st: basic,
            },
            None => {
                let n = pwr.len();
                let (v, c, tt, s) = pack_sums(pwr);
                let (voltage, current, temperature, soc) = if n > 0 {
                    let mean_soc: u128 = s / (n as u128);
                    proof {
                        assert(s / (n as u128) <= 0xffff_ffff) by (nonlinear_arith)
                            requires
                                0 <= s <= n * 0xffff_ffff,
                                n > 0,
                        {
                        }
                    }
                    (
                        Some(Reading { total: v, count: n as u64 }),
                        Some(Reading { total: c, count: 1 }),
                        Some(Reading { total: tt, count: n as u64 }),
                        Some(mean_soc as u32),
                    )
                } else {
                    (None, None, None, None)
                };
                Aggregate {
                    relay_local_time: t,
                    powers: Some(n as u32),
                    powers_total: None,
                    powers_sleep: None,
                    voltage,
                    current,
                    system_rc: None,
                    system_fcc: None,
                    temperature,
                    soc,
                    soh: None,
                    highest_voltage: None,
                    average_voltage: None,
                    lowest_voltage: None,
                    highest_temp: None,
                    average_temp: None,
                    lowest_temp: None,
                    recommend_chg_volt: None,
                    recommend_dsg_volt: None,
                    recommend_chg_curr: None,
                    recommend_dsg_curr: None,
                    basic_st: basic,
                }
            },
        }
    }
}


/// The level word is read without regard to case.
pub proof fn law_level_ignores_case(s: Seq<char>)
    ensures
        level_named(ascii_lower(s)) == level_named(s),
{
    assert(ascii_lower(ascii_lower(s)) =~= ascii_lower(s)) by {
        assert forall|i: int| 0 <= i < s.len() implies #[trigger] lower(lower(s[i])) == lower(s[i]) by {
            let c = s[i];
            if is_upper(c) {
                assert(((c as int) + 32) as char as int == (c as int) + 32);
            }
        }
    }
}

proof fn lemma_sum_soc_bounded(pwr: Seq<PowerData>, n: int, cap: int)
    requires
        0 <= n <= pwr.len(),
        forall|i: int| 0 <= i < pwr.len() ==> #[trigger] pwr[i].soc <= cap,
    ensures
        0 <= sum_soc(pwr, n) <= n * cap,
    decreases n,
{
    if n > 0 {
        lemma_sum_soc_bounded(pwr, n - 1, cap);
        assert(pwr[n - 1].soc <= cap);
        assert((n - 1) * cap + cap == n * cap) by (nonlinear_arith);
        assert(sum_soc(pwr, n) == sum_soc(pwr, n - 1) + pwr[n - 1].soc);
    } else {
        assert(n * cap == 0) by (nonlinear_arith)
            requires
                n == 0,
        ;
    }
}

/// Without a system report the bank's charge is the packs' integer mean, so it stays
/// within any bound that every pack's charge keeps (such as 100 %).
pub proof fn law_mean_soc_bounded(t: i64, pwr: Seq<PowerData>, cap: u32)
    requires
        pwr.len() > 0,
        forall|i: int| 0 <= i < pwr.len() ==> #[trigger] pwr[i].soc <= cap,
    ensures
        aggregate_at(t, pwr, None).soc matches Some(s) && s <= cap,
{
    let n = pwr.len() as int;
    lemma_sum_soc_bounded(pwr, n, cap as int);
    let total = sum_soc(pwr, n);
    assert(total / n <= cap) by (nonlinear_arith)
        requires
            0 <= total <= n * cap,
            n > 0,
    ;
}

/// With a system report, the bank figures are the report's, whatever the packs say: each
/// figure is the report's field of the same meaning (the current is the system current,
/// the temperature the average one), and only the first pack's basic status comes from the
/// packs.
pub proof fn law_system_report_wins(t: i64, pwr: Seq<PowerData>, sys: PwrsysData)
    ensures
        aggregate_at(t, pwr, Some(sys)).relay_local_time == t,
        aggregate_at(t, pwr, Some(sys)).powers == Some(sys.banks_current),
        aggregate_at(t, pwr, Some(sys)).powers_total == Some(sys.banks_total),
        aggregate_at(t, pwr, Some(sys)).powers_sleep == Some(sys.banks_sleep),
        aggregate_at(t, pwr, Some(sys)).voltage == Some(single(sys.system_voltage as int)),
        aggregate_at(t, pwr, Some(sys)).current == Some(single(sys.system_current as int)),
        aggregate_at(t, pwr, Some(sys)).system_rc == Some(sys.system_rc),
        aggregate_at(t, pwr, Some(sys)).system_fcc == Some(sys.system_fcc),
        aggregate_at(t, pwr, Some(sys)).temperature == Some(single(sys.system_average_temp as int)),
        aggregate_at(t, pwr, Some(sys)).soc == Some(sys.system_soc),
        aggregate_at(t, pwr, Some(sys)).soh == Some(sys.system_soh),
        aggregate_at(t, pwr, Some(sys)).highest_voltage == Some(sys.system_highest_voltage),
        aggregate_at(t, pwr, Some(sys)).average_voltage == Some(sys.system_average_voltage),
        aggregate_at(t, pwr, Some(sys)).lowest_voltage == Some(sys.system_lowest_voltage),
        aggregate_at(t, pwr, Some(sys)).highest_temp == Some(sys.system_highest_temp),
        aggregate_at(t, pwr, Some(sys)).average_temp == Some(sys.system_average_temp),
        aggregate_at(t, pwr, Some(sys)).lowest_temp == Some(sys.system_lowest_temp),
        aggregate_at(t, pwr, Some(sys)).recommend_chg_volt == Some(sys.system_recommend_chg_volt),
        aggregate_at(t, pwr, Some(sys)).recommend_dsg_volt == Some(sys.system_recommend_dsg_volt),
        aggregate_at(t, pwr, Some(sys)).recommend_chg_curr == Some(sys.system_recommend_chg_curr),
        aggregate_at(t, pwr, Some(sys)).recommend_dsg_curr == Some(sys.system_recommend_dsg_curr),
        aggregate_at(t, pwr, Some(sys)).basic_st == (if pwr.len() > 0 {
            Some(pwr[0].basic_st@)
        } else {
            None
        }),
{
}


proof fn lemma_sums_prefix(pwr: Seq<PowerData>, p: PowerData, n: int)
    requires
        0 <= n <= pwr.len(),
    ensures
        sum_voltage(pwr.push(p), n) == sum_voltage(pwr, n),
        sum_current(pwr.push(p), n) == sum_current(pwr, n),
        sum_temperature(pwr.push(p), n) == sum_temperature(pwr, n),
        sum_soc(pwr.push(p), n) == sum_soc(pwr, n),
    decreases n,
{
    if n > 0 {
        lemma_sums_prefix(pwr, p, n - 1);
        assert(pwr.push(p)[n - 1] == pwr[n - 1]);
    }
}

/// Without a system report and without packs, only the number of packs (zero) is known.
pub proof fn law_no_packs_no_figures(t: i64)
    ensures
        aggregate_at(t, Seq::<PowerData>::empty(), None).powers == Some(0u32),
        aggregate_at(t, Seq::<PowerData>::empty(), None).voltage is None,
        aggregate_at(t, Seq::<PowerData>::empty(), None).current is None,
        aggregate_at(t, Seq::<PowerData>::empty(), None).temperature is None,
        aggregate_at(t, Seq::<PowerData>::empty(), None).soc is None,
        aggregate_at(t, Seq::<PowerData>::empty(), None).basic_st is None,
{
}

/// Without a system report, one pack's figures are the bank's: its voltage, current,
/// temperature, charge and basic status; the system-only figures stay unknown.
pub proof fn law_single_pack_is_the_bank(t: i64, p: PowerData)
    ensures
        aggregate_at(t, seq![p], None).powers == Some(1u32),
        aggregate_at(t, seq![p], None).voltage == Some(single(p.voltage as int)),
        aggregate_at(t, seq![p], None).current == Some(single(p.current as int)),
        aggregate_at(t, seq![p], None).temperature == Some(single(p.temperature as int)),
        aggregate_at(t, seq![p], None).soc == Some(p.soc),
        aggregate_at(t, seq![p], None).basic_st == Some(p.basic_st@),
        aggregate_at(t, seq![p], None).powers_total is None,
        aggregate_at(t, seq![p], None).powers_sleep is None,
        aggregate_at(t, seq![p], None).system_rc is None,
        aggregate_at(t, seq![p], None).system_fcc is None,
        aggregate_at(t, seq![p], None).soh is None,
        aggregate_at(t, seq![p], None).highest_voltage is None,
        aggregate_at(t, seq![p], None).average_voltage is None,
        aggregate_at(t, seq![p], None).lowest_voltage is None,
        aggregate_at(t, seq![p], None).highest_temp is None,
        aggregate_at(t, seq![p], None).average_temp is None,
        aggregate_at(t, seq![p], None).lowest_temp is None,
        aggregate_at(t, seq![p], None).recommend_chg_volt is None,
        aggregate_at(t, seq![p], None).recommend_dsg_volt is None,
        aggregate_at(t, seq![p], None).recommend_chg_curr is None,
        aggregate_at(t, seq![p], None).recommend_dsg_curr is None,
{
    assert(seq![p][0] == p);
    assert(sum_voltage(seq![p], 0) == 0);
    assert(sum_current(seq![p], 0) == 0);
    assert(sum_temperature(seq![p], 0) == 0);
    assert(sum_soc(seq![p], 0) == 0);
    assert(sum_voltage(seq![p], 1) == p.voltage);
    assert(sum_current(seq![p], 1) == p.current);
    assert(sum_temperature(seq![p], 1) == p.temperature);
    assert(sum_soc(seq![p], 1) == p.soc);
}

/// Without a system report, a further pack adds its voltage and temperature to the totals
/// they are averaged from (one more reading each), adds its current to the bank current,
/// and counts as one more pack; the first pack's basic status stays the bank's.
pub proof fn law_each_pack_adds_its_readings(t: i64, pwr: Seq<PowerData>, p: PowerData)
    requires
        0 < pwr.len(),
        pwr.len() + 1 < 0x1_0000_0000,
    ensures
        aggregate_at(t, pwr.push(p), None).powers == Some((pwr.len() + 1) as u32),
        aggregate_at(t, pwr.push(p), None).voltage == Some(Reading {
            total: (aggregate_at(t, pwr, None).voltage->0.total + p.voltage) as i128,
            count: (aggregate_at(t, pwr, None).voltage->0.count + 1) as u64,
        }),
        aggregate_at(t, pwr.push(p), None).current == Some(single(
            aggregate_at(t, pwr, None).current->0.total + p.current,
        )),
        aggregate_at(t, pwr.push(p), None).temperature == Some(Reading {
            total: (aggregate_at(t, pwr, None).temperature->0.total + p.temperature) as i128,
            count: (aggregate_at(t, pwr, None).temperature->0.count + 1) as u64,
        }),
        aggregate_at(t, pwr.push(p), None).basic_st == aggregate_at(t, pwr, None).basic_st,
{
    let n = pwr.len() as int;
    lemma_sums_prefix(pwr, p, n);
    lemma_sum_bounds(pwr, n);
    assert(pwr.push(p)[n] == p);
    assert(pwr.push(p)[0] == pwr[0]);
}

proof fn lemma_sum_bounds(pwr: Seq<PowerData>, n: int)
    requires
        0 <= n <= pwr.len(),
    ensures
        -(n * 0x8000_0000) <= sum_voltage(pwr, n) <= n * 0x8000_0000,
        -(n * 0x8000_0000) <= sum_current(pwr, n) <= n * 0x8000_0000,
        -(n * 0x8000_0000) <= sum_temperature(pwr, n) <= n * 0x8000_0000,
    decreases n,
{
    if n > 0 {
        lemma_sum_bounds(pwr, n - 1);
    }
}

/// The level words: `low`, `medium` and `high` in any letter case name their levels, and
/// every other text, `none` among them, gives no monitoring.
pub proof fn law_level_words(s: Seq<char>)
    ensures
        level_named(s) == MonitoringLevel::Low <==> ascii_lower(s) == "low"@,
        level_named(s) == MonitoringLevel::Medium <==> ascii_lower(s) == "medium"@,
        level_named(s) == MonitoringLevel::High <==> ascii_lower(s) == "high"@,
        level_named(s) == MonitoringLevel::Off <==> (ascii_lower(s) != "low"@ && ascii_lower(s) != "medium"@
            && ascii_lower(s) != "high"@),
{
    reveal_strlit("low");
    reveal_strlit("medium");
    reveal_strlit("high");
    assert("low"@.len() == 3 && "medium"@.len() == 6 && "high"@.len() == 4);
    assert("low"@ != "medium"@ && "low"@ != "high"@ && "medium"@ != "high"@);
}
} // verus!
