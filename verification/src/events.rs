//! Counting the packs that report events.

use vstd::prelude::*;
use crate::model::{Aggregate, PowerData};

verus! {

/// How many packs report battery events, power events and system faults.
#[derive(Debug, Clone, Copy, Default, PartialEq, Eq, Structural)]
pub struct EventsSummary {
    pub bat_events_no: u64,
    pub pwr_events_no: u64,
    pub sys_events_no: u64,
}

/// A flag word that is present and not zero.
pub open spec fn raised(flags: Option<u64>) -> bool {
    flags matches Some(v) && v != 0
}

/// Among the first `n` packs: how many raise battery events, power events and system faults.
pub open spec fn event_counts(pwr: Seq<PowerData>, n: int) -> (nat, nat, nat)
    decreases n,
{
    if n <= 0 {
        (0, 0, 0)
    } else {
        let (b, p, s) = event_counts(pwr, n - 1);
        let d = pwr[n - 1];
        (
            b + if raised(d.bat_events) {
                1nat
            } else {
                0nat
            },
            p + if raised(d.power_events) {
                1nat
            } else {
                0nat
            },
            s + if raised(d.sys_events) {
                1nat
            } else {
                0nat
            },
        )
    }
}

/// No count exceeds the number of packs.
pub proof fn law_event_counts_bounded(pwr: Seq<PowerData>, n: int)
    requires
        0 <= n,
    ensures
        event_counts(pwr, n).0 <= n,
        event_counts(pwr, n).1 <= n,
        event_counts(pwr, n).2 <= n,
    decreases n,
{
    if n > 0 {
        law_event_counts_bounded(pwr, n - 1);
    }
}

/// The packs whose battery-event word is present and not zero.
pub open spec fn bat_events_set() -> spec_fn(PowerData) -> bool {
    |p: PowerData| p.bat_events matches Some(v) && v != 0
}

/// The packs whose power-event word is present and not zero.
pub open spec fn power_events_set() -> spec_fn(PowerData) -> bool {
    |p: PowerData| p.power_events matches Some(v) && v != 0
}

/// The packs whose system-fault word is present and not zero.
pub open spec fn sys_faults_set() -> spec_fn(PowerData) -> bool {
    |p: PowerData| p.sys_events matches Some(v) && v != 0
}

/// Each count is the number of packs among the first `n` whose word is present and not
/// zero: a missing word or a zero word (`0x0`) counts nothing.
pub proof fn law_event_counts_count_nonzero_words(pwr: Seq<PowerData>, n: int)
    requires
        0 <= n <= pwr.len(),
    ensures
        event_counts(pwr, n).0 == pwr.take(n).filter(bat_events_set()).len(),
        event_counts(pwr, n).1 == pwr.take(n).filter(power_events_set()).len(),
        event_counts(pwr, n).2 == pwr.take(n).filter(sys_faults_set()).len(),
    decreases n,
{
    if n == 0 {
        assert(pwr.take(0) =~= Seq::<PowerData>::empty());
        reveal(Seq::filter);
    } else {
        law_event_counts_count_nonzero_words(pwr, n - 1);
        let prev = pwr.take(n - 1);
        assert(pwr.take(n) =~= prev.push(pwr[n - 1]));
        prev.lemma_filter_push(pwr[n - 1], bat_events_set());
        prev.lemma_filter_push(pwr[n - 1], power_events_set());
        prev.lemma_filter_push(pwr[n - 1], sys_faults_set());
    }
}

fn is_raised(flags: Option<u64>) -> (b: bool)
    ensures
        b == raised(flags),
{
    match flags {
        Some(v) => v != 0,
        None => false,
    }
}

/// Counts, over all packs, those whose battery-event, power-event and system-fault words
/// are present and not zero.
pub fn detect_events(pwr: &[PowerData], _agg: &Aggregate) -> (e: EventsSummary)
    ensures
        e.bat_events_no == event_counts(pwr@, pwr@.len() as int).0,
        e.pwr_events_no == event_counts(pwr@, pwr@.len() as int).1,
        e.sys_events_no == event_counts(pwr@, pwr@.len() as int).2,
{
    let mut summary = EventsSummary { bat_events_no: 0, pwr_events_no: 0, sys_events_no: 0 };
    let mut i: usize = 0;
    while i < pwr.len()
        invariant
            i <= pwr.len(),
            summary.bat_events_no == event_counts(pwr@, i as int).0,
            summary.pwr_events_no == event_counts(pwr@, i as int).1,
            summary.sys_events_no == event_counts(pwr@, i as int).2,
        decreases pwr.len() - i,
    {
        proof {
            law_event_counts_bounded(pwr@, i as int);
        }
        if is_raised(pwr[i].bat_events) {
            summary.bat_events_no = summary.bat_events_no + 1;
        }
        if is_raised(pwr[i].power_events) {
            summary.pwr_events_no = summary.pwr_events_no + 1;
        }
        if is_raised(pwr[i].sys_events) {
            summary.sys_events_no = summary.sys_events_no + 1;
        }
        i = i + 1;
    }
    summary
}

} // verus!
