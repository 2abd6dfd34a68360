//! The polling loop's timing decisions.

use vstd::prelude::*;
use crate::numbers::{decimal, decimal_string};

verus! {

/// The polling period: the configured one, but never under five seconds.
pub open spec fn period_secs(reading_freq: i64) -> u64 {
    if reading_freq < 5 {
        5
    } else {
        reading_freq as u64
    }
}

pub fn reading_period_secs(reading_freq: i64) -> (s: u64)
    ensures
        s == period_secs(reading_freq),
        s >= 5,
{
    if reading_freq < 5 {
        5
    } else {
        reading_freq as u64
    }
}

/// `stat` is polled again once the whole seconds since the last poll (read as an `i64`)
/// reach the configured interval.
pub fn stat_due(elapsed_secs: u64, interval: i64) -> (due: bool)
    ensures
        due == ((elapsed_secs as i64) >= interval),
{
    (elapsed_secs as i64) >= interval
}

/// What the reconnect handler does, given whether discovery was already repeated: it
/// announces the sensors again only the first time. Returns whether to announce, and the
/// new value of the flag.
pub open spec fn reconnect_step(rediscovery_done: bool) -> (bool, bool) {
    (!rediscovery_done, true)
}

pub fn on_reconnect(rediscovery_done: bool) -> (r: (bool, bool))
    ensures
        r == reconnect_step(rediscovery_done),
{
    (!rediscovery_done, true)
}

/// How many times discovery is repeated over `n` reconnects, starting from `done`.
pub open spec fn rediscoveries(done: bool, n: nat) -> nat
    decreases n,
{
    if n == 0 {
        0
    } else {
        let (announce, next) = reconnect_step(done);
        (if announce {
            1nat
        } else {
            0nat
        }) + rediscoveries(next, (n - 1) as nat)
    }
}

// ---------------------------------------------------------------------------------------
// The console commands of one polling cycle

/// A console command that a polling cycle sends.
#[derive(Debug, Clone, Copy, PartialEq, Eq, Structural)]
pub enum Request {
    /// `pwr <p>`: the state of pack `p`.
    Pwr(u32),
    /// `pwrsys`: the system report.
    Pwrsys,
    /// `stat <p>`: the statistics (cycle count) of pack `p`.
    Stat(u32),
    /// `bat <p>`: the cells of pack `p`.
    Bat(u32),
}

/// A command line to send, the markers that delimit its response, and how long to wait.
pub struct ConsoleCommand {
    pub request: Request,
    pub text: String,
    pub start: String,
    pub stop: String,
    pub timeout_secs: u64,
}

pub struct CommandView {
    pub request: Request,
    pub text: Seq<char>,
    pub start: Seq<char>,
    pub stop: Seq<char>,
    pub timeout_secs: u64,
}

impl View for ConsoleCommand {
    type V = CommandView;

    open spec fn view(&self) -> CommandView {
        CommandView {
            request: self.request,
            text: self.text@,
            start: self.start@,
            stop: self.stop@,
            timeout_secs: self.timeout_secs,
        }
    }
}

pub open spec fn command_views(v: Seq<ConsoleCommand>) -> Seq<CommandView> {
    v.map_values(|c: ConsoleCommand| c@)
}

/// How a request is sent: `pwr <p>` (its response starts at the echoed command),
/// `pwrsys` (at `Power System Information`), `stat <p>` (at `Device address`) and
/// `bat <p>` (at `Battery`); every response ends at `Command completed`.
pub open spec fn command_of(r: Request) -> CommandView {
    match r {
        Request::Pwr(p) => CommandView {
            request: r,
            text: "pwr "@ + decimal(p as nat),
            start: "pwr "@ + decimal(p as nat),
            stop: "Command completed"@,
            timeout_secs: 5,
        },
        Request::Pwrsys => CommandView {
            request: r,
            text: "pwrsys"@,
            start: "Power System Information"@,
            stop: "Command completed"@,
            timeout_secs: 5,
        },
        Request::Stat(p) => CommandView {
            request: r,
            text: "stat "@ + decimal(p as nat),
            start: "Device address"@,
            stop: "Command completed"@,
            timeout_secs: 5,
        },
        Request::Bat(p) => CommandView {
            request: r,
            text: "bat "@ + decimal(p as nat),
            start: "Battery"@,
            stop: "Command completed"@,
            timeout_secs: 6,
        },
    }
}

/// `f(1), .., f(n)` for the packs `1..=n`.
pub open spec fn per_pack(n: u32, f: spec_fn(u32) -> Request) -> Seq<Request> {
    Seq::new(n as nat, |i: int| f((i + 1) as u32))
}

/// What a cycle asks the console, in order: every pack's state, the system report, every
/// pack's statistics when they are due, and every pack's cells when cell monitoring is on.
pub open spec fn request_plan(powers: u32, stat_now: bool, cells_on: bool) -> Seq<Request> {
    per_pack(powers, |p: u32| Request::Pwr(p)) + seq![Request::Pwrsys] + (if stat_now {
        per_pack(powers, |p: u32| Request::Stat(p))
    } else {
        seq![]
    }) + (if cells_on {
        per_pack(powers, |p: u32| Request::Bat(p))
    } else {
        seq![]
    })
}

fn numbered(head: &str, p: u32) -> (s: String)
    ensures
        s@ == head@ + decimal(p as nat),
{
    let mut s = String::from_str(head);
    s.append(decimal_string(p as u64).as_str());
    s
}

/// How `r` is sent (see [`command_of`]).
pub fn command_for(r: Request) -> (c: ConsoleCommand)
    ensures
        c@ == command_of(r),
{
    match r {
        Request::Pwr(p) => ConsoleCommand {
            request: r,
            text: numbered("pwr ", p),
            start: numbered("pwr ", p),
            stop: String::from_str("Command completed"),
            timeout_secs: 5,
        },
        Request::Pwrsys => ConsoleCommand {
            request: r,
            text: String::from_str("pwrsys"),
            start: String::from_str("Power System Information"),
            stop: String::from_str("Command completed"),
            timeout_secs: 5,
        },
        Request::Stat(p) => ConsoleCommand {
            request: r,
            text: numbered("stat ", p),
            start: String::from_str("Device address"),
            stop: String::from_str("Command completed"),
            timeout_secs: 5,
        },
        Request::Bat(p) => ConsoleCommand {
            request: r,
            text: numbered("bat ", p),
            start: String::from_str("Battery"),
            stop: String::from_str("Command completed"),
            timeout_secs: 6,
        },
    }
}

/// The request kind of a pack command: 0 for `pwr`, 1 for `stat`, 2 for `bat`.
pub open spec fn pack_request(kind: u8, p: u32) -> Request {
    if kind == 0 {
        Request::Pwr(p)
    } else if kind == 1 {
        Request::Stat(p)
    } else {
        Request::Bat(p)
    }
}

fn push_pack_commands(out: &mut Vec<ConsoleCommand>, powers: u32, kind: u8)
    ensures
        command_views(final(out)@) == command_views(old(out)@) + per_pack(
            powers,
            |p: u32| pack_request(kind, p),
        ).map_values(|r: Request| command_of(r)),
{
    let ghost before = command_views(out@);
    let ghost want = per_pack(powers, |p: u32| pack_request(kind, p)).map_values(|r: Request| command_of(r));
    let mut i: u32 = 0;
    while i < powers
        invariant
            i <= powers,
            want == per_pack(powers, |p: u32| pack_request(kind, p)).map_values(|r: Request| command_of(r)),
            command_views(out@) == before + want.take(i as int),
        decreases powers - i,
    {
        let p = i + 1;
        let r = if kind == 0 {
            Request::Pwr(p)
        } else if kind == 1 {
            Request::Stat(p)
        } else {
            Request::Bat(p)
        };
        let ghost mid = command_views(out@);
        out.push(command_for(r));
        assert(want[i as int] == command_of(r));
        assert(command_views(out@) =~= mid.push(command_of(r)));
        assert(want.take(i + 1) =~= want.take(i as int).push(want[i as int]));
        i = i + 1;
    }
    assert(want.take(powers as int) =~= want);
}

/// The commands of one polling cycle, in order (see [`request_plan`]); `cells_on` is
/// whether cell monitoring is on at a level other than `Off`.
pub fn poll_commands(powers: u32, stat_now: bool, cells_on: bool) -> (r: Vec<ConsoleCommand>)
    ensures
        command_views(r@) == request_plan(powers, stat_now, cells_on).map_values(|q: Request| command_of(q)),
{
    let mut out: Vec<ConsoleCommand> = Vec::new();
    push_pack_commands(&mut out, powers, 0);
    let ghost a = command_views(out@);
    out.push(command_for(Request::Pwrsys));
    let ghost b = command_views(out@);
    assert(b =~= a.push(command_of(Request::Pwrsys)));
    if stat_now {
        push_pack_commands(&mut out, powers, 1);
    }
    let ghost c = command_views(out@);
    if cells_on {
        push_pack_commands(&mut out, powers, 2);
    }
    proof {
        let pw = per_pack(powers, |p: u32| Request::Pwr(p));
        let st = per_pack(powers, |p: u32| Request::Stat(p));
        let bt = per_pack(powers, |p: u32| Request::Bat(p));
        assert(pw =~= per_pack(powers, |p: u32| pack_request(0, p)));
        assert(st =~= per_pack(powers, |p: u32| pack_request(1, p)));
        assert(bt =~= per_pack(powers, |p: u32| pack_request(2, p)));
        let plan = request_plan(powers, stat_now, cells_on);
        assert(command_views(out@) =~= plan.map_values(|q: Request| command_of(q)));
    }
    out
}


/// Discovery is repeated at most once, however many times the broker connection comes back.
pub proof fn law_rediscovery_at_most_once(n: nat)
    ensures
        rediscoveries(false, n) <= 1,
        n > 0 ==> rediscoveries(false, n) == 1,
    decreases n,
{
    if n > 0 {
        lemma_no_rediscovery_once_done((n - 1) as nat);
    }
}

proof fn lemma_no_rediscovery_once_done(n: nat)
    ensures
        rediscoveries(true, n) == 0,
    decreases n,
{
    if n > 0 {
        lemma_no_rediscovery_once_done((n - 1) as nat);
    }
}


/// A cycle asks every pack's state (`pwr 1`, `pwr 2`, ...), then the system report, then,
/// when due, every pack's statistics, then, when cell monitoring is on, every pack's cells.
pub proof fn law_request_order(powers: u32, stat_now: bool, cells_on: bool)
    ensures
        request_plan(powers, stat_now, cells_on).len() == powers + 1 + (if stat_now {
            powers as int
        } else {
            0
        }) + (if cells_on {
            powers as int
        } else {
            0
        }),
        forall|k: int| 0 <= k < powers ==> #[trigger] request_plan(powers, stat_now, cells_on)[k] == Request::Pwr((k + 1) as u32),
        request_plan(powers, stat_now, cells_on)[powers as int] == Request::Pwrsys,
        stat_now ==> forall|k: int|
            0 <= k < powers ==> #[trigger] request_plan(powers, stat_now, cells_on)[powers + 1 + k] == Request::Stat((k + 1) as u32),
        cells_on && stat_now ==> forall|k: int|
            0 <= k < powers ==> #[trigger] request_plan(powers, stat_now, cells_on)[2 * powers + 1 + k] == Request::Bat((k + 1) as u32),
        cells_on && !stat_now ==> forall|k: int|
            0 <= k < powers ==> #[trigger] request_plan(powers, stat_now, cells_on)[powers + 1 + k] == Request::Bat((k + 1) as u32),
{
}

/// How each request is sent: the command text with the pack number in decimal, the line
/// that starts its response, `Command completed` at its end, and five seconds to wait
/// (six for the cells).
pub proof fn law_command_texts(p: u32)
    ensures
        command_of(Request::Pwr(p)).text == "pwr "@ + decimal(p as nat),
        command_of(Request::Pwr(p)).start == "pwr "@ + decimal(p as nat),
        command_of(Request::Pwrsys).text == "pwrsys"@,
        command_of(Request::Pwrsys).start == "Power System Information"@,
        command_of(Request::Stat(p)).text == "stat "@ + decimal(p as nat),
        command_of(Request::Stat(p)).start == "Device address"@,
        command_of(Request::Bat(p)).text == "bat "@ + decimal(p as nat),
        command_of(Request::Bat(p)).start == "Battery"@,
        command_of(Request::Pwr(p)).stop == "Command completed"@,
        command_of(Request::Pwrsys).stop == "Command completed"@,
        command_of(Request::Stat(p)).stop == "Command completed"@,
        command_of(Request::Bat(p)).stop == "Command completed"@,
        command_of(Request::Pwr(p)).timeout_secs == 5,
        command_of(Request::Pwrsys).timeout_secs == 5,
        command_of(Request::Stat(p)).timeout_secs == 5,
        command_of(Request::Bat(p)).timeout_secs == 6,
{
}
} // verus!
