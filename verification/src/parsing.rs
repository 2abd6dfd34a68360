//! Parsers for the console's `pwr`, `pwrsys`, `stat` and `bat` responses.

use vstd::prelude::*;
use crate::text::{
    after_char, after_char_chars, any_char, any_hex_digit, chars_of, contains, contains_str,
    first_digit_token, first_digit_token_chars, first_token_or_empty, first_token_or_empty_chars,
    has_char, has_hex_digit, is_ascii_digit, is_digit, is_ws, split_whitespace, split_whitespace_chars,
    starts_with, starts_with_str, strip_hex_prefix, strip_hex_prefix_chars, string_of, sub_chars,
    trim, trim_char, trim_char_chars, trim_chars, trim_start, trim_start_chars, views, eq_str,
    ws_split_fold, skip_char_from, strip_char_end_len, has_digit, is_hex_digit, skip_ws_from,
    trim_end_len, first_digit_token_from,
};
use crate::numbers::{
    int_error, number_error_text, parse_u32, parse_i32, parse_u64_hex, parse_u32_chars, parse_i32_chars,
    parse_u64_hex_chars, u32_error_chars, NumberError,
};
use crate::model::{
    blank_power, CellData, CellPack, CellPackView, CellView, MonitoringLevel, PowerData, PowerView,
    PwrsysData, zero_pwrsys,
};

verus! {

/// Why a console response could not be read.
#[derive(Debug, Clone, Copy, PartialEq, Eq, Structural)]
pub enum ParseError {
    /// A `bat` response shorter than a header and one line.
    NotEnoughLines,
    /// A field that must hold a number does not, for the reason given.
    InvalidNumber(NumberError),
}

impl ParseError {
    pub fn message(&self) -> (s: String)
        ensures
            s@ == (match self {
                ParseError::NotEnoughLines => "not enough lines"@,
                ParseError::InvalidNumber(e) => number_error_text(*e),
            }),
    {
        match self {
            ParseError::NotEnoughLines => String::from_str("not enough lines"),
            ParseError::InvalidNumber(e) => e.message(),
        }
    }
}

/// The text of each line.
pub open spec fn lines_view(lines: Seq<String>) -> Seq<Seq<char>> {
    lines.map_values(|s: String| s@)
}

/// The value part of a `Name : value` line: what follows the first `:`, trimmed
/// (nothing when the line has no `:`).
pub open spec fn line_value(l: Seq<char>) -> Seq<char> {
    match after_char(l, ':') {
        Some(t) => trim(t),
        None => seq![],
    }
}

/// The token a numeric field is read from: the first one holding a digit, else `0`.
pub open spec fn number_token(token: Seq<char>) -> Seq<char> {
    match first_digit_token(token) {
        Some(t) => t,
        None => seq!['0'],
    }
}

/// An integer field: the first token with a digit, `%` signs trimmed, read as `u32`;
/// zero when it does not read.
pub open spec fn int_value(token: Seq<char>) -> u32 {
    match parse_u32(trim_char(number_token(token), '%')) {
        Some(v) => v,
        None => 0,
    }
}

/// Length of the run of ASCII digits at the start of `s`, looking from `i`.
pub open spec fn digit_run_end(s: Seq<char>, i: int) -> int
    decreases s.len() - i,
{
    if 0 <= i < s.len() && is_digit(s[i]) {
        digit_run_end(s, i + 1)
    } else {
        i
    }
}

/// A scaled field, in thousandths: the leading digits of the first token with a digit,
/// read as `i32`; zero when there are none or they overflow.
pub open spec fn scaled_value(token: Seq<char>) -> i32 {
    let core = number_token(token);
    let digits = core.take(digit_run_end(core, 0));
    if digits.len() == 0 {
        0
    } else {
        match parse_i32(digits) {
            Some(v) => v,
            None => 0,
        }
    }
}

/// A token that looks like a hexadecimal number: it holds an `x` or a hex digit.
pub open spec fn hexish(t: Seq<char>) -> bool {
    has_char(t, 'x') || has_hex_digit(t)
}

pub open spec fn first_hexish_from(toks: Seq<Seq<char>>, i: int) -> Option<Seq<char>>
    decreases toks.len() - i,
{
    if 0 <= i < toks.len() {
        if hexish(toks[i]) {
            Some(toks[i])
        } else {
            first_hexish_from(toks, i + 1)
        }
    } else {
        None
    }
}

/// A hexadecimal field (event flags): the first hex-looking token, `0x` prefixes
/// removed, read as `u64`; zero when it does not read.
pub open spec fn hex_value(token: Seq<char>) -> u64 {
    let core = match first_hexish_from(split_whitespace(token), 0) {
        Some(t) => t,
        None => seq!['0', 'x', '0'],
    };
    match parse_u64_hex(strip_hex_prefix(core)) {
        Some(v) => v,
        None => 0,
    }
}

proof fn lemma_digit_run_end(s: Seq<char>, i: int)
    requires
        0 <= i <= s.len(),
    ensures
        i <= digit_run_end(s, i) <= s.len(),
    decreases s.len() - i,
{
    if i < s.len() && is_digit(s[i]) {
        lemma_digit_run_end(s, i + 1);
    }
}

fn number_token_chars(token: &Vec<char>) -> (r: Vec<char>)
    ensures
        r@ == number_token(token@),
{
    match first_digit_token_chars(token) {
        Some(t) => t,
        None => {
            let mut z: Vec<char> = Vec::new();
            z.push('0');
            assert(z@ =~= seq!['0']);
            z
        },
    }
}

fn parse_int_chars(token: &Vec<char>) -> (v: u32)
    ensures
        v == int_value(token@),
{
    let core = number_token_chars(token);
    let t = trim_char_chars(&core, '%');
    match parse_u32_chars(&t) {
        Some(v) => v,
        None => 0,
    }
}

fn parse_scaled_chars(token: &Vec<char>) -> (v: i32)
    ensures
        v == scaled_value(token@),
{
    let core = number_token_chars(token);
    let mut j: usize = 0;
    while j < core.len() && is_ascii_digit(core[j])
        invariant
            j <= core.len(),
            digit_run_end(core@, j as int) == digit_run_end(core@, 0),
        decreases core.len() - j,
    {
        j = j + 1;
    }
    let digits = sub_chars(&core, 0, j);
    assert(digits@ =~= core@.take(digit_run_end(core@, 0)));
    if digits.len() == 0 {
        return 0;
    }
    match parse_i32_chars(&digits) {
        Some(v) => v,
        None => 0,
    }
}

fn hex_of_core(core: &Vec<char>) -> (v: u64)
    ensures
        v == (match parse_u64_hex(strip_hex_prefix(core@)) {
            Some(v) => v,
            None => 0,
        }),
{
    let stripped = strip_hex_prefix_chars(core);
    match parse_u64_hex_chars(&stripped) {
        Some(v) => v,
        None => 0,
    }
}

fn parse_hex_chars(token: &Vec<char>) -> (v: u64)
    ensures
        v == hex_value(token@),
{
    let toks = split_whitespace_chars(token);
    let mut i: usize = 0;
    while i < toks.len()
        invariant
            i <= toks.len(),
            views(toks@) == split_whitespace(token@),
            first_hexish_from(views(toks@), i as int) == first_hexish_from(views(toks@), 0),
        decreases toks.len() - i,
    {
        assert(views(toks@)[i as int] == toks@[i as int]@);
        if any_char(&toks[i], 'x') || any_hex_digit(&toks[i]) {
            return hex_of_core(&toks[i]);
        }
        i = i + 1;
    }
    let mut z: Vec<char> = Vec::new();
    z.push('0');
    z.push('x');
    z.push('0');
    assert(z@ =~= seq!['0', 'x', '0']);
    hex_of_core(&z)
}

fn line_value_chars(l: &Vec<char>) -> (r: Vec<char>)
    ensures
        r@ == line_value(l@),
{
    match after_char_chars(l, ':') {
        Some(t) => trim_chars(&t),
        None => Vec::new(),
    }
}

fn first_token_string(val: &Vec<char>) -> (s: String)
    ensures
        s@ == first_token_or_empty(val@),
{
    string_of(&first_token_or_empty_chars(val))
}


/// The line names `Current` itself (not `Current Status`).
pub open spec fn is_current_line(l: Seq<char>) -> bool {
    ||| starts_with(l, "Current "@)
    ||| starts_with(l, "Current\t"@)
    ||| l == "Current"@
    ||| starts_with(l, "Current:"@)
}

/// What one line of a `pwr` response changes in the pack record: the first name that
/// the line (leading whitespace removed) starts with decides the field.
pub open spec fn pwr_step(d: PowerView, raw: Seq<char>) -> PowerView {
    let l = trim_start(raw);
    let val = line_value(l);
    if starts_with(l, "Voltage"@) {
        PowerView { voltage: scaled_value(val), ..d }
    } else if starts_with(l, "Current Status"@) {
        PowerView { current_st: Some(first_token_or_empty(val)), ..d }
    } else if is_current_line(l) {
        PowerView { current: scaled_value(val), ..d }
    } else if starts_with(l, "Temperature"@) {
        PowerView { temperature: scaled_value(val), ..d }
    } else if starts_with(l, "Coulomb"@) {
        PowerView { soc: int_value(val), ..d }
    } else if starts_with(l, "Basic Status"@) {
        PowerView { basic_st: first_token_or_empty(val), ..d }
    } else if starts_with(l, "Volt Status"@) {
        PowerView { volt_st: Some(first_token_or_empty(val)), ..d }
    } else if starts_with(l, "Tmpr. Status"@) {
        PowerView { temp_st: Some(first_token_or_empty(val)), ..d }
    } else if starts_with(l, "Coul. Status"@) {
        PowerView { coul_st: Some(first_token_or_empty(val)), ..d }
    } else if starts_with(l, "Soh. Status"@) {
        PowerView { soh_st: Some(first_token_or_empty(val)), ..d }
    } else if starts_with(l, "Heater Status"@) {
        PowerView { heater_st: Some(first_token_or_empty(val)), ..d }
    } else if starts_with(l, "Bat Events"@) {
        PowerView { bat_events: Some(hex_value(val)), ..d }
    } else if starts_with(l, "Power Events"@) {
        PowerView { power_events: Some(hex_value(val)), ..d }
    } else if starts_with(l, "System Fault"@) {
        PowerView { sys_events: Some(hex_value(val)), ..d }
    } else {
        d
    }
}

/// The pack record after the first `n` lines of a `pwr` response.
pub open spec fn pwr_fold(power: u32, lines: Seq<Seq<char>>, n: int) -> PowerView
    decreases n,
{
    if n <= 0 {
        blank_power(power)
    } else {
        pwr_step(pwr_fold(power, lines, n - 1), lines[n - 1])
    }
}

/// Reads the response to `pwr <power>`.
pub fn parse_pwr(power: u32, lines: &[String]) -> (r: Result<PowerData, ParseError>)
    ensures
        r matches Ok(d) && d@ == pwr_fold(power, lines_view(lines@), lines@.len() as int),
{
    let mut data = PowerData::new(power);
    let mut i: usize = 0;
    while i < lines.len()
        invariant
            i <= lines.len(),
            data@ == pwr_fold(power, lines_view(lines@), i as int),
        decreases lines.len() - i,
    {
        let raw = chars_of(lines[i].as_str());
        assert(raw@ == lines_view(lines@)[i as int]);
        let l = trim_start_chars(&raw);
        let val = line_value_chars(&l);
        if starts_with_str(&l, "Voltage") {
            data.voltage = parse_scaled_chars(&val);
        } else if starts_with_str(&l, "Current Status") {
            data.current_st = Some(first_token_string(&val));
        } else if starts_with_str(&l, "Current ") || starts_with_str(&l, "Current\t") || eq_str(
            &l,
            "Current",
        ) || starts_with_str(&l, "Current:") {
            data.current = parse_scaled_chars(&val);
        } else if starts_with_str(&l, "Temperature") {
            data.temperature = parse_scaled_chars(&val);
        } else if starts_with_str(&l, "Coulomb") {
            data.soc = parse_int_chars(&val);
        } else if starts_with_str(&l, "Basic Status") {
            data.basic_st = first_token_string(&val);
        } else if starts_with_str(&l, "Volt Status") {
            data.volt_st = Some(first_token_string(&val));
        } else if starts_with_str(&l, "Tmpr. Status") {
            data.temp_st = Some(first_token_string(&val));
        } else if starts_with_str(&l, "Coul. Status") {
            data.coul_st = Some(first_token_string(&val));
        } else if starts_with_str(&l, "Soh. Status") {
            data.soh_st = Some(first_token_string(&val));
        } else if starts_with_str(&l, "Heater Status") {
            data.heater_st = Some(first_token_string(&val));
        } else if starts_with_str(&l, "Bat Events") {
            data.bat_events = Some(parse_hex_chars(&val));
        } else if starts_with_str(&l, "Power Events") {
            data.power_events = Some(parse_hex_chars(&val));
        } else if starts_with_str(&l, "System Fault") {
            data.sys_events = Some(parse_hex_chars(&val));
        }
        i = i + 1;
    }
    Ok(data)
}


/// What one line of a `pwrsys` response changes in the system record.
pub open spec fn pwrsys_step(d: PwrsysData, raw: Seq<char>) -> PwrsysData {
    let l = trim_start(raw);
    let val = line_value(l);
    if starts_with(l, "Total Num"@) {
        PwrsysData { banks_total: int_value(val), ..d }
    } else if starts_with(l, "Present Num"@) {
        PwrsysData { banks_current: int_value(val), ..d }
    } else if starts_with(l, "Sleep Num"@) {
        PwrsysData { banks_sleep: int_value(val), ..d }
    } else if starts_with(l, "System Volt"@) {
        PwrsysData { system_voltage: scaled_value(val), ..d }
    } else if starts_with(l, "System Curr"@) {
        PwrsysData { system_current: scaled_value(val), ..d }
    } else if starts_with(l, "System RC"@) {
        PwrsysData { system_rc: scaled_value(val), ..d }
    } else if starts_with(l, "System FCC"@) {
        PwrsysData { system_fcc: scaled_value(val), ..d }
    } else if starts_with(l, "System SOC"@) {
        PwrsysData { system_soc: int_value(val), ..d }
    } else if starts_with(l, "System SOH"@) {
        PwrsysData { system_soh: int_value(val), ..d }
    } else if starts_with(l, "Highest voltage"@) {
        PwrsysData { system_highest_voltage: scaled_value(val), ..d }
    } else if starts_with(l, "Average voltage"@) {
        PwrsysData { system_average_voltage: scaled_value(val), ..d }
    } else if starts_with(l, "Lowest voltage"@) {
        PwrsysData { system_lowest_voltage: scaled_value(val), ..d }
    } else if starts_with(l, "Highest temperature"@) {
        PwrsysData { system_highest_temp: scaled_value(val), ..d }
    } else if starts_with(l, "Average temperature"@) {
        PwrsysData { system_average_temp: scaled_value(val), ..d }
    } else if starts_with(l, "Lowest temperature"@) {
        PwrsysData { system_lowest_temp: scaled_value(val), ..d }
    } else if starts_with(l, "Recommend chg voltage"@) {
        PwrsysData { system_recommend_chg_volt: scaled_value(val), ..d }
    } else if starts_with(l, "Recommend dsg voltage"@) {
        PwrsysData { system_recommend_dsg_volt: scaled_value(val), ..d }
    } else if starts_with(l, "Recommend chg current"@) {
        PwrsysData { system_recommend_chg_curr: scaled_value(val), ..d }
    } else if starts_with(l, "Recommend dsg current"@) {
        PwrsysData { system_recommend_dsg_curr: scaled_value(val), ..d }
    } else {
        d
    }
}

/// The system record after the first `n` lines of a `pwrsys` response.
pub open spec fn pwrsys_fold(lines: Seq<Seq<char>>, n: int) -> PwrsysData
    decreases n,
{
    if n <= 0 {
        zero_pwrsys()
    } else {
        pwrsys_step(pwrsys_fold(lines, n - 1), lines[n - 1])
    }
}

/// Reads the response to `pwrsys`.
pub fn parse_pwrsys(lines: &[String]) -> (r: Result<PwrsysData, ParseError>)
    ensures
        r == Ok::<PwrsysData, ParseError>(pwrsys_fold(lines_view(lines@), lines@.len() as int)),
{
    let mut d = PwrsysData::zeroed();
    let mut i: usize = 0;
    while i < lines.len()
        invariant
            i <= lines.len(),
            d == pwrsys_fold(lines_view(lines@), i as int),
        decreases lines.len() - i,
    {
        let raw = chars_of(lines[i].as_str());
        assert(raw@ == lines_view(lines@)[i as int]);
        let l = trim_start_chars(&raw);
        let val = line_value_chars(&l);
        if starts_with_str(&l, "Total Num") {
            d.banks_total = parse_int_chars(&val);
        } else if starts_with_str(&l, "Present Num") {
            d.banks_current = parse_int_chars(&val);
        } else if starts_with_str(&l, "Sleep Num") {
            d.banks_sleep = parse_int_chars(&val);
        } else if starts_with_str(&l, "System Volt") {
            d.system_voltage = parse_scaled_chars(&val);
        } else if starts_with_str(&l, "System Curr") {
            d.system_current = parse_scaled_chars(&val);
        } else if starts_with_str(&l, "System RC") {
            d.system_rc = parse_scaled_chars(&val);
        } else if starts_with_str(&l, "System FCC") {
            d.system_fcc = parse_scaled_chars(&val);
        } else if starts_with_str(&l, "System SOC") {
            d.system_soc = parse_int_chars(&val);
        } else if starts_with_str(&l, "System SOH") {
            d.system_soh = parse_int_chars(&val);
        } else if starts_with_str(&l, "Highest voltage") {
            d.system_highest_voltage = parse_scaled_chars(&val);
        } else if starts_with_str(&l, "Average voltage") {
            d.system_average_voltage = parse_scaled_chars(&val);
        } else if starts_with_str(&l, "Lowest voltage") {
            d.system_lowest_voltage = parse_scaled_chars(&val);
        } else if starts_with_str(&l, "Highest temperature") {
            d.system_highest_temp = parse_scaled_chars(&val);
        } else if starts_with_str(&l, "Average temperature") {
            d.system_average_temp = parse_scaled_chars(&val);
        } else if starts_with_str(&l, "Lowest temperature") {
            d.system_lowest_temp = parse_scaled_chars(&val);
        } else if starts_with_str(&l, "Recommend chg voltage") {
            d.system_recommend_chg_volt = parse_scaled_chars(&val);
        } else if starts_with_str(&l, "Recommend dsg voltage") {
            d.system_recommend_dsg_volt = parse_scaled_chars(&val);
        } else if starts_with_str(&l, "Recommend chg current") {
            d.system_recommend_chg_curr = parse_scaled_chars(&val);
        } else if starts_with_str(&l, "Recommend dsg current") {
            d.system_recommend_dsg_curr = parse_scaled_chars(&val);
        }
        i = i + 1;
    }
    Ok(d)
}


pub open spec fn min_int(a: int, b: int) -> int {
    if a <= b {
        a
    } else {
        b
    }
}

/// Characters `a..b` of `s` (as far as `s` reaches), trimmed.
pub open spec fn slice_text(s: Seq<char>, a: int, b: int) -> Seq<char> {
    trim(s.subrange(min_int(a, s.len() as int), min_int(b, s.len() as int)))
}

/// The first token with a digit after the line's first `:`.
pub open spec fn number_segment(s: Seq<char>) -> Option<Seq<char>> {
    match after_char(s, ':') {
        Some(t) => first_digit_token(trim(t)),
        None => None,
    }
}

/// The text of the number in columns `a..b` of a line, `%` signs trimmed; when those
/// columns are blank, the first number after the line's `:` instead.
pub open spec fn slice_int_text(s: Seq<char>, a: int, b: int) -> Seq<char> {
    let seg = slice_text(s, a, b);
    if seg.len() == 0 && number_segment(s) is Some {
        trim_char(number_segment(s)->0, '%')
    } else {
        trim_char(seg, '%')
    }
}

/// The number in columns `a..b` of a line (see [`slice_int_text`]), if it reads as `u32`.
pub open spec fn slice_int_value(s: Seq<char>, a: int, b: int) -> Option<u32> {
    parse_u32(slice_int_text(s, a, b))
}

/// Why the number in columns `a..b` of a line does not read as `u32`.
pub open spec fn slice_int_error(s: Seq<char>, a: int, b: int) -> NumberError {
    int_error(slice_int_text(s, a, b), 0, u32::MAX as int)
}

fn slice_chars(v: &Vec<char>, a: usize, b: usize) -> (r: Vec<char>)
    requires
        a <= b,
    ensures
        r@ == slice_text(v@, a as int, b as int),
{
    let lo: usize = if a <= v.len() {
        a
    } else {
        v.len()
    };
    let hi: usize = if b <= v.len() {
        b
    } else {
        v.len()
    };
    let part = sub_chars(v, lo, hi);
    trim_chars(&part)
}

fn number_segment_chars(v: &Vec<char>) -> (r: Option<Vec<char>>)
    ensures
        match r {
            Some(t) => number_segment(v@) == Some(t@),
            None => number_segment(v@) is None,
        },
{
    match after_char_chars(v, ':') {
        Some(t) => {
            let tt = trim_chars(&t);
            first_digit_token_chars(&tt)
        },
        None => None,
    }
}

fn slice_int_chars(v: &Vec<char>, a: usize, b: usize) -> (r: Result<u32, ParseError>)
    requires
        a <= b,
    ensures
        match slice_int_value(v@, a as int, b as int) {
            Some(n) => r == Ok::<u32, ParseError>(n),
            None => r == Err::<u32, ParseError>(ParseError::InvalidNumber(slice_int_error(v@, a as int, b as int))),
        },
{
    let seg = slice_chars(v, a, b);
    let t = if seg.len() == 0 {
        match number_segment_chars(v) {
            Some(tok) => trim_char_chars(&tok, '%'),
            None => trim_char_chars(&seg, '%'),
        }
    } else {
        trim_char_chars(&seg, '%')
    };
    assert(t@ == slice_int_text(v@, a as int, b as int));
    match parse_u32_chars(&t) {
        Some(n) => Ok(n),
        None => Err(ParseError::InvalidNumber(u32_error_chars(&t))),
    }
}

/// Characters `a..b` of `s`, trimmed.
pub fn slice_str(s: &str, a: usize, b: usize) -> (r: String)
    requires
        a <= b,
    ensures
        r@ == slice_text(s@, a as int, b as int),
{
    string_of(&slice_chars(&chars_of(s), a, b))
}

/// The first token with a digit after the first `:` of `s`.
pub fn extract_number_segment(s: &str) -> (r: Option<String>)
    ensures
        match r {
            Some(t) => number_segment(s@) == Some(t@),
            None => number_segment(s@) is None,
        },
{
    match number_segment_chars(&chars_of(s)) {
        Some(t) => Some(string_of(&t)),
        None => None,
    }
}

/// The number in columns `a..b` of `s`, or after its `:` when those columns are blank.
pub fn slice_int(s: &str, a: usize, b: usize) -> (r: Result<u32, ParseError>)
    requires
        a <= b,
    ensures
        match slice_int_value(s@, a as int, b as int) {
            Some(n) => r == Ok::<u32, ParseError>(n),
            None => r == Err::<u32, ParseError>(ParseError::InvalidNumber(slice_int_error(s@, a as int, b as int))),
        },
{
    slice_int_chars(&chars_of(s), a, b)
}

/// An integer field of a console line (see [`int_value`]); it always reads.
pub fn parse_int(token: &str) -> (r: Result<u32, ParseError>)
    ensures
        r == Ok::<u32, ParseError>(int_value(token@)),
{
    Ok(parse_int_chars(&chars_of(token)))
}

/// A hexadecimal field of a console line (see [`hex_value`]); it always reads.
pub fn parse_hex(token: &str) -> (r: Result<u64, ParseError>)
    ensures
        r == Ok::<u64, ParseError>(hex_value(token@)),
{
    Ok(parse_hex_chars(&chars_of(token)))
}

/// A scaled field of a console line, in thousandths (see [`scaled_value`]); it always reads.
pub fn parse_scaled(token: &str) -> (r: Result<i32, ParseError>)
    ensures
        r == Ok::<i32, ParseError>(scaled_value(token@)),
{
    Ok(parse_scaled_chars(&chars_of(token)))
}

/// The marker of a `stat` line that carries the cycle count.
pub open spec fn cycle_marker() -> Seq<char> {
    "CYCLE Times     :"@
}

/// The cycle count after the first `n` lines of a `stat` response, starting from `c0`,
/// and whether every marked line so far held a number. Reading stops at the first
/// marked line that does not.
pub open spec fn stat_fold(lines: Seq<Seq<char>>, n: int, c0: Option<u64>) -> (Option<u64>, bool)
    decreases n,
{
    if n <= 0 {
        (c0, true)
    } else {
        let (c, ok) = stat_fold(lines, n - 1, c0);
        if !ok {
            (c, false)
        } else if contains(lines[n - 1], cycle_marker()) {
            match slice_int_value(lines[n - 1], 18, 27) {
                Some(v) => (Some(v as u64), true),
                None => (c, false),
            }
        } else {
            (c, true)
        }
    }
}

/// Why reading stopped: the error of the marked line at which the first `n` lines of a
/// `stat` response first failed to read.
pub open spec fn stat_failure(lines: Seq<Seq<char>>, n: int, c0: Option<u64>) -> NumberError
    decreases n,
{
    if n <= 0 {
        NumberError::InvalidDigit
    } else if !stat_fold(lines, n - 1, c0).1 {
        stat_failure(lines, n - 1, c0)
    } else {
        slice_int_error(lines[n - 1], 18, 27)
    }
}

/// Index of the first record of pack `power`, from index `i` (the length when none).
pub open spec fn index_of_power(list: Seq<PowerData>, power: u32, i: int) -> int
    decreases list.len() - i,
{
    if 0 <= i < list.len() {
        if list[i].power == power {
            i
        } else {
            index_of_power(list, power, i + 1)
        }
    } else {
        list.len() as int
    }
}

/// The effect of `parse_stat` on the pack list: the first record of pack `power` gets the
/// cycle count that the response's marked lines give; whether every marked line read;
/// and, when one did not, why.
pub open spec fn stat_update(list: Seq<PowerData>, power: u32, lines: Seq<Seq<char>>) -> (Seq<PowerData>, bool, NumberError) {
    let k = index_of_power(list, power, 0);
    if k < list.len() {
        let (c, ok) = stat_fold(lines, lines.len() as int, list[k].cycle_times);
        (
            list.update(k, PowerData { cycle_times: c, ..list[k] }),
            ok,
            stat_failure(lines, lines.len() as int, list[k].cycle_times),
        )
    } else {
        (list, true, NumberError::InvalidDigit)
    }
}

/// After the first failing line, the reason no longer changes.
proof fn lemma_stat_failure_stuck(lines: Seq<Seq<char>>, m: int, n: int, c0: Option<u64>)
    requires
        1 <= m <= n,
        stat_fold(lines, m - 1, c0).1,
        !stat_fold(lines, m, c0).1,
    ensures
        stat_failure(lines, n, c0) == stat_failure(lines, m, c0),
    decreases n - m,
{
    if n > m {
        lemma_stat_fold_stuck(lines, m, n - 1, c0);
        lemma_stat_failure_stuck(lines, m, n - 1, c0);
    }
}

/// Once a marked line fails to read, the outcome no longer changes.
proof fn lemma_stat_fold_stuck(lines: Seq<Seq<char>>, m: int, n: int, c0: Option<u64>)
    requires
        0 <= m <= n,
        !stat_fold(lines, m, c0).1,
    ensures
        stat_fold(lines, n, c0) == stat_fold(lines, m, c0),
    decreases n - m,
{
    if n > m {
        lemma_stat_fold_stuck(lines, m, n - 1, c0);
    }
}

proof fn lemma_index_of_power(list: Seq<PowerData>, power: u32, i: int)
    requires
        0 <= i <= list.len(),
    ensures
        i <= index_of_power(list, power, i) <= list.len(),
        index_of_power(list, power, i) < list.len() ==> list[index_of_power(list, power, i)].power
            == power,
    decreases list.len() - i,
{
    if i < list.len() && list[i].power != power {
        lemma_index_of_power(list, power, i + 1);
    }
}

/// Reads the response to `stat <power>` into the record of pack `power`, if the list
/// has one. A marked line without a number ends the reading with an error; the counts
/// read before it stay.
pub fn parse_stat(power: u32, lines: &[String], pwr_list: &mut Vec<PowerData>) -> (r: Result<
    (),
    ParseError,
>)
    ensures
        final(pwr_list)@ == stat_update(old(pwr_list)@, power, lines_view(lines@)).0,
        r is Ok <==> stat_update(old(pwr_list)@, power, lines_view(lines@)).1,
        r is Err ==> r == Err::<(), ParseError>(
            ParseError::InvalidNumber(stat_update(old(pwr_list)@, power, lines_view(lines@)).2),
        ),
{
    let mut k: usize = 0;
    while k < pwr_list.len() && pwr_list[k].power != power
        invariant
            k <= pwr_list.len(),
            pwr_list@ == old(pwr_list)@,
            index_of_power(pwr_list@, power, k as int) == index_of_power(pwr_list@, power, 0),
        decreases pwr_list.len() - k,
    {
        k = k + 1;
    }
    proof {
        lemma_index_of_power(pwr_list@, power, 0);
    }
    if k == pwr_list.len() {
        return Ok(());
    }
    let ghost list0 = pwr_list@;
    let ghost c0 = list0[k as int].cycle_times;
    let mut i: usize = 0;
    while i < lines.len()
        invariant
            i <= lines.len(),
            k < list0.len(),
            list0 == old(pwr_list)@,
            k == index_of_power(list0, power, 0),
            c0 == list0[k as int].cycle_times,
            stat_fold(lines_view(lines@), i as int, c0).1,
            pwr_list@ == list0.update(
                k as int,
                PowerData { cycle_times: stat_fold(lines_view(lines@), i as int, c0).0, ..list0[k as int] },
            ),
        decreases lines.len() - i,
    {
        let l = chars_of(lines[i].as_str());
        assert(l@ == lines_view(lines@)[i as int]);
        if contains_str(&l, "CYCLE Times     :") {
            match slice_int_chars(&l, 18, 27) {
                Ok(v) => {
                    pwr_list[k].cycle_times = Some(v as u64);
                },
                Err(e) => {
                    proof {
                        assert(!stat_fold(lines_view(lines@), i + 1, c0).1);
                        lemma_stat_fold_stuck(lines_view(lines@), i + 1, lines@.len() as int, c0);
                        lemma_stat_failure_stuck(lines_view(lines@), i + 1, lines@.len() as int, c0);
                        assert(pwr_list@ =~= list0.update(
                            k as int,
                            PowerData {
                                cycle_times: stat_fold(lines_view(lines@), i + 1, c0).0,
                                ..list0[k as int]
                            },
                        ));
                    }
                    return Err(e);
                },
            }
        }
        i = i + 1;
        assert(pwr_list@ =~= list0.update(
            k as int,
            PowerData { cycle_times: stat_fold(lines_view(lines@), i as int, c0).0, ..list0[k as int] },
        ));
    }
    Ok(())
}


/// The state of cutting `s` at runs of two or more whitespace characters, after its first
/// `n` characters: the finished pieces, the piece being read, and the whitespace run that
/// follows that piece (a separator once it is two characters long, else part of the piece).
pub open spec fn gap_split_fold(s: Seq<char>, n: int) -> (Seq<Seq<char>>, Seq<char>, Seq<char>)
    decreases n,
{
    if n <= 0 {
        (seq![], seq![], seq![])
    } else {
        let (done, cur, run) = gap_split_fold(s, n - 1);
        let c = s[n - 1];
        if is_ws(c) {
            (done, cur, run.push(c))
        } else if run.len() >= 2 {
            (done.push(cur), seq![c], seq![])
        } else {
            (done, cur + run.push(c), seq![])
        }
    }
}

/// The pieces of `line` between the runs of two or more whitespace characters (Unicode
/// `White_Space`, the class `\s`), as `regex::Regex::split` with the pattern `\s{2,}`
/// gives them: such a run at the start or the end leaves an empty piece there, and a line
/// without one is a single piece.
pub open spec fn wide_gap_columns(line: Seq<char>) -> Seq<Seq<char>> {
    let (done, cur, run) = gap_split_fold(line, line.len() as int);
    if run.len() >= 2 {
        done.push(cur).push(seq![])
    } else {
        done.push(cur + run)
    }
}

/// Splits `line` at runs of two or more whitespace characters with the `regex` crate:
/// `Regex::new(r"\s{2,}")` and `Regex::split`. The pattern is a constant that compiles, so
/// `Regex::new` does not fail; the matches of the greedy `\s{2,}` are exactly the maximal
/// runs of two or more whitespace characters, and the pieces are what lies between them.
#[verifier::external_body]
fn split_wide_gaps(line: &str) -> (cols: Vec<String>)
    ensures
        cols@.map_values(|c: String| c@) == wide_gap_columns(line@),
{
    let re = regex::Regex::new(r"\s{2,}").unwrap();
    re.split(line).map(|c| c.to_string()).collect()
}

/// `column` read as `i32`, if it reads.
pub open spec fn opt_i32(column: Seq<char>) -> Option<i32> {
    parse_i32(column)
}

/// The cell that a `bat` line's columns describe: number (counted from one), voltage,
/// and, as the level asks, temperature (fourth column) and current (third column).
pub open spec fn cell_of_columns(power: u32, cols: Seq<Seq<char>>, level: MonitoringLevel) -> CellView {
    CellView {
        power,
        cell: match parse_u32(cols[0]) {
            Some(cn) => if cn == u32::MAX {
                0
            } else {
                (cn + 1) as u32
            },
            None => 0,
        },
        voltage: match parse_i32(cols[1]) {
            Some(v) => v,
            None => 0,
        },
        temperature: if level.spec_reads_temperature() && cols.len() > 3 {
            parse_i32(cols[3])
        } else {
            None
        },
        current: if level == MonitoringLevel::High && cols.len() > 2 {
            parse_i32(cols[2])
        } else {
            None
        },
        basic_st: None,
        volt_st: None,
        curr_st: None,
        temp_st: None,
        soc: None,
        coulomb: None,
    }
}

/// The cells of a `bat` response after its first `n` lines: the header and the
/// `Command completed` line are skipped, and so are lines of fewer than two columns.
pub open spec fn bat_fold(power: u32, lines: Seq<Seq<char>>, level: MonitoringLevel, n: int) -> Seq<CellView>
    decreases n,
{
    if n <= 0 {
        seq![]
    } else {
        let acc = bat_fold(power, lines, level, n - 1);
        let l = lines[n - 1];
        if n - 1 == 0 || contains(l, "Command completed"@) {
            acc
        } else {
            let cols = wide_gap_columns(trim(l));
            if cols.len() < 2 {
                acc
            } else {
                acc.push(cell_of_columns(power, cols, level))
            }
        }
    }
}

/// The lowest voltage of a non-empty list of cells.
pub open spec fn min_voltage(cells: Seq<CellView>) -> i32
    decreases cells.len(),
{
    if cells.len() <= 1 {
        cells[0].voltage
    } else {
        let m = min_voltage(cells.drop_last());
        if cells.last().voltage < m {
            cells.last().voltage
        } else {
            m
        }
    }
}

/// The highest voltage of a non-empty list of cells.
pub open spec fn max_voltage(cells: Seq<CellView>) -> i32
    decreases cells.len(),
{
    if cells.len() <= 1 {
        cells[0].voltage
    } else {
        let m = max_voltage(cells.drop_last());
        if cells.last().voltage > m {
            cells.last().voltage
        } else {
            m
        }
    }
}

/// The pack that a `bat` response describes.
pub open spec fn bat_pack(power: u32, lines: Seq<Seq<char>>, level: MonitoringLevel) -> CellPackView {
    let cells = bat_fold(power, lines, level, lines.len() as int);
    let spread = level.spec_reads_temperature() && cells.len() > 0;
    CellPackView {
        power,
        voltage_delta: if spread {
            Some((max_voltage(cells) - min_voltage(cells)) as i64)
        } else {
            None
        },
        voltage_min: if spread {
            Some(min_voltage(cells))
        } else {
            None
        },
        voltage_max: if spread {
            Some(max_voltage(cells))
        } else {
            None
        },
        temperature_delta: None,
        temperature_min: None,
        temperature_max: None,
        cells,
    }
}

/// The cell that the columns of one `bat` line describe; nothing for fewer than two columns.
pub fn cell_from_columns(power: u32, cols: &Vec<String>, level: &MonitoringLevel) -> (c: Option<CellData>)
    ensures
        c is None <==> cols@.len() < 2,
        c matches Some(cell) ==> cell@ == cell_of_columns(
            power,
            cols@.map_values(|s: String| s@),
            *level,
        ),
{
    if cols.len() < 2 {
        return None;
    }
    let ghost cv = cols@.map_values(|s: String| s@);
    let c0 = chars_of(cols[0].as_str());
    let c1 = chars_of(cols[1].as_str());
    assert(c0@ == cv[0] && c1@ == cv[1]);
    let cell: u32 = match parse_u32_chars(&c0) {
        Some(cn) => cn.wrapping_add(1),
        None => 0,
    };
    let voltage: i32 = match parse_i32_chars(&c1) {
        Some(v) => v,
        None => 0,
    };
    let temperature = if level.reads_temperature() && cols.len() > 3 {
        let c3 = chars_of(cols[3].as_str());
        assert(c3@ == cv[3]);
        parse_i32_chars(&c3)
    } else {
        None
    };
    let current = if *level == MonitoringLevel::High && cols.len() > 2 {
        let c2 = chars_of(cols[2].as_str());
        assert(c2@ == cv[2]);
        parse_i32_chars(&c2)
    } else {
        None
    };
    Some(
        CellData {
            power,
            cell,
            voltage,
            temperature,
            current,
            basic_st: None,
            volt_st: None,
            curr_st: None,
            temp_st: None,
            soc: None,
            coulomb: None,
        },
    )
}

/// The lowest and highest voltage of a non-empty list of cells.
fn voltage_bounds(cells: &Vec<CellData>) -> (r: (i32, i32))
    requires
        cells.len() > 0,
    ensures
        r.0 == min_voltage(cells@.map_values(|c: CellData| c@)),
        r.1 == max_voltage(cells@.map_values(|c: CellData| c@)),
{
    let ghost cv = cells@.map_values(|c: CellData| c@);
    let mut lo: i32 = cells[0].voltage;
    let mut hi: i32 = cells[0].voltage;
    let mut i: usize = 1;
    assert(cv.take(1).len() == 1);
    while i < cells.len()
        invariant
            1 <= i <= cells.len(),
            cv == cells@.map_values(|c: CellData| c@),
            lo == min_voltage(cv.take(i as int)),
            hi == max_voltage(cv.take(i as int)),
        decreases cells.len() - i,
    {
        let v = cells[i].voltage;
        assert(cv.take(i + 1).drop_last() =~= cv.take(i as int));
        assert(cv.take(i + 1).last().voltage == v);
        if v < lo {
            lo = v;
        }
        if v > hi {
            hi = v;
        }
        i = i + 1;
    }
    assert(cv.take(cells.len() as int) =~= cv);
    (lo, hi)
}

proof fn lemma_min_le_max(cells: Seq<CellView>)
    requires
        cells.len() > 0,
    ensures
        min_voltage(cells) <= max_voltage(cells),
    decreases cells.len(),
{
    if cells.len() > 1 {
        lemma_min_le_max(cells.drop_last());
    }
}

/// Reads the response to `bat <power>`: one cell per line after the header.
pub fn parse_bat(power: u32, lines: &[String], _expected_cells: u32, level: &MonitoringLevel) -> (r: Result<CellPack, ParseError>)
    ensures
        lines@.len() < 2 ==> r == Err::<CellPack, ParseError>(ParseError::NotEnoughLines),
        lines@.len() >= 2 ==> (r matches Ok(p) && p@ == bat_pack(power, lines_view(lines@), *level)),
{
    if lines.len() < 2 {
        return Err(ParseError::NotEnoughLines);
    }
    let ghost lv = lines_view(lines@);
    let mut cells: Vec<CellData> = Vec::new();
    let mut i: usize = 0;
    while i < lines.len()
        invariant
            i <= lines.len(),
            lv == lines_view(lines@),
            cells@.map_values(|c: CellData| c@) == bat_fold(power, lv, *level, i as int),
        decreases lines.len() - i,
    {
        let ghost before = cells@.map_values(|c: CellData| c@);
        let l = chars_of(lines[i].as_str());
        assert(l@ == lv[i as int]);
        if i != 0 && !contains_str(&l, "Command completed") {
            let t = string_of(&trim_chars(&l));
            let cols = split_wide_gaps(t.as_str());
            match cell_from_columns(power, &cols, level) {
                Some(cell) => {
                    cells.push(cell);
                    assert(cells@.map_values(|c: CellData| c@) =~= before.push(cell@));
                },
                None => {},
            }
        }
        i = i + 1;
    }
    let ghost cv = cells@.map_values(|c: CellData| c@);
    let mut pack = CellPack {
        power,
        voltage_delta: None,
        voltage_min: None,
        voltage_max: None,
        temperature_delta: None,
        temperature_min: None,
        temperature_max: None,
        cells: Vec::new(),
    };
    if level.reads_temperature() && cells.len() > 0 {
        let (lo, hi) = voltage_bounds(&cells);
        proof {
            lemma_min_le_max(cv);
        }
        pack.voltage_min = Some(lo);
        pack.voltage_max = Some(hi);
        pack.voltage_delta = Some(hi as i64 - lo as i64);
    }
    pack.cells = cells;
    Ok(pack)
}


/// A `pwr` record always carries the pack number it was asked for.
pub proof fn law_pwr_keeps_pack_number(power: u32, lines: Seq<Seq<char>>, n: int)
    ensures
        pwr_fold(power, lines, n).power == power,
    decreases n,
{
    if n > 0 {
        law_pwr_keeps_pack_number(power, lines, n - 1);
    }
}

/// A line that names no known field leaves the `pwr` record as it was.
pub proof fn law_pwr_ignores_unknown_lines(d: PowerView, raw: Seq<char>)
    requires
        !starts_with(trim_start(raw), "Voltage"@),
        !starts_with(trim_start(raw), "Current"@),
        !starts_with(trim_start(raw), "Temperature"@),
        !starts_with(trim_start(raw), "Coul"@),
        !starts_with(trim_start(raw), "Basic Status"@),
        !starts_with(trim_start(raw), "Volt Status"@),
        !starts_with(trim_start(raw), "Tmpr. Status"@),
        !starts_with(trim_start(raw), "Soh. Status"@),
        !starts_with(trim_start(raw), "Heater Status"@),
        !starts_with(trim_start(raw), "Bat Events"@),
        !starts_with(trim_start(raw), "Power Events"@),
        !starts_with(trim_start(raw), "System Fault"@),
    ensures
        pwr_step(d, raw) == d,
{
    let l = trim_start(raw);
    assert(starts_with(l, "Current Status"@) ==> starts_with(l, "Current"@)) by {
        reveal_strlit("Current Status");
        reveal_strlit("Current");
        if starts_with(l, "Current Status"@) {
            assert(l.take(7) =~= l.take(14).take(7));
            assert("Current Status"@.take(7) =~= "Current"@);
        }
    }
    assert(is_current_line(l) ==> starts_with(l, "Current"@)) by {
        reveal_strlit("Current ");
        reveal_strlit("Current\t");
        reveal_strlit("Current:");
        reveal_strlit("Current");
        if starts_with(l, "Current "@) {
            assert(l.take(7) =~= l.take(8).take(7));
            assert("Current "@.take(7) =~= "Current"@);
        }
        if starts_with(l, "Current\t"@) {
            assert(l.take(7) =~= l.take(8).take(7));
            assert("Current\t"@.take(7) =~= "Current"@);
        }
        if starts_with(l, "Current:"@) {
            assert(l.take(7) =~= l.take(8).take(7));
            assert("Current:"@.take(7) =~= "Current"@);
        }
        if l == "Current"@ {
            assert(l.take(7) =~= l);
        }
    }
    assert(starts_with(l, "Coulomb"@) ==> starts_with(l, "Coul"@)) by {
        reveal_strlit("Coulomb");
        reveal_strlit("Coul");
        if starts_with(l, "Coulomb"@) {
            assert(l.take(4) =~= l.take(7).take(4));
            assert("Coulomb"@.take(4) =~= "Coul"@);
        }
    }
    assert(starts_with(l, "Coul. Status"@) ==> starts_with(l, "Coul"@)) by {
        reveal_strlit("Coul. Status");
        reveal_strlit("Coul");
        if starts_with(l, "Coul. Status"@) {
            assert(l.take(4) =~= l.take(12).take(4));
            assert("Coul. Status"@.take(4) =~= "Coul"@);
        }
    }
}

/// Scaled readings are never negative: a leading sign is not a digit, so `-5` reads as zero.
pub proof fn law_scaled_value_not_negative(token: Seq<char>)
    ensures
        scaled_value(token) >= 0,
{
    let core = number_token(token);
    lemma_digit_run_end(core, 0);
    let digits = core.take(digit_run_end(core, 0));
    if digits.len() > 0 {
        lemma_digit_run_all_digits(core, 0);
        if let Some(v) = parse_i32(digits) {
            assert(digits[0] != '-');
        }
    }
}

proof fn lemma_digit_run_all_digits(s: Seq<char>, i: int)
    requires
        0 <= i <= s.len(),
    ensures
        forall|k: int| i <= k < digit_run_end(s, i) ==> is_digit(#[trigger] s[k]),
    decreases s.len() - i,
{
    if i < s.len() && is_digit(s[i]) {
        lemma_digit_run_all_digits(s, i + 1);
    }
}

/// A `bat` response of `n` lines describes at most `n - 1` cells: the header is not a cell.
pub proof fn law_bat_cells_at_most_lines(power: u32, lines: Seq<Seq<char>>, level: MonitoringLevel, n: int)
    requires
        n >= 1,
    ensures
        bat_fold(power, lines, level, n).len() <= n - 1,
    decreases n,
{
    if n > 1 {
        law_bat_cells_at_most_lines(power, lines, level, n - 1);
    } else {
        assert(bat_fold(power, lines, level, 0).len() == 0);
    }
}

/// The lowest and highest cell voltages bound every cell's voltage and are cell voltages.
pub proof fn law_voltage_bounds(cells: Seq<CellView>)
    requires
        cells.len() > 0,
    ensures
        forall|i: int| 0 <= i < cells.len() ==> min_voltage(cells) <= #[trigger] cells[i].voltage
            <= max_voltage(cells),
        exists|i: int| 0 <= i < cells.len() && #[trigger] cells[i].voltage == min_voltage(cells),
        exists|i: int| 0 <= i < cells.len() && #[trigger] cells[i].voltage == max_voltage(cells),
    decreases cells.len(),
{
    if cells.len() > 1 {
        let init = cells.drop_last();
        law_voltage_bounds(init);
        assert forall|i: int| 0 <= i < cells.len() implies min_voltage(cells)
            <= #[trigger] cells[i].voltage <= max_voltage(cells) by {
            if i < cells.len() - 1 {
                assert(cells[i] == init[i]);
            }
        }
        let a = choose|i: int| 0 <= i < init.len() && #[trigger] init[i].voltage == min_voltage(init);
        let b = choose|i: int| 0 <= i < init.len() && #[trigger] init[i].voltage == max_voltage(init);
        assert(cells[a] == init[a]);
        assert(cells[b] == init[b]);
        assert(cells[cells.len() - 1] == cells.last());
    } else {
        assert(cells[0].voltage == min_voltage(cells));
    }
}

/// The voltage spread of a `bat` pack, when given, is highest minus lowest and not negative.
pub proof fn law_bat_spread(power: u32, lines: Seq<Seq<char>>, level: MonitoringLevel)
    ensures
        ({
            let p = bat_pack(power, lines, level);
            p.voltage_delta is Some ==> {
                &&& p.voltage_delta->0 >= 0
                &&& p.voltage_min is Some
                &&& p.voltage_max is Some
                &&& p.voltage_delta->0 == p.voltage_max->0 - p.voltage_min->0
            }
        }),
{
    let cells = bat_fold(power, lines, level, lines.len() as int);
    if level.spec_reads_temperature() && cells.len() > 0 {
        lemma_min_le_max(cells);
    }
}

/// A response without the cycle-count marker leaves the pack list as it was, and reads.
pub proof fn law_stat_without_marker(list: Seq<PowerData>, power: u32, lines: Seq<Seq<char>>)
    requires
        forall|i: int| 0 <= i < lines.len() ==> !contains(#[trigger] lines[i], cycle_marker()),
    ensures
        stat_update(list, power, lines).0 == list,
        stat_update(list, power, lines).1,
{
    let k = index_of_power(list, power, 0);
    lemma_index_of_power(list, power, 0);
    if k < list.len() {
        lemma_stat_fold_unmarked(lines, lines.len() as int, list[k].cycle_times);
        assert(list.update(k, PowerData { cycle_times: list[k].cycle_times, ..list[k] }) =~= list);
    }
}

proof fn lemma_stat_fold_unmarked(lines: Seq<Seq<char>>, n: int, c0: Option<u64>)
    requires
        n <= lines.len(),
        forall|i: int| 0 <= i < lines.len() ==> !contains(#[trigger] lines[i], cycle_marker()),
    ensures
        stat_fold(lines, n, c0) == (c0, true),
    decreases n,
{
    if n > 0 {
        lemma_stat_fold_unmarked(lines, n - 1, c0);
    }
}


/// Medium and High both read a cell's temperature from the fourth column (and Low does
/// not): a line with four or more columns whose fourth reads as `i32` gives that value.
pub proof fn law_cell_temperature_column(power: u32, cols: Seq<Seq<char>>)
    requires
        cols.len() > 3,
    ensures
        cell_of_columns(power, cols, MonitoringLevel::Medium).temperature == parse_i32(cols[3]),
        cell_of_columns(power, cols, MonitoringLevel::High).temperature == parse_i32(cols[3]),
        cell_of_columns(power, cols, MonitoringLevel::Low).temperature is None,
{
}

/// A High-level `bat` parse finds the same cells as a Medium-level one, with the same
/// numbers, voltages and temperatures; High adds the current.
pub proof fn law_high_cells_match_medium(power: u32, lines: Seq<Seq<char>>, n: int)
    requires
        0 <= n <= lines.len(),
    ensures
        bat_fold(power, lines, MonitoringLevel::High, n).len() == bat_fold(power, lines, MonitoringLevel::Medium, n).len(),
        forall|i: int|
            0 <= i < bat_fold(power, lines, MonitoringLevel::High, n).len() ==> {
                let h = #[trigger] bat_fold(power, lines, MonitoringLevel::High, n)[i];
                let m = bat_fold(power, lines, MonitoringLevel::Medium, n)[i];
                h.cell == m.cell && h.voltage == m.voltage && h.temperature == m.temperature
            },
    decreases n,
{
    if n > 0 {
        law_high_cells_match_medium(power, lines, n - 1);
    }
}

/// A `Sleep Num` line sets the number of sleeping packs to the integer after its `:` and
/// changes nothing else.
pub proof fn law_pwrsys_sleep_line(d: PwrsysData, raw: Seq<char>)
    requires
        starts_with(trim_start(raw), "Sleep Num"@),
    ensures
        pwrsys_step(d, raw) == (PwrsysData { banks_sleep: int_value(line_value(trim_start(raw))), ..d }),
{
    let l = trim_start(raw);
    reveal_strlit("Sleep Num");
    reveal_strlit("Total Num");
    reveal_strlit("Present Num");
    assert(l.take(9) == "Sleep Num"@);
    assert(l.take(9)[0] == l[0]);
    assert(l[0] == 'S');
    assert(!starts_with(l, "Total Num"@)) by {
        if starts_with(l, "Total Num"@) {
            assert(l.take(9)[0] == 'T');
        }
    }
    assert(!starts_with(l, "Present Num"@)) by {
        if starts_with(l, "Present Num"@) {
            assert(l.take(11)[0] == 'P');
        }
    }
}

/// The number of sleeping packs that `pwrsys` reports is the integer of the last
/// `Sleep Num` line of the response.
pub proof fn law_pwrsys_last_sleep_line_wins(lines: Seq<Seq<char>>, i: int)
    requires
        0 <= i < lines.len(),
        starts_with(trim_start(lines[i]), "Sleep Num"@),
        forall|j: int| i < j < lines.len() ==> !starts_with(trim_start(#[trigger] lines[j]), "Sleep Num"@),
    ensures
        pwrsys_fold(lines, lines.len() as int).banks_sleep == int_value(line_value(trim_start(lines[i]))),
{
    lemma_sleep_kept(lines, i, lines.len() as int);
}

proof fn lemma_sleep_kept(lines: Seq<Seq<char>>, i: int, n: int)
    requires
        0 <= i < n <= lines.len(),
        starts_with(trim_start(lines[i]), "Sleep Num"@),
        forall|j: int| i < j < lines.len() ==> !starts_with(trim_start(#[trigger] lines[j]), "Sleep Num"@),
    ensures
        pwrsys_fold(lines, n).banks_sleep == int_value(line_value(trim_start(lines[i]))),
    decreases n,
{
    if n == i + 1 {
        law_pwrsys_sleep_line(pwrsys_fold(lines, i), lines[i]);
    } else {
        lemma_sleep_kept(lines, i, n - 1);
        assert(!starts_with(trim_start(lines[n - 1]), "Sleep Num"@));
    }
}

/// The cycle count that `stat` stores is the number in columns 18 to 27 of the last line
/// with the cycle marker, when every marked line reads; the other records are untouched.
pub proof fn law_stat_reads_last_marked_line(list: Seq<PowerData>, power: u32, lines: Seq<Seq<char>>, i: int)
    requires
        index_of_power(list, power, 0) < list.len(),
        0 <= i < lines.len(),
        contains(lines[i], cycle_marker()),
        forall|j: int|
            0 <= j < lines.len() && contains(#[trigger] lines[j], cycle_marker()) ==> slice_int_value(
                lines[j],
                18,
                27,
            ) is Some,
        forall|j: int| i < j < lines.len() ==> !contains(#[trigger] lines[j], cycle_marker()),
    ensures
        stat_update(list, power, lines).1,
        stat_update(list, power, lines).0.len() == list.len(),
        stat_update(list, power, lines).0[index_of_power(list, power, 0)].cycle_times == Some(
            slice_int_value(lines[i], 18, 27)->0 as u64,
        ),
        forall|j: int|
            0 <= j < list.len() && j != index_of_power(list, power, 0) ==> #[trigger] stat_update(list, power, lines).0[j]
                == list[j],
{
    let k = index_of_power(list, power, 0);
    lemma_index_of_power(list, power, 0);
    lemma_stat_last_marked(lines, i, lines.len() as int, list[k].cycle_times);
}

proof fn lemma_stat_all_read(lines: Seq<Seq<char>>, n: int, c0: Option<u64>)
    requires
        0 <= n <= lines.len(),
        forall|j: int|
            0 <= j < lines.len() && contains(#[trigger] lines[j], cycle_marker()) ==> slice_int_value(
                lines[j],
                18,
                27,
            ) is Some,
    ensures
        stat_fold(lines, n, c0).1,
    decreases n,
{
    if n > 0 {
        lemma_stat_all_read(lines, n - 1, c0);
        if contains(lines[n - 1], cycle_marker()) {
            assert(slice_int_value(lines[n - 1], 18, 27) is Some);
        }
    }
}

proof fn lemma_stat_last_marked(lines: Seq<Seq<char>>, i: int, n: int, c0: Option<u64>)
    requires
        0 <= i < n <= lines.len(),
        contains(lines[i], cycle_marker()),
        forall|j: int|
            0 <= j < lines.len() && contains(#[trigger] lines[j], cycle_marker()) ==> slice_int_value(
                lines[j],
                18,
                27,
            ) is Some,
        forall|j: int| i < j < lines.len() ==> !contains(#[trigger] lines[j], cycle_marker()),
    ensures
        stat_fold(lines, n, c0) == (Some(slice_int_value(lines[i], 18, 27)->0 as u64), true),
    decreases n,
{
    lemma_stat_all_read(lines, n, c0);
    if n == i + 1 {
        lemma_stat_all_read(lines, i, c0);
        assert(slice_int_value(lines[i], 18, 27) is Some);
    } else {
        lemma_stat_last_marked(lines, i, n - 1, c0);
        assert(!contains(lines[n - 1], cycle_marker()));
    }
}

/// Two labels that differ at index `k` cannot both start one line.
proof fn lemma_label_clash(l: Seq<char>, a: Seq<char>, b: Seq<char>, k: int)
    requires
        starts_with(l, a),
        0 <= k < a.len(),
        k < b.len(),
        a[k] != b[k],
    ensures
        !starts_with(l, b),
{
    if starts_with(l, b) {
        assert(l.take(a.len() as int)[k] == l[k]);
        assert(l.take(b.len() as int)[k] == l[k]);
    }
}

proof fn lemma_pwrsys_label_0(d: PwrsysData, raw: Seq<char>)
    requires
        starts_with(trim_start(raw), "Total Num"@),
    ensures
        pwrsys_step(d, raw) == (PwrsysData { banks_total: int_value(line_value(trim_start(raw))), ..d }),
{
    let l = trim_start(raw);
    reveal_strlit("Total Num");
}

proof fn lemma_pwrsys_label_1(d: PwrsysData, raw: Seq<char>)
    requires
        starts_with(trim_start(raw), "Present Num"@),
    ensures
        pwrsys_step(d, raw) == (PwrsysData { banks_current: int_value(line_value(trim_start(raw))), ..d }),
{
    let l = trim_start(raw);
    reveal_strlit("Present Num");
    reveal_strlit("Total Num");
    assert("Present Num"@[0] == 'P');
    assert("Total Num"@[0] == 'T');
    lemma_label_clash(l, "Present Num"@, "Total Num"@, 0);
}

proof fn lemma_pwrsys_label_2(d: PwrsysData, raw: Seq<char>)
    requires
        starts_with(trim_start(raw), "Sleep Num"@),
    ensures
        pwrsys_step(d, raw) == (PwrsysData { banks_sleep: int_value(line_value(trim_start(raw))), ..d }),
{
    let l = trim_start(raw);
    reveal_strlit("Sleep Num");
    reveal_strlit("Total Num");
    assert("Sleep Num"@[0] == 'S');
    assert("Total Num"@[0] == 'T');
    lemma_label_clash(l, "Sleep Num"@, "Total Num"@, 0);
    reveal_strlit("Present Num");
    assert("Sleep Num"@[0] == 'S');
    assert("Present Num"@[0] == 'P');
    lemma_label_clash(l, "Sleep Num"@, "Present Num"@, 0);
}

proof fn lemma_pwrsys_label_3(d: PwrsysData, raw: Seq<char>)
    requires
        starts_with(trim_start(raw), "System Volt"@),
    ensures
        pwrsys_step(d, raw) == (PwrsysData { system_voltage: scaled_value(line_value(trim_start(raw))), ..d }),
{
    let l = trim_start(raw);
    reveal_strlit("System Volt");
    reveal_strlit("Total Num");
    assert("System Volt"@[0] == 'S');
    assert("Total Num"@[0] == 'T');
    lemma_label_clash(l, "System Volt"@, "Total Num"@, 0);
    reveal_strlit("Present Num");
    assert("System Volt"@[0] == 'S');
    assert("Present Num"@[0] == 'P');
    lemma_label_clash(l, "System Volt"@, "Present Num"@, 0);
    reveal_strlit("Sleep Num");
    assert("System Volt"@[1] == 'y');
    assert("Sleep Num"@[1] == 'l');
    lemma_label_clash(l, "System Volt"@, "Sleep Num"@, 1);
}

proof fn lemma_pwrsys_label_4(d: PwrsysData, raw: Seq<char>)
    requires
        starts_with(trim_start(raw), "System Curr"@),
    ensures
        pwrsys_step(d, raw) == (PwrsysData { system_current: scaled_value(line_value(trim_start(raw))), ..d }),
{
    let l = trim_start(raw);
    reveal_strlit("System Curr");
    reveal_strlit("Total Num");
    assert("System Curr"@[0] == 'S');
    assert("Total Num"@[0] == 'T');
    lemma_label_clash(l, "System Curr"@, "Total Num"@, 0);
    reveal_strlit("Present Num");
    assert("System Curr"@[0] == 'S');
    assert("Present Num"@[0] == 'P');
    lemma_label_clash(l, "System Curr"@, "Present Num"@, 0);
    reveal_strlit("Sleep Num");
    assert("System Curr"@[1] == 'y');
    assert("Sleep Num"@[1] == 'l');
    lemma_label_clash(l, "System Curr"@, "Sleep Num"@, 1);
    reveal_strlit("System Volt");
    assert("System Curr"@[7] == 'C');
    assert("System Volt"@[7] == 'V');
    lemma_label_clash(l, "System Curr"@, "System Volt"@, 7);
}

proof fn lemma_pwrsys_label_5(d: PwrsysData, raw: Seq<char>)
    requires
        starts_with(trim_start(raw), "System RC"@),
    ensures
        pwrsys_step(d, raw) == (PwrsysData { system_rc: scaled_value(line_value(trim_start(raw))), ..d }),
{
    let l = trim_start(raw);
    reveal_strlit("System RC");
    reveal_strlit("Total Num");
    assert("System RC"@[0] == 'S');
    assert("Total Num"@[0] == 'T');
    lemma_label_clash(l, "System RC"@, "Total Num"@, 0);
    reveal_strlit("Present Num");
    assert("System RC"@[0] == 'S');
    assert("Present Num"@[0] == 'P');
    lemma_label_clash(l, "System RC"@, "Present Num"@, 0);
    reveal_strlit("Sleep Num");
    assert("System RC"@[1] == 'y');
    assert("Sleep Num"@[1] == 'l');
    lemma_label_clash(l, "System RC"@, "Sleep Num"@, 1);
    reveal_strlit("System Volt");
    assert("System RC"@[7] == 'R');
    assert("System Volt"@[7] == 'V');
    lemma_label_clash(l, "System RC"@, "System Volt"@, 7);
    reveal_strlit("System Curr");
    assert("System RC"@[7] == 'R');
    assert("System Curr"@[7] == 'C');
    lemma_label_clash(l, "System RC"@, "System Curr"@, 7);
}

proof fn lemma_pwrsys_label_6(d: PwrsysData, raw: Seq<char>)
    requires
        starts_with(trim_start(raw), "System FCC"@),
    ensures
        pwrsys_step(d, raw) == (PwrsysData { system_fcc: scaled_value(line_value(trim_start(raw))), ..d }),
{
    let l = trim_start(raw);
    reveal_strlit("System FCC");
    reveal_strlit("Total Num");
    assert("System FCC"@[0] == 'S');
    assert("Total Num"@[0] == 'T');
    lemma_label_clash(l, "System FCC"@, "Total Num"@, 0);
    reveal_strlit("Present Num");
    assert("System FCC"@[0] == 'S');
    assert("Present Num"@[0] == 'P');
    lemma_label_clash(l, "System FCC"@, "Present Num"@, 0);
    reveal_strlit("Sleep Num");
    assert("System FCC"@[1] == 'y');
    assert("Sleep Num"@[1] == 'l');
    lemma_label_clash(l, "System FCC"@, "Sleep Num"@, 1);
    reveal_strlit("System Volt");
    assert("System FCC"@[7] == 'F');
    assert("System Volt"@[7] == 'V');
    lemma_label_clash(l, "System FCC"@, "System Volt"@, 7);
    reveal_strlit("System Curr");
    assert("System FCC"@[7] == 'F');
    assert("System Curr"@[7] == 'C');
    lemma_label_clash(l, "System FCC"@, "System Curr"@, 7);
    reveal_strlit("System RC");
    assert("System FCC"@[7] == 'F');
    assert("System RC"@[7] == 'R');
    lemma_label_clash(l, "System FCC"@, "System RC"@, 7);
}

proof fn lemma_pwrsys_label_7(d: PwrsysData, raw: Seq<char>)
    requires
        starts_with(trim_start(raw), "System SOC"@),
    ensures
        pwrsys_step(d, raw) == (PwrsysData { system_soc: int_value(line_value(trim_start(raw))), ..d }),
{
    let l = trim_start(raw);
    reveal_strlit("System SOC");
    reveal_strlit("Total Num");
    assert("System SOC"@[0] == 'S');
    assert("Total Num"@[0] == 'T');
    lemma_label_clash(l, "System SOC"@, "Total Num"@, 0);
    reveal_strlit("Present Num");
    assert("System SOC"@[0] == 'S');
    assert("Present Num"@[0] == 'P');
    lemma_label_clash(l, "System SOC"@, "Present Num"@, 0);
    reveal_strlit("Sleep Num");
    assert("System SOC"@[1] == 'y');
    assert("Sleep Num"@[1] == 'l');
    lemma_label_clash(l, "System SOC"@, "Sleep Num"@, 1);
    reveal_strlit("System Volt");
    assert("System SOC"@[7] == 'S');
    assert("System Volt"@[7] == 'V');
    lemma_label_clash(l, "System SOC"@, "System Volt"@, 7);
    reveal_strlit("System Curr");
    assert("System SOC"@[7] == 'S');
    assert("System Curr"@[7] == 'C');
    lemma_label_clash(l, "System SOC"@, "System Curr"@, 7);
    reveal_strlit("System RC");
    assert("System SOC"@[7] == 'S');
    assert("System RC"@[7] == 'R');
    lemma_label_clash(l, "System SOC"@, "System RC"@, 7);
    reveal_strlit("System FCC");
    assert("System SOC"@[7] == 'S');
    assert("System FCC"@[7] == 'F');
    lemma_label_clash(l, "System SOC"@, "System FCC"@, 7);
}

proof fn lemma_pwrsys_label_8(d: PwrsysData, raw: Seq<char>)
    requires
        starts_with(trim_start(raw), "System SOH"@),
    ensures
        pwrsys_step(d, raw) == (PwrsysData { system_soh: int_value(line_value(trim_start(raw))), ..d }),
{
    let l = trim_start(raw);
    reveal_strlit("System SOH");
    reveal_strlit("Total Num");
    assert("System SOH"@[0] == 'S');
    assert("Total Num"@[0] == 'T');
    lemma_label_clash(l, "System SOH"@, "Total Num"@, 0);
    reveal_strlit("Present Num");
    assert("System SOH"@[0] == 'S');
    assert("Present Num"@[0] == 'P');
    lemma_label_clash(l, "System SOH"@, "Present Num"@, 0);
    reveal_strlit("Sleep Num");
    assert("System SOH"@[1] == 'y');
    assert("Sleep Num"@[1] == 'l');
    lemma_label_clash(l, "System SOH"@, "Sleep Num"@, 1);
    reveal_strlit("System Volt");
    assert("System SOH"@[7] == 'S');
    assert("System Volt"@[7] == 'V');
    lemma_label_clash(l, "System SOH"@, "System Volt"@, 7);
    reveal_strlit("System Curr");
    assert("System SOH"@[7] == 'S');
    assert("System Curr"@[7] == 'C');
    lemma_label_clash(l, "System SOH"@, "System Curr"@, 7);
    reveal_strlit("System RC");
    assert("System SOH"@[7] == 'S');
    assert("System RC"@[7] == 'R');
    lemma_label_clash(l, "System SOH"@, "System RC"@, 7);
    reveal_strlit("System FCC");
    assert("System SOH"@[7] == 'S');
    assert("System FCC"@[7] == 'F');
    lemma_label_clash(l, "System SOH"@, "System FCC"@, 7);
    reveal_strlit("System SOC");
    assert("System SOH"@[9] == 'H');
    assert("System SOC"@[9] == 'C');
    lemma_label_clash(l, "System SOH"@, "System SOC"@, 9);
}

proof fn lemma_pwrsys_label_9(d: PwrsysData, raw: Seq<char>)
    requires
        starts_with(trim_start(raw), "Highest voltage"@),
    ensures
        pwrsys_step(d, raw) == (PwrsysData { system_highest_voltage: scaled_value(line_value(trim_start(raw))), ..d }),
{
    let l = trim_start(raw);
    reveal_strlit("Highest voltage");
    reveal_strlit("Total Num");
    assert("Highest voltage"@[0] == 'H');
    assert("Total Num"@[0] == 'T');
    lemma_label_clash(l, "Highest voltage"@, "Total Num"@, 0);
    reveal_strlit("Present Num");
    assert("Highest voltage"@[0] == 'H');
    assert("Present Num"@[0] == 'P');
    lemma_label_clash(l, "Highest voltage"@, "Present Num"@, 0);
    reveal_strlit("Sleep Num");
    assert("Highest voltage"@[0] == 'H');
    assert("Sleep Num"@[0] == 'S');
    lemma_label_clash(l, "Highest voltage"@, "Sleep Num"@, 0);
    reveal_strlit("System Volt");
    assert("Highest voltage"@[0] == 'H');
    assert("System Volt"@[0] == 'S');
    lemma_label_clash(l, "Highest voltage"@, "System Volt"@, 0);
    reveal_strlit("System Curr");
    assert("Highest voltage"@[0] == 'H');
    assert("System Curr"@[0] == 'S');
    lemma_label_clash(l, "Highest voltage"@, "System Curr"@, 0);
    reveal_strlit("System RC");
    assert("Highest voltage"@[0] == 'H');
    assert("System RC"@[0] == 'S');
    lemma_label_clash(l, "Highest voltage"@, "System RC"@, 0);
    reveal_strlit("System FCC");
    assert("Highest voltage"@[0] == 'H');
    assert("System FCC"@[0] == 'S');
    lemma_label_clash(l, "Highest voltage"@, "System FCC"@, 0);
    reveal_strlit("System SOC");
    assert("Highest voltage"@[0] == 'H');
    assert("System SOC"@[0] == 'S');
    lemma_label_clash(l, "Highest voltage"@, "System SOC"@, 0);
    reveal_strlit("System SOH");
    assert("Highest voltage"@[0] == 'H');
    assert("System SOH"@[0] == 'S');
    lemma_label_clash(l, "Highest voltage"@, "System SOH"@, 0);
}

proof fn lemma_pwrsys_label_10(d: PwrsysData, raw: Seq<char>)
    requires
        starts_with(trim_start(raw), "Average voltage"@),
    ensures
        pwrsys_step(d, raw) == (PwrsysData { system_average_voltage: scaled_value(line_value(trim_start(raw))), ..d }),
{
    let l = trim_start(raw);
    reveal_strlit("Average voltage");
    reveal_strlit("Total Num");
    assert("Average voltage"@[0] == 'A');
    assert("Total Num"@[0] == 'T');
    lemma_label_clash(l, "Average voltage"@, "Total Num"@, 0);
    reveal_strlit("Present Num");
    assert("Average voltage"@[0] == 'A');
    assert("Present Num"@[0] == 'P');
    lemma_label_clash(l, "Average voltage"@, "Present Num"@, 0);
    reveal_strlit("Sleep Num");
    assert("Average voltage"@[0] == 'A');
    assert("Sleep Num"@[0] == 'S');
    lemma_label_clash(l, "Average voltage"@, "Sleep Num"@, 0);
    reveal_strlit("System Volt");
    assert("Average voltage"@[0] == 'A');
    assert("System Volt"@[0] == 'S');
    lemma_label_clash(l, "Average voltage"@, "System Volt"@, 0);
    reveal_strlit("System Curr");
    assert("Average voltage"@[0] == 'A');
    assert("System Curr"@[0] == 'S');
    lemma_label_clash(l, "Average voltage"@, "System Curr"@, 0);
    reveal_strlit("System RC");
    assert("Average voltage"@[0] == 'A');
    assert("System RC"@[0] == 'S');
    lemma_label_clash(l, "Average voltage"@, "System RC"@, 0);
    reveal_strlit("System FCC");
    assert("Average voltage"@[0] == 'A');
    assert("System FCC"@[0] == 'S');
    lemma_label_clash(l, "Average voltage"@, "System FCC"@, 0);
    reveal_strlit("System SOC");
    assert("Average voltage"@[0] == 'A');
    assert("System SOC"@[0] == 'S');
    lemma_label_clash(l, "Average voltage"@, "System SOC"@, 0);
    reveal_strlit("System SOH");
    assert("Average voltage"@[0] == 'A');
    assert("System SOH"@[0] == 'S');
    lemma_label_clash(l, "Average voltage"@, "System SOH"@, 0);
    reveal_strlit("Highest voltage");
    assert("Average voltage"@[0] == 'A');
    assert("Highest voltage"@[0] == 'H');
    lemma_label_clash(l, "Average voltage"@, "Highest voltage"@, 0);
}

proof fn lemma_pwrsys_label_11(d: PwrsysData, raw: Seq<char>)
    requires
        starts_with(trim_start(raw), "Lowest voltage"@),
    ensures
        pwrsys_step(d, raw) == (PwrsysData { system_lowest_voltage: scaled_value(line_value(trim_start(raw))), ..d }),
{
    let l = trim_start(raw);
    reveal_strlit("Lowest voltage");
    reveal_strlit("Total Num");
    assert("Lowest voltage"@[0] == 'L');
    assert("Total Num"@[0] == 'T');
    lemma_label_clash(l, "Lowest voltage"@, "Total Num"@, 0);
    reveal_strlit("Present Num");
    assert("Lowest voltage"@[0] == 'L');
    assert("Present Num"@[0] == 'P');
    lemma_label_clash(l, "Lowest voltage"@, "Present Num"@, 0);
    reveal_strlit("Sleep Num");
    assert("Lowest voltage"@[0] == 'L');
    assert("Sleep Num"@[0] == 'S');
    lemma_label_clash(l, "Lowest voltage"@, "Sleep Num"@, 0);
    reveal_strlit("System Volt");
    assert("Lowest voltage"@[0] == 'L');
    assert("System Volt"@[0] == 'S');
    lemma_label_clash(l, "Lowest voltage"@, "System Volt"@, 0);
    reveal_strlit("System Curr");
    assert("Lowest voltage"@[0] == 'L');
    assert("System Curr"@[0] == 'S');
    lemma_label_clash(l, "Lowest voltage"@, "System Curr"@, 0);
    reveal_strlit("System RC");
    assert("Lowest voltage"@[0] == 'L');
    assert("System RC"@[0] == 'S');
    lemma_label_clash(l, "Lowest voltage"@, "System RC"@, 0);
    reveal_strlit("System FCC");
    assert("Lowest voltage"@[0] == 'L');
    assert("System FCC"@[0] == 'S');
    lemma_label_clash(l, "Lowest voltage"@, "System FCC"@, 0);
    reveal_strlit("System SOC");
    assert("Lowest voltage"@[0] == 'L');
    assert("System SOC"@[0] == 'S');
    lemma_label_clash(l, "Lowest voltage"@, "System SOC"@, 0);
    reveal_strlit("System SOH");
    assert("Lowest voltage"@[0] == 'L');
    assert("System SOH"@[0] == 'S');
    lemma_label_clash(l, "Lowest voltage"@, "System SOH"@, 0);
    reveal_strlit("Highest voltage");
    assert("Lowest voltage"@[0] == 'L');
    assert("Highest voltage"@[0] == 'H');
    lemma_label_clash(l, "Lowest voltage"@, "Highest voltage"@, 0);
    reveal_strlit("Average voltage");
    assert("Lowest voltage"@[0] == 'L');
    assert("Average voltage"@[0] == 'A');
    lemma_label_clash(l, "Lowest voltage"@, "Average voltage"@, 0);
}

proof fn lemma_pwrsys_label_12(d: PwrsysData, raw: Seq<char>)
    requires
        starts_with(trim_start(raw), "Highest temperature"@),
    ensures
        pwrsys_step(d, raw) == (PwrsysData { system_highest_temp: scaled_value(line_value(trim_start(raw))), ..d }),
{
    let l = trim_start(raw);
    reveal_strlit("Highest temperature");
    reveal_strlit("Total Num");
    assert("Highest temperature"@[0] == 'H');
    assert("Total Num"@[0] == 'T');
    lemma_label_clash(l, "Highest temperature"@, "Total Num"@, 0);
    reveal_strlit("Present Num");
    assert("Highest temperature"@[0] == 'H');
    assert("Present Num"@[0] == 'P');
    lemma_label_clash(l, "Highest temperature"@, "Present Num"@, 0);
    reveal_strlit("Sleep Num");
    assert("Highest temperature"@[0] == 'H');
    assert("Sleep Num"@[0] == 'S');
    lemma_label_clash(l, "Highest temperature"@, "Sleep Num"@, 0);
    reveal_strlit("System Volt");
    assert("Highest temperature"@[0] == 'H');
    assert("System Volt"@[0] == 'S');
    lemma_label_clash(l, "Highest temperature"@, "System Volt"@, 0);
    reveal_strlit("System Curr");
    assert("Highest temperature"@[0] == 'H');
    assert("System Curr"@[0] == 'S');
    lemma_label_clash(l, "Highest temperature"@, "System Curr"@, 0);
    reveal_strlit("System RC");
    assert("Highest temperature"@[0] == 'H');
    assert("System RC"@[0] == 'S');
    lemma_label_clash(l, "Highest temperature"@, "System RC"@, 0);
    reveal_strlit("System FCC");
    assert("Highest temperature"@[0] == 'H');
    assert("System FCC"@[0] == 'S');
    lemma_label_clash(l, "Highest temperature"@, "System FCC"@, 0);
    reveal_strlit("System SOC");
    assert("Highest temperature"@[0] == 'H');
    assert("System SOC"@[0] == 'S');
    lemma_label_clash(l, "Highest temperature"@, "System SOC"@, 0);
    reveal_strlit("System SOH");
    assert("Highest temperature"@[0] == 'H');
    assert("System SOH"@[0] == 'S');
    lemma_label_clash(l, "Highest temperature"@, "System SOH"@, 0);
    reveal_strlit("Highest voltage");
    assert("Highest temperature"@[8] == 't');
    assert("Highest voltage"@[8] == 'v');
    lemma_label_clash(l, "Highest temperature"@, "Highest voltage"@, 8);
    reveal_strlit("Average voltage");
    assert("Highest temperature"@[0] == 'H');
    assert("Average voltage"@[0] == 'A');
    lemma_label_clash(l, "Highest temperature"@, "Average voltage"@, 0);
    reveal_strlit("Lowest voltage");
    assert("Highest temperature"@[0] == 'H');
    assert("Lowest voltage"@[0] == 'L');
    lemma_label_clash(l, "Highest temperature"@, "Lowest voltage"@, 0);
}

proof fn lemma_pwrsys_label_13(d: PwrsysData, raw: Seq<char>)
    requires
        starts_with(trim_start(raw), "Average temperature"@),
    ensures
        pwrsys_step(d, raw) == (PwrsysData { system_average_temp: scaled_value(line_value(trim_start(raw))), ..d }),
{
    let l = trim_start(raw);
    reveal_strlit("Average temperature");
    reveal_strlit("Total Num");
    assert("Average temperature"@[0] == 'A');
    assert("Total Num"@[0] == 'T');
    lemma_label_clash(l, "Average temperature"@, "Total Num"@, 0);
    reveal_strlit("Present Num");
    assert("Average temperature"@[0] == 'A');
    assert("Present Num"@[0] == 'P');
    lemma_label_clash(l, "Average temperature"@, "Present Num"@, 0);
    reveal_strlit("Sleep Num");
    assert("Average temperature"@[0] == 'A');
    assert("Sleep Num"@[0] == 'S');
    lemma_label_clash(l, "Average temperature"@, "Sleep Num"@, 0);
    reveal_strlit("System Volt");
    assert("Average temperature"@[0] == 'A');
    assert("System Volt"@[0] == 'S');
    lemma_label_clash(l, "Average temperature"@, "System Volt"@, 0);
    reveal_strlit("System Curr");
    assert("Average temperature"@[0] == 'A');
    assert("System Curr"@[0] == 'S');
    lemma_label_clash(l, "Average temperature"@, "System Curr"@, 0);
    reveal_strlit("System RC");
    assert("Average temperature"@[0] == 'A');
    assert("System RC"@[0] == 'S');
    lemma_label_clash(l, "Average temperature"@, "System RC"@, 0);
    reveal_strlit("System FCC");
    assert("Average temperature"@[0] == 'A');
    assert("System FCC"@[0] == 'S');
    lemma_label_clash(l, "Average temperature"@, "System FCC"@, 0);
    reveal_strlit("System SOC");
    assert("Average temperature"@[0] == 'A');
    assert("System SOC"@[0] == 'S');
    lemma_label_clash(l, "Average temperature"@, "System SOC"@, 0);
    reveal_strlit("System SOH");
    assert("Average temperature"@[0] == 'A');
    assert("System SOH"@[0] == 'S');
    lemma_label_clash(l, "Average temperature"@, "System SOH"@, 0);
    reveal_strlit("Highest voltage");
    assert("Average temperature"@[0] == 'A');
    assert("Highest voltage"@[0] == 'H');
    lemma_label_clash(l, "Average temperature"@, "Highest voltage"@, 0);
    reveal_strlit("Average voltage");
    assert("Average temperature"@[8] == 't');
    assert("Average voltage"@[8] == 'v');
    lemma_label_clash(l, "Average temperature"@, "Average voltage"@, 8);
    reveal_strlit("Lowest voltage");
    assert("Average temperature"@[0] == 'A');
    assert("Lowest voltage"@[0] == 'L');
    lemma_label_clash(l, "Average temperature"@, "Lowest voltage"@, 0);
    reveal_strlit("Highest temperature");
    assert("Average temperature"@[0] == 'A');
    assert("Highest temperature"@[0] == 'H');
    lemma_label_clash(l, "Average temperature"@, "Highest temperature"@, 0);
}

proof fn lemma_pwrsys_label_14(d: PwrsysData, raw: Seq<char>)
    requires
        starts_with(trim_start(raw), "Lowest temperature"@),
    ensures
        pwrsys_step(d, raw) == (PwrsysData { system_lowest_temp: scaled_value(line_value(trim_start(raw))), ..d }),
{
    let l = trim_start(raw);
    reveal_strlit("Lowest temperature");
    reveal_strlit("Total Num");
    assert("Lowest temperature"@[0] == 'L');
    assert("Total Num"@[0] == 'T');
    lemma_label_clash(l, "Lowest temperature"@, "Total Num"@, 0);
    reveal_strlit("Present Num");
    assert("Lowest temperature"@[0] == 'L');
    assert("Present Num"@[0] == 'P');
    lemma_label_clash(l, "Lowest temperature"@, "Present Num"@, 0);
    reveal_strlit("Sleep Num");
    assert("Lowest temperature"@[0] == 'L');
    assert("Sleep Num"@[0] == 'S');
    lemma_label_clash(l, "Lowest temperature"@, "Sleep Num"@, 0);
    reveal_strlit("System Volt");
    assert("Lowest temperature"@[0] == 'L');
    assert("System Volt"@[0] == 'S');
    lemma_label_clash(l, "Lowest temperature"@, "System Volt"@, 0);
    reveal_strlit("System Curr");
    assert("Lowest temperature"@[0] == 'L');
    assert("System Curr"@[0] == 'S');
    lemma_label_clash(l, "Lowest temperature"@, "System Curr"@, 0);
    reveal_strlit("System RC");
    assert("Lowest temperature"@[0] == 'L');
    assert("System RC"@[0] == 'S');
    lemma_label_clash(l, "Lowest temperature"@, "System RC"@, 0);
    reveal_strlit("System FCC");
    assert("Lowest temperature"@[0] == 'L');
    assert("System FCC"@[0] == 'S');
    lemma_label_clash(l, "Lowest temperature"@, "System FCC"@, 0);
    reveal_strlit("System SOC");
    assert("Lowest temperature"@[0] == 'L');
    assert("System SOC"@[0] == 'S');
    lemma_label_clash(l, "Lowest temperature"@, "System SOC"@, 0);
    reveal_strlit("System SOH");
    assert("Lowest temperature"@[0] == 'L');
    assert("System SOH"@[0] == 'S');
    lemma_label_clash(l, "Lowest temperature"@, "System SOH"@, 0);
    reveal_strlit("Highest voltage");
    assert("Lowest temperature"@[0] == 'L');
    assert("Highest voltage"@[0] == 'H');
    lemma_label_clash(l, "Lowest temperature"@, "Highest voltage"@, 0);
    reveal_strlit("Average voltage");
    assert("Lowest temperature"@[0] == 'L');
    assert("Average voltage"@[0] == 'A');
    lemma_label_clash(l, "Lowest temperature"@, "Average voltage"@, 0);
    reveal_strlit("Lowest voltage");
    assert("Lowest temperature"@[7] == 't');
    assert("Lowest voltage"@[7] == 'v');
    lemma_label_clash(l, "Lowest temperature"@, "Lowest voltage"@, 7);
    reveal_strlit("Highest temperature");
    assert("Lowest temperature"@[0] == 'L');
    assert("Highest temperature"@[0] == 'H');
    lemma_label_clash(l, "Lowest temperature"@, "Highest temperature"@, 0);
    reveal_strlit("Average temperature");
    assert("Lowest temperature"@[0] == 'L');
    assert("Average temperature"@[0] == 'A');
    lemma_label_clash(l, "Lowest temperature"@, "Average temperature"@, 0);
}

proof fn lemma_pwrsys_label_15(d: PwrsysData, raw: Seq<char>)
    requires
        starts_with(trim_start(raw), "Recommend chg voltage"@),
    ensures
        pwrsys_step(d, raw) == (PwrsysData { system_recommend_chg_volt: scaled_value(line_value(trim_start(raw))), ..d }),
{
    let l = trim_start(raw);
    reveal_strlit("Recommend chg voltage");
    reveal_strlit("Total Num");
    assert("Recommend chg voltage"@[0] == 'R');
    assert("Total Num"@[0] == 'T');
    lemma_label_clash(l, "Recommend chg voltage"@, "Total Num"@, 0);
    reveal_strlit("Present Num");
    assert("Recommend chg voltage"@[0] == 'R');
    assert("Present Num"@[0] == 'P');
    lemma_label_clash(l, "Recommend chg voltage"@, "Present Num"@, 0);
    reveal_strlit("Sleep Num");
    assert("Recommend chg voltage"@[0] == 'R');
    assert("Sleep Num"@[0] == 'S');
    lemma_label_clash(l, "Recommend chg voltage"@, "Sleep Num"@, 0);
    reveal_strlit("System Volt");
    assert("Recommend chg voltage"@[0] == 'R');
    assert("System Volt"@[0] == 'S');
    lemma_label_clash(l, "Recommend chg voltage"@, "System Volt"@, 0);
    reveal_strlit("System Curr");
    assert("Recommend chg voltage"@[0] == 'R');
    assert("System Curr"@[0] == 'S');
    lemma_label_clash(l, "Recommend chg voltage"@, "System Curr"@, 0);
    reveal_strlit("System RC");
    assert("Recommend chg voltage"@[0] == 'R');
    assert("System RC"@[0] == 'S');
    lemma_label_clash(l, "Recommend chg voltage"@, "System RC"@, 0);
    reveal_strlit("System FCC");
    assert("Recommend chg voltage"@[0] == 'R');
    assert("System FCC"@[0] == 'S');
    lemma_label_clash(l, "Recommend chg voltage"@, "System FCC"@, 0);
    reveal_strlit("System SOC");
    assert("Recommend chg voltage"@[0] == 'R');
    assert("System SOC"@[0] == 'S');
    lemma_label_clash(l, "Recommend chg voltage"@, "System SOC"@, 0);
    reveal_strlit("System SOH");
    assert("Recommend chg voltage"@[0] == 'R');
    assert("System SOH"@[0] == 'S');
    lemma_label_clash(l, "Recommend chg voltage"@, "System SOH"@, 0);
    reveal_strlit("Highest voltage");
    assert("Recommend chg voltage"@[0] == 'R');
    assert("Highest voltage"@[0] == 'H');
    lemma_label_clash(l, "Recommend chg voltage"@, "Highest voltage"@, 0);
    reveal_strlit("Average voltage");
    assert("Recommend chg voltage"@[0] == 'R');
    assert("Average voltage"@[0] == 'A');
    lemma_label_clash(l, "Recommend chg voltage"@, "Average voltage"@, 0);
    reveal_strlit("Lowest voltage");
    assert("Recommend chg voltage"@[0] == 'R');
    assert("Lowest voltage"@[0] == 'L');
    lemma_label_clash(l, "Recommend chg voltage"@, "Lowest voltage"@, 0);
    reveal_strlit("Highest temperature");
    assert("Recommend chg voltage"@[0] == 'R');
    assert("Highest temperature"@[0] == 'H');
    lemma_label_clash(l, "Recommend chg voltage"@, "Highest temperature"@, 0);
    reveal_strlit("Average temperature");
    assert("Recommend chg voltage"@[0] == 'R');
    assert("Average temperature"@[0] == 'A');
    lemma_label_clash(l, "Recommend chg voltage"@, "Average temperature"@, 0);
    reveal_strlit("Lowest temperature");
    assert("Recommend chg voltage"@[0] == 'R');
    assert("Lowest temperature"@[0] == 'L');
    lemma_label_clash(l, "Recommend chg voltage"@, "Lowest temperature"@, 0);
}

proof fn lemma_pwrsys_label_16(d: PwrsysData, raw: Seq<char>)
    requires
        starts_with(trim_start(raw), "Recommend dsg voltage"@),
    ensures
        pwrsys_step(d, raw) == (PwrsysData { system_recommend_dsg_volt: scaled_value(line_value(trim_start(raw))), ..d }),
{
    let l = trim_start(raw);
    reveal_strlit("Recommend dsg voltage");
    reveal_strlit("Total Num");
    assert("Recommend dsg voltage"@[0] == 'R');
    assert("Total Num"@[0] == 'T');
    lemma_label_clash(l, "Recommend dsg voltage"@, "Total Num"@, 0);
    reveal_strlit("Present Num");
    assert("Recommend dsg voltage"@[0] == 'R');
    assert("Present Num"@[0] == 'P');
    lemma_label_clash(l, "Recommend dsg voltage"@, "Present Num"@, 0);
    reveal_strlit("Sleep Num");
    assert("Recommend dsg voltage"@[0] == 'R');
    assert("Sleep Num"@[0] == 'S');
    lemma_label_clash(l, "Recommend dsg voltage"@, "Sleep Num"@, 0);
    reveal_strlit("System Volt");
    assert("Recommend dsg voltage"@[0] == 'R');
    assert("System Volt"@[0] == 'S');
    lemma_label_clash(l, "Recommend dsg voltage"@, "System Volt"@, 0);
    reveal_strlit("System Curr");
    assert("Recommend dsg voltage"@[0] == 'R');
    assert("System Curr"@[0] == 'S');
    lemma_label_clash(l, "Recommend dsg voltage"@, "System Curr"@, 0);
    reveal_strlit("System RC");
    assert("Recommend dsg voltage"@[0] == 'R');
    assert("System RC"@[0] == 'S');
    lemma_label_clash(l, "Recommend dsg voltage"@, "System RC"@, 0);
    reveal_strlit("System FCC");
    assert("Recommend dsg voltage"@[0] == 'R');
    assert("System FCC"@[0] == 'S');
    lemma_label_clash(l, "Recommend dsg voltage"@, "System FCC"@, 0);
    reveal_strlit("System SOC");
    assert("Recommend dsg voltage"@[0] == 'R');
    assert("System SOC"@[0] == 'S');
    lemma_label_clash(l, "Recommend dsg voltage"@, "System SOC"@, 0);
    reveal_strlit("System SOH");
    assert("Recommend dsg voltage"@[0] == 'R');
    assert("System SOH"@[0] == 'S');
    lemma_label_clash(l, "Recommend dsg voltage"@, "System SOH"@, 0);
    reveal_strlit("Highest voltage");
    assert("Recommend dsg voltage"@[0] == 'R');
    assert("Highest voltage"@[0] == 'H');
    lemma_label_clash(l, "Recommend dsg voltage"@, "Highest voltage"@, 0);
    reveal_strlit("Average voltage");
    assert("Recommend dsg voltage"@[0] == 'R');
    assert("Average voltage"@[0] == 'A');
    lemma_label_clash(l, "Recommend dsg voltage"@, "Average voltage"@, 0);
    reveal_strlit("Lowest voltage");
    assert("Recommend dsg voltage"@[0] == 'R');
    assert("Lowest voltage"@[0] == 'L');
    lemma_label_clash(l, "Recommend dsg voltage"@, "Lowest voltage"@, 0);
    reveal_strlit("Highest temperature");
    assert("Recommend dsg voltage"@[0] == 'R');
    assert("Highest temperature"@[0] == 'H');
    lemma_label_clash(l, "Recommend dsg voltage"@, "Highest temperature"@, 0);
    reveal_strlit("Average temperature");
    assert("Recommend dsg voltage"@[0] == 'R');
    assert("Average temperature"@[0] == 'A');
    lemma_label_clash(l, "Recommend dsg voltage"@, "Average temperature"@, 0);
    reveal_strlit("Lowest temperature");
    assert("Recommend dsg voltage"@[0] == 'R');
    assert("Lowest temperature"@[0] == 'L');
    lemma_label_clash(l, "Recommend dsg voltage"@, "Lowest temperature"@, 0);
    reveal_strlit("Recommend chg voltage");
    assert("Recommend dsg voltage"@[10] == 'd');
    assert("Recommend chg voltage"@[10] == 'c');
    lemma_label_clash(l, "Recommend dsg voltage"@, "Recommend chg voltage"@, 10);
}

proof fn lemma_pwrsys_label_17(d: PwrsysData, raw: Seq<char>)
    requires
        starts_with(trim_start(raw), "Recommend chg current"@),
    ensures
        pwrsys_step(d, raw) == (PwrsysData { system_recommend_chg_curr: scaled_value(line_value(trim_start(raw))), ..d }),
{
    let l = trim_start(raw);
    reveal_strlit("Recommend chg current");
    reveal_strlit("Total Num");
    assert("Recommend chg current"@[0] == 'R');
    assert("Total Num"@[0] == 'T');
    lemma_label_clash(l, "Recommend chg current"@, "Total Num"@, 0);
    reveal_strlit("Present Num");
    assert("Recommend chg current"@[0] == 'R');
    assert("Present Num"@[0] == 'P');
    lemma_label_clash(l, "Recommend chg current"@, "Present Num"@, 0);
    reveal_strlit("Sleep Num");
    assert("Recommend chg current"@[0] == 'R');
    assert("Sleep Num"@[0] == 'S');
    lemma_label_clash(l, "Recommend chg current"@, "Sleep Num"@, 0);
    reveal_strlit("System Volt");
    assert("Recommend chg current"@[0] == 'R');
    assert("System Volt"@[0] == 'S');
    lemma_label_clash(l, "Recommend chg current"@, "System Volt"@, 0);
    reveal_strlit("System Curr");
    assert("Recommend chg current"@[0] == 'R');
    assert("System Curr"@[0] == 'S');
    lemma_label_clash(l, "Recommend chg current"@, "System Curr"@, 0);
    reveal_strlit("System RC");
    assert("Recommend chg current"@[0] == 'R');
    assert("System RC"@[0] == 'S');
    lemma_label_clash(l, "Recommend chg current"@, "System RC"@, 0);
    reveal_strlit("System FCC");
    assert("Recommend chg current"@[0] == 'R');
    assert("System FCC"@[0] == 'S');
    lemma_label_clash(l, "Recommend chg current"@, "System FCC"@, 0);
    reveal_strlit("System SOC");
    assert("Recommend chg current"@[0] == 'R');
    assert("System SOC"@[0] == 'S');
    lemma_label_clash(l, "Recommend chg current"@, "System SOC"@, 0);
    reveal_strlit("System SOH");
    assert("Recommend chg current"@[0] == 'R');
    assert("System SOH"@[0] == 'S');
    lemma_label_clash(l, "Recommend chg current"@, "System SOH"@, 0);
    reveal_strlit("Highest voltage");
    assert("Recommend chg current"@[0] == 'R');
    assert("Highest voltage"@[0] == 'H');
    lemma_label_clash(l, "Recommend chg current"@, "Highest voltage"@, 0);
    reveal_strlit("Average voltage");
    assert("Recommend chg current"@[0] == 'R');
    assert("Average voltage"@[0] == 'A');
    lemma_label_clash(l, "Recommend chg current"@, "Average voltage"@, 0);
    reveal_strlit("Lowest voltage");
    assert("Recommend chg current"@[0] == 'R');
    assert("Lowest voltage"@[0] == 'L');
    lemma_label_clash(l, "Recommend chg current"@, "Lowest voltage"@, 0);
    reveal_strlit("Highest temperature");
    assert("Recommend chg current"@[0] == 'R');
    assert("Highest temperature"@[0] == 'H');
    lemma_label_clash(l, "Recommend chg current"@, "Highest temperature"@, 0);
    reveal_strlit("Average temperature");
    assert("Recommend chg current"@[0] == 'R');
    assert("Average temperature"@[0] == 'A');
    lemma_label_clash(l, "Recommend chg current"@, "Average temperature"@, 0);
    reveal_strlit("Lowest temperature");
    assert("Recommend chg current"@[0] == 'R');
    assert("Lowest temperature"@[0] == 'L');
    lemma_label_clash(l, "Recommend chg current"@, "Lowest temperature"@, 0);
    reveal_strlit("Recommend chg voltage");
    assert("Recommend chg current"@[14] == 'c');
    assert("Recommend chg voltage"@[14] == 'v');
    lemma_label_clash(l, "Recommend chg current"@, "Recommend chg voltage"@, 14);
    reveal_strlit("Recommend dsg voltage");
    assert("Recommend chg current"@[10] == 'c');
    assert("Recommend dsg voltage"@[10] == 'd');
    lemma_label_clash(l, "Recommend chg current"@, "Recommend dsg voltage"@, 10);
}

proof fn lemma_pwrsys_label_18(d: PwrsysData, raw: Seq<char>)
    requires
        starts_with(trim_start(raw), "Recommend dsg current"@),
    ensures
        pwrsys_step(d, raw) == (PwrsysData { system_recommend_dsg_curr: scaled_value(line_value(trim_start(raw))), ..d }),
{
    let l = trim_start(raw);
    reveal_strlit("Recommend dsg current");
    reveal_strlit("Total Num");
    assert("Recommend dsg current"@[0] == 'R');
    assert("Total Num"@[0] == 'T');
    lemma_label_clash(l, "Recommend dsg current"@, "Total Num"@, 0);
    reveal_strlit("Present Num");
    assert("Recommend dsg current"@[0] == 'R');
    assert("Present Num"@[0] == 'P');
    lemma_label_clash(l, "Recommend dsg current"@, "Present Num"@, 0);
    reveal_strlit("Sleep Num");
    assert("Recommend dsg current"@[0] == 'R');
    assert("Sleep Num"@[0] == 'S');
    lemma_label_clash(l, "Recommend dsg current"@, "Sleep Num"@, 0);
    reveal_strlit("System Volt");
    assert("Recommend dsg current"@[0] == 'R');
    assert("System Volt"@[0] == 'S');
    lemma_label_clash(l, "Recommend dsg current"@, "System Volt"@, 0);
    reveal_strlit("System Curr");
    assert("Recommend dsg current"@[0] == 'R');
    assert("System Curr"@[0] == 'S');
    lemma_label_clash(l, "Recommend dsg current"@, "System Curr"@, 0);
    reveal_strlit("System RC");
    assert("Recommend dsg current"@[0] == 'R');
    assert("System RC"@[0] == 'S');
    lemma_label_clash(l, "Recommend dsg current"@, "System RC"@, 0);
    reveal_strlit("System FCC");
    assert("Recommend dsg current"@[0] == 'R');
    assert("System FCC"@[0] == 'S');
    lemma_label_clash(l, "Recommend dsg current"@, "System FCC"@, 0);
    reveal_strlit("System SOC");
    assert("Recommend dsg current"@[0] == 'R');
    assert("System SOC"@[0] == 'S');
    lemma_label_clash(l, "Recommend dsg current"@, "System SOC"@, 0);
    reveal_strlit("System SOH");
    assert("Recommend dsg current"@[0] == 'R');
    assert("System SOH"@[0] == 'S');
    lemma_label_clash(l, "Recommend dsg current"@, "System SOH"@, 0);
    reveal_strlit("Highest voltage");
    assert("Recommend dsg current"@[0] == 'R');
    assert("Highest voltage"@[0] == 'H');
    lemma_label_clash(l, "Recommend dsg current"@, "Highest voltage"@, 0);
    reveal_strlit("Average voltage");
    assert("Recommend dsg current"@[0] == 'R');
    assert("Average voltage"@[0] == 'A');
    lemma_label_clash(l, "Recommend dsg current"@, "Average voltage"@, 0);
    reveal_strlit("Lowest voltage");
    assert("Recommend dsg current"@[0] == 'R');
    assert("Lowest voltage"@[0] == 'L');
    lemma_label_clash(l, "Recommend dsg current"@, "Lowest voltage"@, 0);
    reveal_strlit("Highest temperature");
    assert("Recommend dsg current"@[0] == 'R');
    assert("Highest temperature"@[0] == 'H');
    lemma_label_clash(l, "Recommend dsg current"@, "Highest temperature"@, 0);
    reveal_strlit("Average temperature");
    assert("Recommend dsg current"@[0] == 'R');
    assert("Average temperature"@[0] == 'A');
    lemma_label_clash(l, "Recommend dsg current"@, "Average temperature"@, 0);
    reveal_strlit("Lowest temperature");
    assert("Recommend dsg current"@[0] == 'R');
    assert("Lowest temperature"@[0] == 'L');
    lemma_label_clash(l, "Recommend dsg current"@, "Lowest temperature"@, 0);
    reveal_strlit("Recommend chg voltage");
    assert("Recommend dsg current"@[10] == 'd');
    assert("Recommend chg voltage"@[10] == 'c');
    lemma_label_clash(l, "Recommend dsg current"@, "Recommend chg voltage"@, 10);
    reveal_strlit("Recommend dsg voltage");
    assert("Recommend dsg current"@[14] == 'c');
    assert("Recommend dsg voltage"@[14] == 'v');
    lemma_label_clash(l, "Recommend dsg current"@, "Recommend dsg voltage"@, 14);
    reveal_strlit("Recommend chg current");
    assert("Recommend dsg current"@[10] == 'd');
    assert("Recommend chg current"@[10] == 'c');
    lemma_label_clash(l, "Recommend dsg current"@, "Recommend chg current"@, 10);
}

/// Each field line of a `pwrsys` response sets its own field, and only that one, to the
/// number after its `:` (counts and percentages as integers, the rest in thousandths).
pub proof fn law_pwrsys_field_lines(d: PwrsysData, raw: Seq<char>)
    ensures
        starts_with(trim_start(raw), "Total Num"@) ==> pwrsys_step(d, raw) == (PwrsysData { banks_total: int_value(line_value(trim_start(raw))), ..d }),
        starts_with(trim_start(raw), "Present Num"@) ==> pwrsys_step(d, raw) == (PwrsysData { banks_current: int_value(line_value(trim_start(raw))), ..d }),
        starts_with(trim_start(raw), "Sleep Num"@) ==> pwrsys_step(d, raw) == (PwrsysData { banks_sleep: int_value(line_value(trim_start(raw))), ..d }),
        starts_with(trim_start(raw), "System Volt"@) ==> pwrsys_step(d, raw) == (PwrsysData { system_voltage: scaled_value(line_value(trim_start(raw))), ..d }),
        starts_with(trim_start(raw), "System Curr"@) ==> pwrsys_step(d, raw) == (PwrsysData { system_current: scaled_value(line_value(trim_start(raw))), ..d }),
        starts_with(trim_start(raw), "System RC"@) ==> pwrsys_step(d, raw) == (PwrsysData { system_rc: scaled_value(line_value(trim_start(raw))), ..d }),
        starts_with(trim_start(raw), "System FCC"@) ==> pwrsys_step(d, raw) == (PwrsysData { system_fcc: scaled_value(line_value(trim_start(raw))), ..d }),
        starts_with(trim_start(raw), "System SOC"@) ==> pwrsys_step(d, raw) == (PwrsysData { system_soc: int_value(line_value(trim_start(raw))), ..d }),
        starts_with(trim_start(raw), "System SOH"@) ==> pwrsys_step(d, raw) == (PwrsysData { system_soh: int_value(line_value(trim_start(raw))), ..d }),
        starts_with(trim_start(raw), "Highest voltage"@) ==> pwrsys_step(d, raw) == (PwrsysData { system_highest_voltage: scaled_value(line_value(trim_start(raw))), ..d }),
        starts_with(trim_start(raw), "Average voltage"@) ==> pwrsys_step(d, raw) == (PwrsysData { system_average_voltage: scaled_value(line_value(trim_start(raw))), ..d }),
        starts_with(trim_start(raw), "Lowest voltage"@) ==> pwrsys_step(d, raw) == (PwrsysData { system_lowest_voltage: scaled_value(line_value(trim_start(raw))), ..d }),
        starts_with(trim_start(raw), "Highest temperature"@) ==> pwrsys_step(d, raw) == (PwrsysData { system_highest_temp: scaled_value(line_value(trim_start(raw))), ..d }),
        starts_with(trim_start(raw), "Average temperature"@) ==> pwrsys_step(d, raw) == (PwrsysData { system_average_temp: scaled_value(line_value(trim_start(raw))), ..d }),
        starts_with(trim_start(raw), "Lowest temperature"@) ==> pwrsys_step(d, raw) == (PwrsysData { system_lowest_temp: scaled_value(line_value(trim_start(raw))), ..d }),
        starts_with(trim_start(raw), "Recommend chg voltage"@) ==> pwrsys_step(d, raw) == (PwrsysData { system_recommend_chg_volt: scaled_value(line_value(trim_start(raw))), ..d }),
        starts_with(trim_start(raw), "Recommend dsg voltage"@) ==> pwrsys_step(d, raw) == (PwrsysData { system_recommend_dsg_volt: scaled_value(line_value(trim_start(raw))), ..d }),
        starts_with(trim_start(raw), "Recommend chg current"@) ==> pwrsys_step(d, raw) == (PwrsysData { system_recommend_chg_curr: scaled_value(line_value(trim_start(raw))), ..d }),
        starts_with(trim_start(raw), "Recommend dsg current"@) ==> pwrsys_step(d, raw) == (PwrsysData { system_recommend_dsg_curr: scaled_value(line_value(trim_start(raw))), ..d }),
{
    if starts_with(trim_start(raw), "Total Num"@) {
        lemma_pwrsys_label_0(d, raw);
    }
    if starts_with(trim_start(raw), "Present Num"@) {
        lemma_pwrsys_label_1(d, raw);
    }
    if starts_with(trim_start(raw), "Sleep Num"@) {
        lemma_pwrsys_label_2(d, raw);
    }
    if starts_with(trim_start(raw), "System Volt"@) {
        lemma_pwrsys_label_3(d, raw);
    }
    if starts_with(trim_start(raw), "System Curr"@) {
        lemma_pwrsys_label_4(d, raw);
    }
    if starts_with(trim_start(raw), "System RC"@) {
        lemma_pwrsys_label_5(d, raw);
    }
    if starts_with(trim_start(raw), "System FCC"@) {
        lemma_pwrsys_label_6(d, raw);
    }
    if starts_with(trim_start(raw), "System SOC"@) {
        lemma_pwrsys_label_7(d, raw);
    }
    if starts_with(trim_start(raw), "System SOH"@) {
        lemma_pwrsys_label_8(d, raw);
    }
    if starts_with(trim_start(raw), "Highest voltage"@) {
        lemma_pwrsys_label_9(d, raw);
    }
    if starts_with(trim_start(raw), "Average voltage"@) {
        lemma_pwrsys_label_10(d, raw);
    }
    if starts_with(trim_start(raw), "Lowest voltage"@) {
        lemma_pwrsys_label_11(d, raw);
    }
    if starts_with(trim_start(raw), "Highest temperature"@) {
        lemma_pwrsys_label_12(d, raw);
    }
    if starts_with(trim_start(raw), "Average temperature"@) {
        lemma_pwrsys_label_13(d, raw);
    }
    if starts_with(trim_start(raw), "Lowest temperature"@) {
        lemma_pwrsys_label_14(d, raw);
    }
    if starts_with(trim_start(raw), "Recommend chg voltage"@) {
        lemma_pwrsys_label_15(d, raw);
    }
    if starts_with(trim_start(raw), "Recommend dsg voltage"@) {
        lemma_pwrsys_label_16(d, raw);
    }
    if starts_with(trim_start(raw), "Recommend chg current"@) {
        lemma_pwrsys_label_17(d, raw);
    }
    if starts_with(trim_start(raw), "Recommend dsg current"@) {
        lemma_pwrsys_label_18(d, raw);
    }
}

/// Every line that names `Current` itself starts with `Current`.
proof fn lemma_current_line_prefix(l: Seq<char>)
    requires
        is_current_line(l),
    ensures
        starts_with(l, "Current"@),
{
    reveal_strlit("Current");
    reveal_strlit("Current ");
    reveal_strlit("Current\t");
    reveal_strlit("Current:");
    if starts_with(l, "Current "@) {
        assert(l.take(7) =~= l.take(8).take(7));
        assert("Current "@.take(7) =~= "Current"@);
    } else if starts_with(l, "Current\t"@) {
        assert(l.take(7) =~= l.take(8).take(7));
        assert("Current\t"@.take(7) =~= "Current"@);
    } else if starts_with(l, "Current:"@) {
        assert(l.take(7) =~= l.take(8).take(7));
        assert("Current:"@.take(7) =~= "Current"@);
    } else {
        assert(l.take(7) =~= l);
    }
}

proof fn lemma_pwr_label_0(d: PowerView, raw: Seq<char>)
    requires
        starts_with(trim_start(raw), "Voltage"@),
    ensures
        pwr_step(d, raw) == (PowerView { voltage: scaled_value(line_value(trim_start(raw))), ..d }),
{
    let l = trim_start(raw);
    reveal_strlit("Voltage");
}

proof fn lemma_pwr_label_1(d: PowerView, raw: Seq<char>)
    requires
        starts_with(trim_start(raw), "Current Status"@),
    ensures
        pwr_step(d, raw) == (PowerView { current_st: Some(first_token_or_empty(line_value(trim_start(raw)))), ..d }),
{
    let l = trim_start(raw);
    reveal_strlit("Current Status");
    reveal_strlit("Voltage");
    assert("Current Status"@[0] == 'C');
    assert("Voltage"@[0] == 'V');
    lemma_label_clash(l, "Current Status"@, "Voltage"@, 0);
}

proof fn lemma_pwr_label_2(d: PowerView, raw: Seq<char>)
    requires
        starts_with(trim_start(raw), "Current"@) && is_current_line(trim_start(raw)) && !starts_with(trim_start(raw), "Current Status"@),
    ensures
        pwr_step(d, raw) == (PowerView { current: scaled_value(line_value(trim_start(raw))), ..d }),
{
    let l = trim_start(raw);
    reveal_strlit("Current");
    reveal_strlit("Voltage");
    assert("Current"@[0] == 'C');
    assert("Voltage"@[0] == 'V');
    lemma_label_clash(l, "Current"@, "Voltage"@, 0);
}

proof fn lemma_pwr_label_3(d: PowerView, raw: Seq<char>)
    requires
        starts_with(trim_start(raw), "Temperature"@),
    ensures
        pwr_step(d, raw) == (PowerView { temperature: scaled_value(line_value(trim_start(raw))), ..d }),
{
    let l = trim_start(raw);
    if is_current_line(l) {
        lemma_current_line_prefix(l);
    }
    reveal_strlit("Temperature");
    reveal_strlit("Voltage");
    assert("Temperature"@[0] == 'T');
    assert("Voltage"@[0] == 'V');
    lemma_label_clash(l, "Temperature"@, "Voltage"@, 0);
    reveal_strlit("Current Status");
    assert("Temperature"@[0] == 'T');
    assert("Current Status"@[0] == 'C');
    lemma_label_clash(l, "Temperature"@, "Current Status"@, 0);
    reveal_strlit("Current");
    assert("Temperature"@[0] == 'T');
    assert("Current"@[0] == 'C');
    lemma_label_clash(l, "Temperature"@, "Current"@, 0);
}

proof fn lemma_pwr_label_4(d: PowerView, raw: Seq<char>)
    requires
        starts_with(trim_start(raw), "Coulomb"@),
    ensures
        pwr_step(d, raw) == (PowerView { soc: int_value(line_value(trim_start(raw))), ..d }),
{
    let l = trim_start(raw);
    if is_current_line(l) {
        lemma_current_line_prefix(l);
    }
    reveal_strlit("Coulomb");
    reveal_strlit("Voltage");
    assert("Coulomb"@[0] == 'C');
    assert("Voltage"@[0] == 'V');
    lemma_label_clash(l, "Coulomb"@, "Voltage"@, 0);
    reveal_strlit("Current Status");
    assert("Coulomb"@[1] == 'o');
    assert("Current Status"@[1] == 'u');
    lemma_label_clash(l, "Coulomb"@, "Current Status"@, 1);
    reveal_strlit("Current");
    assert("Coulomb"@[1] == 'o');
    assert("Current"@[1] == 'u');
    lemma_label_clash(l, "Coulomb"@, "Current"@, 1);
    reveal_strlit("Temperature");
    assert("Coulomb"@[0] == 'C');
    assert("Temperature"@[0] == 'T');
    lemma_label_clash(l, "Coulomb"@, "Temperature"@, 0);
}

proof fn lemma_pwr_label_5(d: PowerView, raw: Seq<char>)
    requires
        starts_with(trim_start(raw), "Basic Status"@),
    ensures
        pwr_step(d, raw) == (PowerView { basic_st: first_token_or_empty(line_value(trim_start(raw))), ..d }),
{
    let l = trim_start(raw);
    if is_current_line(l) {
        lemma_current_line_prefix(l);
    }
    reveal_strlit("Basic Status");
    reveal_strlit("Voltage");
    assert("Basic Status"@[0] == 'B');
    assert("Voltage"@[0] == 'V');
    lemma_label_clash(l, "Basic Status"@, "Voltage"@, 0);
    reveal_strlit("Current Status");
    assert("Basic Status"@[0] == 'B');
    assert("Current Status"@[0] == 'C');
    lemma_label_clash(l, "Basic Status"@, "Current Status"@, 0);
    reveal_strlit("Current");
    assert("Basic Status"@[0] == 'B');
    assert("Current"@[0] == 'C');
    lemma_label_clash(l, "Basic Status"@, "Current"@, 0);
    reveal_strlit("Temperature");
    assert("Basic Status"@[0] == 'B');
    assert("Temperature"@[0] == 'T');
    lemma_label_clash(l, "Basic Status"@, "Temperature"@, 0);
    reveal_strlit("Coulomb");
    assert("Basic Status"@[0] == 'B');
    assert("Coulomb"@[0] == 'C');
    lemma_label_clash(l, "Basic Status"@, "Coulomb"@, 0);
}

proof fn lemma_pwr_label_6(d: PowerView, raw: Seq<char>)
    requires
        starts_with(trim_start(raw), "Volt Status"@),
    ensures
        pwr_step(d, raw) == (PowerView { volt_st: Some(first_token_or_empty(line_value(trim_start(raw)))), ..d }),
{
    let l = trim_start(raw);
    if is_current_line(l) {
        lemma_current_line_prefix(l);
    }
    reveal_strlit("Volt Status");
    reveal_strlit("Voltage");
    assert("Volt Status"@[4] == ' ');
    assert("Voltage"@[4] == 'a');
    lemma_label_clash(l, "Volt Status"@, "Voltage"@, 4);
    reveal_strlit("Current Status");
    assert("Volt Status"@[0] == 'V');
    assert("Current Status"@[0] == 'C');
    lemma_label_clash(l, "Volt Status"@, "Current Status"@, 0);
    reveal_strlit("Current");
    assert("Volt Status"@[0] == 'V');
    assert("Current"@[0] == 'C');
    lemma_label_clash(l, "Volt Status"@, "Current"@, 0);
    reveal_strlit("Temperature");
    assert("Volt Status"@[0] == 'V');
    assert("Temperature"@[0] == 'T');
    lemma_label_clash(l, "Volt Status"@, "Temperature"@, 0);
    reveal_strlit("Coulomb");
    assert("Volt Status"@[0] == 'V');
    assert("Coulomb"@[0] == 'C');
    lemma_label_clash(l, "Volt Status"@, "Coulomb"@, 0);
    reveal_strlit("Basic Status");
    assert("Volt Status"@[0] == 'V');
    assert("Basic Status"@[0] == 'B');
    lemma_label_clash(l, "Volt Status"@, "Basic Status"@, 0);
}

proof fn lemma_pwr_label_7(d: PowerView, raw: Seq<char>)
    requires
        starts_with(trim_start(raw), "Tmpr. Status"@),
    ensures
        pwr_step(d, raw) == (PowerView { temp_st: Some(first_token_or_empty(line_value(trim_start(raw)))), ..d }),
{
    let l = trim_start(raw);
    if is_current_line(l) {
        lemma_current_line_prefix(l);
    }
    reveal_strlit("Tmpr. Status");
    reveal_strlit("Voltage");
    assert("Tmpr. Status"@[0] == 'T');
    assert("Voltage"@[0] == 'V');
    lemma_label_clash(l, "Tmpr. Status"@, "Voltage"@, 0);
    reveal_strlit("Current Status");
    assert("Tmpr. Status"@[0] == 'T');
    assert("Current Status"@[0] == 'C');
    lemma_label_clash(l, "Tmpr. Status"@, "Current Status"@, 0);
    reveal_strlit("Current");
    assert("Tmpr. Status"@[0] == 'T');
    assert("Current"@[0] == 'C');
    lemma_label_clash(l, "Tmpr. Status"@, "Current"@, 0);
    reveal_strlit("Temperature");
    assert("Tmpr. Status"@[1] == 'm');
    assert("Temperature"@[1] == 'e');
    lemma_label_clash(l, "Tmpr. Status"@, "Temperature"@, 1);
    reveal_strlit("Coulomb");
    assert("Tmpr. Status"@[0] == 'T');
    assert("Coulomb"@[0] == 'C');
    lemma_label_clash(l, "Tmpr. Status"@, "Coulomb"@, 0);
    reveal_strlit("Basic Status");
    assert("Tmpr. Status"@[0] == 'T');
    assert("Basic Status"@[0] == 'B');
    lemma_label_clash(l, "Tmpr. Status"@, "Basic Status"@, 0);
    reveal_strlit("Volt Status");
    assert("Tmpr. Status"@[0] == 'T');
    assert("Volt Status"@[0] == 'V');
    lemma_label_clash(l, "Tmpr. Status"@, "Volt Status"@, 0);
}

proof fn lemma_pwr_label_8(d: PowerView, raw: Seq<char>)
    requires
        starts_with(trim_start(raw), "Coul. Status"@),
    ensures
        pwr_step(d, raw) == (PowerView { coul_st: Some(first_token_or_empty(line_value(trim_start(raw)))), ..d }),
{
    let l = trim_start(raw);
    if is_current_line(l) {
        lemma_current_line_prefix(l);
    }
    reveal_strlit("Coul. Status");
    reveal_strlit("Voltage");
    assert("Coul. Status"@[0] == 'C');
    assert("Voltage"@[0] == 'V');
    lemma_label_clash(l, "Coul. Status"@, "Voltage"@, 0);
    reveal_strlit("Current Status");
    assert("Coul. Status"@[1] == 'o');
    assert("Current Status"@[1] == 'u');
    lemma_label_clash(l, "Coul. Status"@, "Current Status"@, 1);
    reveal_strlit("Current");
    assert("Coul. Status"@[1] == 'o');
    assert("Current"@[1] == 'u');
    lemma_label_clash(l, "Coul. Status"@, "Current"@, 1);
    reveal_strlit("Temperature");
    assert("Coul. Status"@[0] == 'C');
    assert("Temperature"@[0] == 'T');
    lemma_label_clash(l, "Coul. Status"@, "Temperature"@, 0);
    reveal_strlit("Coulomb");
    assert("Coul. Status"@[4] == '.');
    assert("Coulomb"@[4] == 'o');
    lemma_label_clash(l, "Coul. Status"@, "Coulomb"@, 4);
    reveal_strlit("Basic Status");
    assert("Coul. Status"@[0] == 'C');
    assert("Basic Status"@[0] == 'B');
    lemma_label_clash(l, "Coul. Status"@, "Basic Status"@, 0);
    reveal_strlit("Volt Status");
    assert("Coul. Status"@[0] == 'C');
    assert("Volt Status"@[0] == 'V');
    lemma_label_clash(l, "Coul. Status"@, "Volt Status"@, 0);
    reveal_strlit("Tmpr. Status");
    assert("Coul. Status"@[0] == 'C');
    assert("Tmpr. Status"@[0] == 'T');
    lemma_label_clash(l, "Coul. Status"@, "Tmpr. Status"@, 0);
}

proof fn lemma_pwr_label_9(d: PowerView, raw: Seq<char>)
    requires
        starts_with(trim_start(raw), "Soh. Status"@),
    ensures
        pwr_step(d, raw) == (PowerView { soh_st: Some(first_token_or_empty(line_value(trim_start(raw)))), ..d }),
{
    let l = trim_start(raw);
    if is_current_line(l) {
        lemma_current_line_prefix(l);
    }
    reveal_strlit("Soh. Status");
    reveal_strlit("Voltage");
    assert("Soh. Status"@[0] == 'S');
    assert("Voltage"@[0] == 'V');
    lemma_label_clash(l, "Soh. Status"@, "Voltage"@, 0);
    reveal_strlit("Current Status");
    assert("Soh. Status"@[0] == 'S');
    assert("Current Status"@[0] == 'C');
    lemma_label_clash(l, "Soh. Status"@, "Current Status"@, 0);
    reveal_strlit("Current");
    assert("Soh. Status"@[0] == 'S');
    assert("Current"@[0] == 'C');
    lemma_label_clash(l, "Soh. Status"@, "Current"@, 0);
    reveal_strlit("Temperature");
    assert("Soh. Status"@[0] == 'S');
    assert("Temperature"@[0] == 'T');
    lemma_label_clash(l, "Soh. Status"@, "Temperature"@, 0);
    reveal_strlit("Coulomb");
    assert("Soh. Status"@[0] == 'S');
    assert("Coulomb"@[0] == 'C');
    lemma_label_clash(l, "Soh. Status"@, "Coulomb"@, 0);
    reveal_strlit("Basic Status");
    assert("Soh. Status"@[0] == 'S');
    assert("Basic Status"@[0] == 'B');
    lemma_label_clash(l, "Soh. Status"@, "Basic Status"@, 0);
    reveal_strlit("Volt Status");
    assert("Soh. Status"@[0] == 'S');
    assert("Volt Status"@[0] == 'V');
    lemma_label_clash(l, "Soh. Status"@, "Volt Status"@, 0);
    reveal_strlit("Tmpr. Status");
    assert("Soh. Status"@[0] == 'S');
    assert("Tmpr. Status"@[0] == 'T');
    lemma_label_clash(l, "Soh. Status"@, "Tmpr. Status"@, 0);
    reveal_strlit("Coul. Status");
    assert("Soh. Status"@[0] == 'S');
    assert("Coul. Status"@[0] == 'C');
    lemma_label_clash(l, "Soh. Status"@, "Coul. Status"@, 0);
}

proof fn lemma_pwr_label_10(d: PowerView, raw: Seq<char>)
    requires
        starts_with(trim_start(raw), "Heater Status"@),
    ensures
        pwr_step(d, raw) == (PowerView { heater_st: Some(first_token_or_empty(line_value(trim_start(raw)))), ..d }),
{
    let l = trim_start(raw);
    if is_current_line(l) {
        lemma_current_line_prefix(l);
    }
    reveal_strlit("Heater Status");
    reveal_strlit("Voltage");
    assert("Heater Status"@[0] == 'H');
    assert("Voltage"@[0] == 'V');
    lemma_label_clash(l, "Heater Status"@, "Voltage"@, 0);
    reveal_strlit("Current Status");
    assert("Heater Status"@[0] == 'H');
    assert("Current Status"@[0] == 'C');
    lemma_label_clash(l, "Heater Status"@, "Current Status"@, 0);
    reveal_strlit("Current");
    assert("Heater Status"@[0] == 'H');
    assert("Current"@[0] == 'C');
    lemma_label_clash(l, "Heater Status"@, "Current"@, 0);
    reveal_strlit("Temperature");
    assert("Heater Status"@[0] == 'H');
    assert("Temperature"@[0] == 'T');
    lemma_label_clash(l, "Heater Status"@, "Temperature"@, 0);
    reveal_strlit("Coulomb");
    assert("Heater Status"@[0] == 'H');
    assert("Coulomb"@[0] == 'C');
    lemma_label_clash(l, "Heater Status"@, "Coulomb"@, 0);
    reveal_strlit("Basic Status");
    assert("Heater Status"@[0] == 'H');
    assert("Basic Status"@[0] == 'B');
    lemma_label_clash(l, "Heater Status"@, "Basic Status"@, 0);
    reveal_strlit("Volt Status");
    assert("Heater Status"@[0] == 'H');
    assert("Volt Status"@[0] == 'V');
    lemma_label_clash(l, "Heater Status"@, "Volt Status"@, 0);
    reveal_strlit("Tmpr. Status");
    assert("Heater Status"@[0] == 'H');
    assert("Tmpr. Status"@[0] == 'T');
    lemma_label_clash(l, "Heater Status"@, "Tmpr. Status"@, 0);
    reveal_strlit("Coul. Status");
    assert("Heater Status"@[0] == 'H');
    assert("Coul. Status"@[0] == 'C');
    lemma_label_clash(l, "Heater Status"@, "Coul. Status"@, 0);
    reveal_strlit("Soh. Status");
    assert("Heater Status"@[0] == 'H');
    assert("Soh. Status"@[0] == 'S');
    lemma_label_clash(l, "Heater Status"@, "Soh. Status"@, 0);
}

proof fn lemma_pwr_label_11(d: PowerView, raw: Seq<char>)
    requires
        starts_with(trim_start(raw), "Bat Events"@),
    ensures
        pwr_step(d, raw) == (PowerView { bat_events: Some(hex_value(line_value(trim_start(raw)))), ..d }),
{
    let l = trim_start(raw);
    if is_current_line(l) {
        lemma_current_line_prefix(l);
    }
    reveal_strlit("Bat Events");
    reveal_strlit("Voltage");
    assert("Bat Events"@[0] == 'B');
    assert("Voltage"@[0] == 'V');
    lemma_label_clash(l, "Bat Events"@, "Voltage"@, 0);
    reveal_strlit("Current Status");
    assert("Bat Events"@[0] == 'B');
    assert("Current Status"@[0] == 'C');
    lemma_label_clash(l, "Bat Events"@, "Current Status"@, 0);
    reveal_strlit("Current");
    assert("Bat Events"@[0] == 'B');
    assert("Current"@[0] == 'C');
    lemma_label_clash(l, "Bat Events"@, "Current"@, 0);
    reveal_strlit("Temperature");
    assert("Bat Events"@[0] == 'B');
    assert("Temperature"@[0] == 'T');
    lemma_label_clash(l, "Bat Events"@, "Temperature"@, 0);
    reveal_strlit("Coulomb");
    assert("Bat Events"@[0] == 'B');
    assert("Coulomb"@[0] == 'C');
    lemma_label_clash(l, "Bat Events"@, "Coulomb"@, 0);
    reveal_strlit("Basic Status");
    assert("Bat Events"@[2] == 't');
    assert("Basic Status"@[2] == 's');
    lemma_label_clash(l, "Bat Events"@, "Basic Status"@, 2);
    reveal_strlit("Volt Status");
    assert("Bat Events"@[0] == 'B');
    assert("Volt Status"@[0] == 'V');
    lemma_label_clash(l, "Bat Events"@, "Volt Status"@, 0);
    reveal_strlit("Tmpr. Status");
    assert("Bat Events"@[0] == 'B');
    assert("Tmpr. Status"@[0] == 'T');
    lemma_label_clash(l, "Bat Events"@, "Tmpr. Status"@, 0);
    reveal_strlit("Coul. Status");
    assert("Bat Events"@[0] == 'B');
    assert("Coul. Status"@[0] == 'C');
    lemma_label_clash(l, "Bat Events"@, "Coul. Status"@, 0);
    reveal_strlit("Soh. Status");
    assert("Bat Events"@[0] == 'B');
    assert("Soh. Status"@[0] == 'S');
    lemma_label_clash(l, "Bat Events"@, "Soh. Status"@, 0);
    reveal_strlit("Heater Status");
    assert("Bat Events"@[0] == 'B');
    assert("Heater Status"@[0] == 'H');
    lemma_label_clash(l, "Bat Events"@, "Heater Status"@, 0);
}

proof fn lemma_pwr_label_12(d: PowerView, raw: Seq<char>)
    requires
        starts_with(trim_start(raw), "Power Events"@),
    ensures
        pwr_step(d, raw) == (PowerView { power_events: Some(hex_value(line_value(trim_start(raw)))), ..d }),
{
    let l = trim_start(raw);
    if is_current_line(l) {
        lemma_current_line_prefix(l);
    }
    reveal_strlit("Power Events");
    reveal_strlit("Voltage");
    assert("Power Events"@[0] == 'P');
    assert("Voltage"@[0] == 'V');
    lemma_label_clash(l, "Power Events"@, "Voltage"@, 0);
    reveal_strlit("Current Status");
    assert("Power Events"@[0] == 'P');
    assert("Current Status"@[0] == 'C');
    lemma_label_clash(l, "Power Events"@, "Current Status"@, 0);
    reveal_strlit("Current");
    assert("Power Events"@[0] == 'P');
    assert("Current"@[0] == 'C');
    lemma_label_clash(l, "Power Events"@, "Current"@, 0);
    reveal_strlit("Temperature");
    assert("Power Events"@[0] == 'P');
    assert("Temperature"@[0] == 'T');
    lemma_label_clash(l, "Power Events"@, "Temperature"@, 0);
    reveal_strlit("Coulomb");
    assert("Power Events"@[0] == 'P');
    assert("Coulomb"@[0] == 'C');
    lemma_label_clash(l, "Power Events"@, "Coulomb"@, 0);
    reveal_strlit("Basic Status");
    assert("Power Events"@[0] == 'P');
    assert("Basic Status"@[0] == 'B');
    lemma_label_clash(l, "Power Events"@, "Basic Status"@, 0);
    reveal_strlit("Volt Status");
    assert("Power Events"@[0] == 'P');
    assert("Volt Status"@[0] == 'V');
    lemma_label_clash(l, "Power Events"@, "Volt Status"@, 0);
    reveal_strlit("Tmpr. Status");
    assert("Power Events"@[0] == 'P');
    assert("Tmpr. Status"@[0] == 'T');
    lemma_label_clash(l, "Power Events"@, "Tmpr. Status"@, 0);
    reveal_strlit("Coul. Status");
    assert("Power Events"@[0] == 'P');
    assert("Coul. Status"@[0] == 'C');
    lemma_label_clash(l, "Power Events"@, "Coul. Status"@, 0);
    reveal_strlit("Soh. Status");
    assert("Power Events"@[0] == 'P');
    assert("Soh. Status"@[0] == 'S');
    lemma_label_clash(l, "Power Events"@, "Soh. Status"@, 0);
    reveal_strlit("Heater Status");
    assert("Power Events"@[0] == 'P');
    assert("Heater Status"@[0] == 'H');
    lemma_label_clash(l, "Power Events"@, "Heater Status"@, 0);
    reveal_strlit("Bat Events");
    assert("Power Events"@[0] == 'P');
    assert("Bat Events"@[0] == 'B');
    lemma_label_clash(l, "Power Events"@, "Bat Events"@, 0);
}

proof fn lemma_pwr_label_13(d: PowerView, raw: Seq<char>)
    requires
        starts_with(trim_start(raw), "System Fault"@),
    ensures
        pwr_step(d, raw) == (PowerView { sys_events: Some(hex_value(line_value(trim_start(raw)))), ..d }),
{
    let l = trim_start(raw);
    if is_current_line(l) {
        lemma_current_line_prefix(l);
    }
    reveal_strlit("System Fault");
    reveal_strlit("Voltage");
    assert("System Fault"@[0] == 'S');
    assert("Voltage"@[0] == 'V');
    lemma_label_clash(l, "System Fault"@, "Voltage"@, 0);
    reveal_strlit("Current Status");
    assert("System Fault"@[0] == 'S');
    assert("Current Status"@[0] == 'C');
    lemma_label_clash(l, "System Fault"@, "Current Status"@, 0);
    reveal_strlit("Current");
    assert("System Fault"@[0] == 'S');
    assert("Current"@[0] == 'C');
    lemma_label_clash(l, "System Fault"@, "Current"@, 0);
    reveal_strlit("Temperature");
    assert("System Fault"@[0] == 'S');
    assert("Temperature"@[0] == 'T');
    lemma_label_clash(l, "System Fault"@, "Temperature"@, 0);
    reveal_strlit("Coulomb");
    assert("System Fault"@[0] == 'S');
    assert("Coulomb"@[0] == 'C');
    lemma_label_clash(l, "System Fault"@, "Coulomb"@, 0);
    reveal_strlit("Basic Status");
    assert("System Fault"@[0] == 'S');
    assert("Basic Status"@[0] == 'B');
    lemma_label_clash(l, "System Fault"@, "Basic Status"@, 0);
    reveal_strlit("Volt Status");
    assert("System Fault"@[0] == 'S');
    assert("Volt Status"@[0] == 'V');
    lemma_label_clash(l, "System Fault"@, "Volt Status"@, 0);
    reveal_strlit("Tmpr. Status");
    assert("System Fault"@[0] == 'S');
    assert("Tmpr. Status"@[0] == 'T');
    lemma_label_clash(l, "System Fault"@, "Tmpr. Status"@, 0);
    reveal_strlit("Coul. Status");
    assert("System Fault"@[0] == 'S');
    assert("Coul. Status"@[0] == 'C');
    lemma_label_clash(l, "System Fault"@, "Coul. Status"@, 0);
    reveal_strlit("Soh. Status");
    assert("System Fault"@[1] == 'y');
    assert("Soh. Status"@[1] == 'o');
    lemma_label_clash(l, "System Fault"@, "Soh. Status"@, 1);
    reveal_strlit("Heater Status");
    assert("System Fault"@[0] == 'S');
    assert("Heater Status"@[0] == 'H');
    lemma_label_clash(l, "System Fault"@, "Heater Status"@, 0);
    reveal_strlit("Bat Events");
    assert("System Fault"@[0] == 'S');
    assert("Bat Events"@[0] == 'B');
    lemma_label_clash(l, "System Fault"@, "Bat Events"@, 0);
    reveal_strlit("Power Events");
    assert("System Fault"@[0] == 'S');
    assert("Power Events"@[0] == 'P');
    lemma_label_clash(l, "System Fault"@, "Power Events"@, 0);
}

/// Each field line of a `pwr` response sets its own field, and only that one: readings to
/// the number after the `:` (in thousandths; the charge as an integer), statuses to the
/// first word there, event words to the hexadecimal number there.
pub proof fn law_pwr_field_lines(d: PowerView, raw: Seq<char>)
    ensures
        starts_with(trim_start(raw), "Voltage"@) ==> pwr_step(d, raw) == (PowerView { voltage: scaled_value(line_value(trim_start(raw))), ..d }),
        starts_with(trim_start(raw), "Current Status"@) ==> pwr_step(d, raw) == (PowerView { current_st: Some(first_token_or_empty(line_value(trim_start(raw)))), ..d }),
        starts_with(trim_start(raw), "Current"@) && is_current_line(trim_start(raw)) && !starts_with(trim_start(raw), "Current Status"@) ==> pwr_step(d, raw) == (PowerView { current: scaled_value(line_value(trim_start(raw))), ..d }),
        starts_with(trim_start(raw), "Temperature"@) ==> pwr_step(d, raw) == (PowerView { temperature: scaled_value(line_value(trim_start(raw))), ..d }),
        starts_with(trim_start(raw), "Coulomb"@) ==> pwr_step(d, raw) == (PowerView { soc: int_value(line_value(trim_start(raw))), ..d }),
        starts_with(trim_start(raw), "Basic Status"@) ==> pwr_step(d, raw) == (PowerView { basic_st: first_token_or_empty(line_value(trim_start(raw))), ..d }),
        starts_with(trim_start(raw), "Volt Status"@) ==> pwr_step(d, raw) == (PowerView { volt_st: Some(first_token_or_empty(line_value(trim_start(raw)))), ..d }),
        starts_with(trim_start(raw), "Tmpr. Status"@) ==> pwr_step(d, raw) == (PowerView { temp_st: Some(first_token_or_empty(line_value(trim_start(raw)))), ..d }),
        starts_with(trim_start(raw), "Coul. Status"@) ==> pwr_step(d, raw) == (PowerView { coul_st: Some(first_token_or_empty(line_value(trim_start(raw)))), ..d }),
        starts_with(trim_start(raw), "Soh. Status"@) ==> pwr_step(d, raw) == (PowerView { soh_st: Some(first_token_or_empty(line_value(trim_start(raw)))), ..d }),
        starts_with(trim_start(raw), "Heater Status"@) ==> pwr_step(d, raw) == (PowerView { heater_st: Some(first_token_or_empty(line_value(trim_start(raw)))), ..d }),
        starts_with(trim_start(raw), "Bat Events"@) ==> pwr_step(d, raw) == (PowerView { bat_events: Some(hex_value(line_value(trim_start(raw)))), ..d }),
        starts_with(trim_start(raw), "Power Events"@) ==> pwr_step(d, raw) == (PowerView { power_events: Some(hex_value(line_value(trim_start(raw)))), ..d }),
        starts_with(trim_start(raw), "System Fault"@) ==> pwr_step(d, raw) == (PowerView { sys_events: Some(hex_value(line_value(trim_start(raw)))), ..d }),
{
    if starts_with(trim_start(raw), "Voltage"@) {
        lemma_pwr_label_0(d, raw);
    }
    if starts_with(trim_start(raw), "Current Status"@) {
        lemma_pwr_label_1(d, raw);
    }
    if starts_with(trim_start(raw), "Current"@) && is_current_line(trim_start(raw)) && !starts_with(trim_start(raw), "Current Status"@) {
        lemma_pwr_label_2(d, raw);
    }
    if starts_with(trim_start(raw), "Temperature"@) {
        lemma_pwr_label_3(d, raw);
    }
    if starts_with(trim_start(raw), "Coulomb"@) {
        lemma_pwr_label_4(d, raw);
    }
    if starts_with(trim_start(raw), "Basic Status"@) {
        lemma_pwr_label_5(d, raw);
    }
    if starts_with(trim_start(raw), "Volt Status"@) {
        lemma_pwr_label_6(d, raw);
    }
    if starts_with(trim_start(raw), "Tmpr. Status"@) {
        lemma_pwr_label_7(d, raw);
    }
    if starts_with(trim_start(raw), "Coul. Status"@) {
        lemma_pwr_label_8(d, raw);
    }
    if starts_with(trim_start(raw), "Soh. Status"@) {
        lemma_pwr_label_9(d, raw);
    }
    if starts_with(trim_start(raw), "Heater Status"@) {
        lemma_pwr_label_10(d, raw);
    }
    if starts_with(trim_start(raw), "Bat Events"@) {
        lemma_pwr_label_11(d, raw);
    }
    if starts_with(trim_start(raw), "Power Events"@) {
        lemma_pwr_label_12(d, raw);
    }
    if starts_with(trim_start(raw), "System Fault"@) {
        lemma_pwr_label_13(d, raw);
    }
}

/// The cell that a `bat` line describes: its number is the first column plus one, its
/// voltage the second column (zero when either does not read), its current the third
/// column at High level only; the statuses are not read.
pub proof fn law_cell_columns(power: u32, cols: Seq<Seq<char>>, level: MonitoringLevel)
    requires
        cols.len() >= 2,
    ensures
        cell_of_columns(power, cols, level).power == power,
        forall|cn: u32| parse_u32(cols[0]) == Some(cn) && cn < u32::MAX ==> cell_of_columns(power, cols, level).cell == cn + 1,
        parse_u32(cols[0]) is None ==> cell_of_columns(power, cols, level).cell == 0,
        forall|v: i32| parse_i32(cols[1]) == Some(v) ==> cell_of_columns(power, cols, level).voltage == v,
        parse_i32(cols[1]) is None ==> cell_of_columns(power, cols, level).voltage == 0,
        level == MonitoringLevel::High && cols.len() > 2 ==> cell_of_columns(power, cols, level).current == parse_i32(cols[2]),
        level != MonitoringLevel::High ==> cell_of_columns(power, cols, level).current is None,
        level != MonitoringLevel::Medium && level != MonitoringLevel::High ==> cell_of_columns(power, cols, level).temperature is None,
        cell_of_columns(power, cols, level).basic_st is None,
        cell_of_columns(power, cols, level).soc is None,
        cell_of_columns(power, cols, level).coulomb is None,
{
}

/// Which lines of a `bat` response give cells: never the header (the first line) nor a
/// `Command completed` line, and a line of two or more columns gives one cell, appended
/// in order.
pub proof fn law_bat_lines(power: u32, lines: Seq<Seq<char>>, level: MonitoringLevel, n: int)
    requires
        0 <= n < lines.len(),
    ensures
        bat_fold(power, lines, level, 1).len() == 0,
        n > 0 && contains(lines[n], "Command completed"@) ==> bat_fold(power, lines, level, n + 1)
            == bat_fold(power, lines, level, n),
        n > 0 && !contains(lines[n], "Command completed"@) && wide_gap_columns(trim(lines[n])).len() >= 2
            ==> bat_fold(power, lines, level, n + 1) == bat_fold(power, lines, level, n).push(
            cell_of_columns(power, wide_gap_columns(trim(lines[n])), level),
        ),
        n > 0 && wide_gap_columns(trim(lines[n])).len() < 2 ==> bat_fold(power, lines, level, n + 1)
            == bat_fold(power, lines, level, n),
{
    assert(bat_fold(power, lines, level, 0).len() == 0);
}

/// The pack that `bat` reports: its cells carry the pack number; at Medium and High the
/// voltage spread is the lowest and the highest cell voltage (both cell voltages, bounding
/// every cell) and their difference; at Low, or without cells, there is no spread; cell
/// temperature extremes are never given.
pub proof fn law_bat_pack_summary(power: u32, lines: Seq<Seq<char>>, level: MonitoringLevel)
    ensures
        bat_pack(power, lines, level).power == power,
        bat_pack(power, lines, level).temperature_min is None,
        bat_pack(power, lines, level).temperature_max is None,
        bat_pack(power, lines, level).temperature_delta is None,
        !(level == MonitoringLevel::Medium || level == MonitoringLevel::High) || bat_pack(power, lines, level).cells.len()
            == 0 ==> {
            &&& bat_pack(power, lines, level).voltage_min is None
            &&& bat_pack(power, lines, level).voltage_max is None
            &&& bat_pack(power, lines, level).voltage_delta is None
        },
        (level == MonitoringLevel::Medium || level == MonitoringLevel::High) && bat_pack(power, lines, level).cells.len()
            > 0 ==> {
            let p = bat_pack(power, lines, level);
            &&& p.voltage_min is Some
            &&& p.voltage_max is Some
            &&& p.voltage_delta == Some((p.voltage_max->0 - p.voltage_min->0) as i64)
            &&& forall|i: int| 0 <= i < p.cells.len() ==> p.voltage_min->0 <= #[trigger] p.cells[i].voltage
                <= p.voltage_max->0
            &&& exists|i: int| 0 <= i < p.cells.len() && #[trigger] p.cells[i].voltage == p.voltage_min->0
            &&& exists|i: int| 0 <= i < p.cells.len() && #[trigger] p.cells[i].voltage == p.voltage_max->0
        },
{
    let cells = bat_fold(power, lines, level, lines.len() as int);
    if cells.len() > 0 {
        law_voltage_bounds(cells);
    }
}

/// No character of `w` is whitespace.
pub open spec fn no_ws(w: Seq<char>) -> bool {
    forall|i: int| 0 <= i < w.len() ==> !is_ws(#[trigger] w[i])
}

/// Every character of `w` is an ASCII digit.
pub open spec fn all_digits(w: Seq<char>) -> bool {
    forall|i: int| 0 <= i < w.len() ==> is_digit(#[trigger] w[i])
}

proof fn lemma_fold_word(s: Seq<char>, w: Seq<char>, n: int)
    requires
        w.len() <= s.len(),
        s.take(w.len() as int) == w,
        no_ws(w),
        0 <= n <= w.len(),
    ensures
        ws_split_fold(s, n) == (Seq::<Seq<char>>::empty(), w.take(n)),
    decreases n,
{
    if n > 0 {
        lemma_fold_word(s, w, n - 1);
        assert(s[n - 1] == s.take(w.len() as int)[n - 1]);
        assert(w.take(n - 1).push(w[n - 1]) =~= w.take(n));
    } else {
        assert(w.take(0) =~= Seq::<char>::empty());
    }
}

proof fn lemma_fold_done_grows(s: Seq<char>, n: int, m: int)
    requires
        0 <= n <= m <= s.len(),
    ensures
        ws_split_fold(s, n).0.len() <= ws_split_fold(s, m).0.len(),
        forall|i: int|
            0 <= i < ws_split_fold(s, n).0.len() ==> #[trigger] ws_split_fold(s, m).0[i] == ws_split_fold(s, n).0[i],
    decreases m - n,
{
    if m > n {
        lemma_fold_done_grows(s, n, m - 1);
    }
}

/// The first whitespace-separated word of a text that starts with the word `w` (followed
/// by nothing or by whitespace) is `w`.
proof fn lemma_first_word(w: Seq<char>, rest: Seq<char>)
    requires
        w.len() > 0,
        no_ws(w),
        rest.len() == 0 || is_ws(rest[0]),
    ensures
        split_whitespace(w + rest).len() > 0,
        split_whitespace(w + rest)[0] == w,
{
    let s = w + rest;
    assert(s.take(w.len() as int) =~= w);
    lemma_fold_word(s, w, w.len() as int);
    assert(w.take(w.len() as int) =~= w);
    if rest.len() > 0 {
        assert(s[w.len() as int] == rest[0]);
        assert(ws_split_fold(s, w.len() as int + 1) == (seq![w], Seq::<char>::empty()));
        lemma_fold_done_grows(s, w.len() as int + 1, s.len() as int);
    } else {
        assert(s =~= w);
    }
}

proof fn lemma_digit_run_all(w: Seq<char>, i: int)
    requires
        all_digits(w),
        0 <= i <= w.len(),
    ensures
        digit_run_end(w, i) == w.len(),
    decreases w.len() - i,
{
    if i < w.len() {
        lemma_digit_run_all(w, i + 1);
    }
}

/// A field whose first word is a decimal number (followed by nothing or by whitespace, as
/// in `51234 mV`) reads as that number: as an integer, as a scaled reading in thousandths
/// and as a hexadecimal word, each zero when the number does not fit its type.
pub proof fn law_field_number_words(w: Seq<char>, rest: Seq<char>)
    requires
        w.len() > 0,
        all_digits(w),
        rest.len() == 0 || is_ws(rest[0]),
    ensures
        int_value(w + rest) == (match parse_u32(w) {
            Some(v) => v,
            None => 0,
        }),
        scaled_value(w + rest) == (match parse_i32(w) {
            Some(v) => v,
            None => 0,
        }),
        hex_value(w + rest) == (match parse_u64_hex(w) {
            Some(v) => v,
            None => 0,
        }),
        first_token_or_empty(w + rest) == w,
{
    assert(no_ws(w)) by {
        assert forall|i: int| 0 <= i < w.len() implies !is_ws(#[trigger] w[i]) by {
            assert(is_digit(w[i]));
        }
    }
    lemma_first_word(w, rest);
    let toks = split_whitespace(w + rest);
    assert(is_digit(w[0]));
    assert(has_digit(toks[0]));
    assert(number_token(w + rest) == w);
    assert(skip_char_from(w, '%', 0) == 0);
    assert(w[w.len() - 1] != '%') by {
        assert(is_digit(w[w.len() - 1]));
    }
    assert(strip_char_end_len(w, '%', 0, w.len() as int) == w.len());
    assert(trim_char(w, '%') =~= w);
    lemma_digit_run_all(w, 0);
    assert(w.take(w.len() as int) =~= w);
    assert(is_hex_digit(w[0]));
    assert(hexish(toks[0]));
    assert(first_hexish_from(toks, 0) == Some(w));
    if w.len() >= 2 {
        assert(is_digit(w[1]));
    }
    assert(strip_hex_prefix(w) == w);
}

/// Every character of `p` is whitespace.
pub open spec fn all_ws(p: Seq<char>) -> bool {
    forall|i: int| 0 <= i < p.len() ==> is_ws(#[trigger] p[i])
}

proof fn lemma_skip_pad(x: Seq<char>, p: Seq<char>, r: Seq<char>, i: int)
    requires
        x == p + r,
        all_ws(p),
        r.len() > 0,
        !is_ws(r[0]),
        0 <= i <= p.len(),
    ensures
        skip_ws_from(x, i) == p.len(),
    decreases p.len() - i,
{
    if i < p.len() {
        assert(x[i] == p[i]);
        lemma_skip_pad(x, p, r, i + 1);
    } else {
        assert(x[i] == r[0]);
    }
}

proof fn lemma_trim_end_pad(y: Seq<char>, w: Seq<char>, q: Seq<char>, j: int)
    requires
        y == w + q,
        all_ws(q),
        w.len() > 0,
        !is_ws(w[w.len() - 1]),
        w.len() <= j <= y.len(),
    ensures
        trim_end_len(y, j) == w.len(),
    decreases j,
{
    if j > w.len() {
        assert(y[j - 1] == q[j - 1 - w.len()]);
        lemma_trim_end_pad(y, w, q, j - 1);
    } else {
        assert(y[j - 1] == w[w.len() - 1]);
    }
}

/// Trimming removes exactly the whitespace around a text: a text that neither starts nor
/// ends with whitespace, padded with whitespace on both sides, trims to itself.
pub proof fn law_trim_padded(p: Seq<char>, w: Seq<char>, q: Seq<char>)
    requires
        all_ws(p),
        all_ws(q),
        w.len() > 0,
        !is_ws(w[0]),
        !is_ws(w[w.len() - 1]),
    ensures
        trim(p + w + q) == w,
{
    let x = p + w + q;
    assert(x =~= p + (w + q));
    lemma_skip_pad(x, p, w + q, 0);
    assert(x.skip(p.len() as int) =~= w + q);
    lemma_trim_end_pad(w + q, w, q, (w + q).len() as int);
    assert((w + q).take(w.len() as int) =~= w);
}

/// The number in columns `a..b` of a line (cut at the line's end) is the decimal number
/// written there, whatever whitespace pads it: `    1234` in columns 18 to 27 reads 1234.
pub proof fn law_column_number(s: Seq<char>, a: int, b: int, p: Seq<char>, w: Seq<char>, q: Seq<char>)
    requires
        0 <= a <= b,
        s.subrange(min_int(a, s.len() as int), min_int(b, s.len() as int)) == p + w + q,
        all_ws(p),
        all_ws(q),
        w.len() > 0,
        all_digits(w),
    ensures
        slice_text(s, a, b) == w,
        slice_int_value(s, a, b) == parse_u32(w),
{
    assert(is_digit(w[0]) && is_digit(w[w.len() - 1]));
    law_trim_padded(p, w, q);
    assert(skip_char_from(w, '%', 0) == 0);
    assert(strip_char_end_len(w, '%', 0, w.len() as int) == w.len());
    assert(trim_char(w, '%') =~= w);
}

proof fn lemma_fold_tokens(s: Seq<char>, n: int)
    requires
        0 <= n <= s.len(),
    ensures
        no_ws(ws_split_fold(s, n).1),
        forall|k: int|
            0 <= k < ws_split_fold(s, n).0.len() ==> (#[trigger] ws_split_fold(s, n).0[k]).len() > 0
                && no_ws(ws_split_fold(s, n).0[k]),
    decreases n,
{
    if n > 0 {
        lemma_fold_tokens(s, n - 1);
        let (done, cur) = ws_split_fold(s, n - 1);
        if !is_ws(s[n - 1]) {
            assert forall|i: int| 0 <= i < cur.push(s[n - 1]).len() implies !is_ws(#[trigger] cur.push(s[n - 1])[i]) by {
                if i < cur.len() {
                    assert(cur.push(s[n - 1])[i] == cur[i]);
                }
            }
        }
    }
}

/// The words of `split_whitespace` are never empty and hold no whitespace.
proof fn lemma_split_tokens(s: Seq<char>)
    ensures
        forall|k: int|
            0 <= k < split_whitespace(s).len() ==> (#[trigger] split_whitespace(s)[k]).len() > 0
                && no_ws(split_whitespace(s)[k]),
{
    lemma_fold_tokens(s, s.len() as int);
}

proof fn lemma_first_digit_token_from(toks: Seq<Seq<char>>, i: int)
    requires
        0 <= i,
    ensures
        first_digit_token_from(toks, i) matches Some(t) ==> exists|k: int|
            i <= k < toks.len() && #[trigger] toks[k] == t && has_digit(t),
    decreases toks.len() - i,
{
    if i < toks.len() && !has_digit(toks[i]) {
        lemma_first_digit_token_from(toks, i + 1);
    }
}

/// The number segment of a line: nothing without a `:`; otherwise, when there is one, a
/// single word (no whitespace in it, not empty) that holds a digit.
pub proof fn law_number_segment_shape(s: Seq<char>)
    ensures
        after_char(s, ':') is None ==> number_segment(s) is None,
        number_segment(s) matches Some(t) ==> t.len() > 0 && no_ws(t) && has_digit(t),
{
    if let Some(a) = after_char(s, ':') {
        let toks = split_whitespace(trim(a));
        lemma_split_tokens(trim(a));
        lemma_first_digit_token_from(toks, 0);
    }
}
} // verus!
