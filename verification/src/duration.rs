//! Durations and their wire text.  Decoding scans unit-suffixed quantities
//! (`1d2h30m`, `250ms`) and legacy colon notation (`1:30:00`), additively;
//! encoding emits the non-zero components in descending magnitude.

use vstd::prelude::*;

use crate::RosError;
use crate::ValueFormat;
use crate::text::is_dec_digit;
use crate::text::dec_digit_val;
use crate::text::spec_parse_dec;
use crate::text::spec_dec_digits;
use crate::text::format_u64;
use crate::text::push_char;
use crate::text::char_to_dec_digit;
use crate::value::RosValue;
use vstd::string::StrSliceExecFns;
use vstd::string::StringExecFns;

verus! {

pub const MS_PER_SECOND: u64 = 1000;
pub const MS_PER_MINUTE: u64 = 60_000;
pub const MS_PER_HOUR: u64 = 3_600_000;
pub const MS_PER_DAY: u64 = 86_400_000;

/// A non-negative span of time with millisecond precision.
#[derive(Clone, Copy, PartialEq, Eq, Structural, Debug)]
pub struct Duration {
    pub millis: u64,
}

impl View for Duration {
    type V = Duration;

    open spec fn view(&self) -> Duration {
        *self
    }
}

impl Duration {
    pub fn from_millis(millis: u64) -> (r: Duration)
        ensures
            r.millis == millis,
    {
        Duration { millis }
    }

    pub fn from_seconds(seconds: u64) -> (r: Duration)
        requires
            seconds * 1000 <= u64::MAX,
        ensures
            r.millis == seconds * 1000,
    {
        Duration { millis: seconds * 1000 }
    }

    pub fn as_millis(&self) -> (r: u64)
        ensures
            r == self.millis,
    {
        self.millis
    }
}

impl Default for Duration {
    fn default() -> (r: Self)
        ensures
            r.millis == 0,
    {
        Duration { millis: 0 }
    }
}

/// The scanner state while reading a duration string: the per-unit
/// quantities assigned so far, the colon-separated components collected so
/// far, the pending digit buffer, and whether the last character of interest
/// was an `m` (which the next character may turn into minutes or
/// milliseconds).
pub ghost struct DurScan {
    pub ms: u64,
    pub sec: u64,
    pub min: u64,
    pub hour: u64,
    pub day: u64,
    pub positional: Seq<u64>,
    pub number: Seq<char>,
    pub last_m: bool,
}

pub open spec fn dur_scan_init() -> DurScan {
    DurScan {
        ms: 0,
        sec: 0,
        min: 0,
        hour: 0,
        day: 0,
        positional: Seq::empty(),
        number: Seq::empty(),
        last_m: false,
    }
}

/// The pending digit buffer as a number, if it is non-empty and fits a `u64`.
pub open spec fn dur_num(number: Seq<char>) -> Option<u64> {
    match spec_parse_dec(number) {
        Some(v) => if v <= u64::MAX { Some(v as u64) } else { None },
        None => None,
    }
}

/// One scanner step.  `None` is a parse failure: a unit suffix or colon with
/// an empty or oversized digit buffer.
pub open spec fn dur_step(st: DurScan, c: char) -> Option<DurScan> {
    if is_dec_digit(c) {
        if st.last_m {
            match dur_num(st.number) {
                Some(v) => Some(
                    DurScan { min: v, number: seq![c], last_m: false, ..st },
                ),
                None => None,
            }
        } else {
            Some(DurScan { number: st.number.push(c), ..st })
        }
    } else if c == ':' {
        match dur_num(st.number) {
            Some(v) => Some(
                DurScan {
                    positional: st.positional.push(v),
                    number: Seq::empty(),
                    last_m: false,
                    ..st
                },
            ),
            None => None,
        }
    } else if c == 'h' {
        match dur_num(st.number) {
            Some(v) => Some(DurScan { hour: v, number: Seq::empty(), last_m: false, ..st }),
            None => None,
        }
    } else if c == 'm' {
        Some(DurScan { last_m: true, ..st })
    } else if c == 's' {
        match dur_num(st.number) {
            Some(v) => if st.last_m {
                Some(DurScan { ms: v, number: Seq::empty(), last_m: false, ..st })
            } else {
                Some(DurScan { sec: v, number: Seq::empty(), last_m: false, ..st })
            },
            None => None,
        }
    } else if c == 'd' {
        match dur_num(st.number) {
            Some(v) => Some(DurScan { day: v, number: Seq::empty(), last_m: false, ..st }),
            None => None,
        }
    } else {
        Some(st)
    }
}

/// Runs the scanner over `s`, starting from `st`.
pub open spec fn dur_scan_from(st: DurScan, s: Seq<char>) -> Option<DurScan>
    decreases s.len(),
{
    if s.len() == 0 {
        Some(st)
    } else {
        match dur_scan_from(st, s.drop_last()) {
            Some(mid) => dur_step(mid, s.last()),
            None => None,
        }
    }
}

/// After the scan: a pending buffer behind a trailing `m` is taken as
/// minutes; otherwise, in colon notation, it is the last positional
/// component.  Positional components are right-aligned onto seconds, minutes
/// and hours and added to the unit-suffixed quantities; the total is the
/// duration in milliseconds.
pub open spec fn dur_finalize(st: DurScan) -> Option<u64> {
    let resolved = if st.last_m && st.number.len() > 0 {
        match dur_num(st.number) {
            Some(v) => Some(DurScan { min: v, ..st }),
            None => None,
        }
    } else if !st.last_m && st.positional.len() > 0 && st.number.len() > 0 {
        match dur_num(st.number) {
            Some(v) => Some(DurScan { positional: st.positional.push(v), ..st }),
            None => None,
        }
    } else {
        Some(st)
    };
    match resolved {
        None => None,
        Some(st2) => {
            let k = st2.positional.len() as int;
            let sec_all = st2.sec + if k >= 1 { st2.positional[k - 1] as int } else { 0 };
            let min_all = st2.min + if k >= 2 { st2.positional[k - 2] as int } else { 0 };
            let hour_all = st2.hour + if k >= 3 { st2.positional[k - 3] as int } else { 0 };
            let total = (sec_all * 1000 + min_all * 60_000 + hour_all * 3_600_000
                + st2.day * 86_400_000 + st2.ms) as int;
            if total <= u64::MAX {
                Some(total as u64)
            } else {
                None
            }
        },
    }
}

/// What a duration string means, in milliseconds.
pub open spec fn spec_parse_duration(s: Seq<char>) -> Option<u64> {
    match dur_scan_from(dur_scan_init(), s) {
        Some(st) => dur_finalize(st),
        None => None,
    }
}

pub open spec fn dur_component(n: nat, unit: Seq<char>) -> Seq<char> {
    if n > 0 {
        spec_dec_digits(n) + unit
    } else {
        Seq::empty()
    }
}

/// The canonical rendering: non-zero components in descending magnitude,
/// `0s` for the zero duration.
pub open spec fn spec_encode_duration(ms: nat) -> Seq<char> {
    let days = ms / 86_400_000;
    let hours = (ms / 3_600_000) % 24;
    let minutes = (ms / 60_000) % 60;
    let seconds = (ms / 1000) % 60;
    let millis = ms % 1000;
    let out = dur_component(days, "d"@) + dur_component(hours, "h"@) + dur_component(
        minutes,
        "m"@,
    ) + dur_component(seconds, "s"@) + dur_component(millis, "ms"@);
    if out.len() == 0 {
        "0s"@
    } else {
        out
    }
}

impl RosValue for Duration {
    open spec fn decode_spec(s: Seq<char>) -> Option<Duration> {
        match spec_parse_duration(s) {
            Some(ms) => Some(Duration { millis: ms }),
            None => None,
        }
    }

    open spec fn encode_spec(v: Duration, f: ValueFormat) -> Seq<char> {
        spec_encode_duration(v.millis as nat)
    }

    open spec fn veq(a: Duration, b: Duration) -> bool {
        a == b
    }

    proof fn veq_reflexive(a: Duration) {
    }

    proof fn veq_symmetric(a: Duration, b: Duration) {
    }

    proof fn veq_transitive(a: Duration, b: Duration, c: Duration) {
    }

    fn from_api(value: &str) -> (r: Result<Self, RosError>) {
        match parse_duration(value) {
            Some(ms) => Ok(Duration { millis: ms }),
            None => Err(RosError::ParseIntError(value.to_owned())),
        }
    }

    fn to_api(&self, format: &ValueFormat) -> (r: String) {
        encode_duration(self.millis)
    }

    fn eq_value(&self, other: &Self) -> (r: bool) {
        self.millis == other.millis
    }
}

/// A failed scan of a prefix fails the whole scan.
proof fn lemma_scan_prefix_none(st: DurScan, s: Seq<char>, i: int)
    requires
        0 <= i <= s.len(),
        dur_scan_from(st, s.take(i)) is None,
    ensures
        dur_scan_from(st, s) is None,
    decreases s.len() - i,
{
    if i == s.len() {
        assert(s.take(i) =~= s);
    } else {
        assert(s.take(i + 1).drop_last() =~= s.take(i));
        lemma_scan_prefix_none(st, s, i + 1);
    }
}

/// Scanning a concatenation is scanning the parts in turn.
pub proof fn lemma_scan_append(st: DurScan, a: Seq<char>, b: Seq<char>)
    ensures
        dur_scan_from(st, a + b) == match dur_scan_from(st, a) {
            Some(mid) => dur_scan_from(mid, b),
            None => None::<DurScan>,
        },
    decreases b.len(),
{
    if b.len() == 0 {
        assert(a + b =~= a);
    } else {
        assert((a + b).drop_last() =~= a + b.drop_last());
        lemma_scan_append(st, a, b.drop_last());
        assert((a + b).last() == b.last());
    }
}

/// Scanning a run of digits appends them to the pending buffer.
proof fn lemma_scan_digits(st: DurScan, digits: Seq<char>)
    requires
        !st.last_m,
        forall|i: int| 0 <= i < digits.len() ==> is_dec_digit(#[trigger] digits[i]),
    ensures
        dur_scan_from(st, digits) == Some(DurScan { number: st.number + digits, ..st }),
    decreases digits.len(),
{
    if digits.len() == 0 {
        assert(st.number + digits =~= st.number);
        assert(DurScan { number: st.number + digits, ..st } == st);
    } else {
        lemma_scan_digits(st, digits.drop_last());
        let mid = DurScan { number: st.number + digits.drop_last(), ..st };
        assert(is_dec_digit(digits.last()));
        assert(dur_step(mid, digits.last()) == Some(
            DurScan { number: mid.number.push(digits.last()), ..mid },
        ));
        assert(mid.number.push(digits.last()) =~= st.number + digits);
    }
}

/// Scanning a single character is one step.
proof fn lemma_scan_one(st: DurScan, c: char)
    ensures
        dur_scan_from(st, seq![c]) == dur_step(st, c),
{
    let e = seq![c].drop_last();
    assert(e.len() == 0);
    assert(dur_scan_from(st, e) == Some(st));
    assert(seq![c].last() == c);
}

/// Scanning a digit run appends it to the buffer; a leading digit first
/// resolves a pending `m` into minutes.
proof fn lemma_scan_digits_after_m(st: DurScan, digits: Seq<char>)
    requires
        st.last_m,
        dur_num(st.number) is Some,
        digits.len() > 0,
        forall|i: int| 0 <= i < digits.len() ==> is_dec_digit(#[trigger] digits[i]),
    ensures
        dur_scan_from(st, digits) == Some(
            DurScan {
                min: dur_num(st.number).unwrap(),
                number: digits,
                last_m: false,
                ..st
            },
        ),
{
    let st1 = DurScan {
        min: dur_num(st.number).unwrap(),
        number: seq![digits[0]],
        last_m: false,
        ..st
    };
    assert(dur_step(st, digits[0]) == Some(st1));
    let rest = digits.skip(1);
    assert(forall|i: int| 0 <= i < rest.len() ==> is_dec_digit(#[trigger] rest[i]));
    lemma_scan_digits(st1, rest);
    assert(digits =~= seq![digits[0]] + rest);
    lemma_scan_append(st, seq![digits[0]], rest);
    lemma_scan_one(st, digits[0]);
    assert(st1.number + rest =~= digits);
}

/// Scanning `<digits of n><unit>` from a clean buffer assigns `n` to the
/// unit's component.
proof fn lemma_scan_number_unit(st: DurScan, n: nat, unit: char)
    requires
        !st.last_m,
        st.number.len() == 0,
        n <= u64::MAX,
        unit == 'd' || unit == 'h' || unit == 's' || unit == 'm',
    ensures
        dur_scan_from(st, spec_dec_digits(n) + seq![unit]) == Some(
            if unit == 'd' {
                DurScan { day: n as u64, number: Seq::empty(), last_m: false, ..st }
            } else if unit == 'h' {
                DurScan { hour: n as u64, number: Seq::empty(), last_m: false, ..st }
            } else if unit == 's' {
                DurScan { sec: n as u64, number: Seq::empty(), last_m: false, ..st }
            } else {
                DurScan { number: spec_dec_digits(n), last_m: true, ..st }
            },
        ),
{
    let digits = spec_dec_digits(n);
    crate::text::lemma_dec_digits_are_digits(n);
    lemma_scan_digits(st, digits);
    let st1 = DurScan { number: st.number + digits, ..st };
    assert(st.number + digits =~= digits);
    lemma_scan_append(st, digits, seq![unit]);
    lemma_scan_one(st1, unit);
    crate::text::lemma_dec_round_trip(n);
    assert(dur_num(digits) == Some(n as u64));
    assert(!is_dec_digit(unit));
}

/// Decomposing a millisecond count into days, hours, minutes, seconds and
/// milliseconds loses nothing.
proof fn lemma_dur_decomp(x: u64)
    ensures
        ({
            let ms = x as nat;
            let days = ms / 86_400_000;
            let hours = (ms / 3_600_000) % 24;
            let minutes = (ms / 60_000) % 60;
            let seconds = (ms / 1000) % 60;
            let millis = ms % 1000;
            days * 86_400_000 + hours * 3_600_000 + minutes * 60_000 + seconds * 1000 + millis
                == ms && days <= u64::MAX && hours < 24 && minutes < 60 && seconds < 60
                && millis < 1000
        }),
{
    let ms = x as int;
    let q1 = ms / 1000;
    let q2 = ms / 60_000;
    let q3 = ms / 3_600_000;
    let q4 = ms / 86_400_000;
    assert(q2 == q1 / 60 && q3 == q2 / 60 && q4 == q3 / 24) by {
        vstd::arithmetic::div_mod::lemma_div_denominator(ms, 1000, 60);
        vstd::arithmetic::div_mod::lemma_div_denominator(ms, 60_000, 60);
        vstd::arithmetic::div_mod::lemma_div_denominator(ms, 3_600_000, 24);
    }
    vstd::arithmetic::div_mod::lemma_fundamental_div_mod(ms, 1000);
    vstd::arithmetic::div_mod::lemma_fundamental_div_mod(q1, 60);
    vstd::arithmetic::div_mod::lemma_fundamental_div_mod(q2, 60);
    vstd::arithmetic::div_mod::lemma_fundamental_div_mod(q3, 24);
    assert(ms % 1000 < 1000 && q1 % 60 < 60 && q2 % 60 < 60 && q3 % 24 < 24) by {
        vstd::arithmetic::div_mod::lemma_mod_bound(ms, 1000);
        vstd::arithmetic::div_mod::lemma_mod_bound(q1, 60);
        vstd::arithmetic::div_mod::lemma_mod_bound(q2, 60);
        vstd::arithmetic::div_mod::lemma_mod_bound(q3, 24);
    }
    assert(q4 * 86_400_000 + (q3 % 24) * 3_600_000 + (q2 % 60) * 60_000 + (q1 % 60) * 1000 + ms
        % 1000 == ms) by (nonlinear_arith)
        requires
            ms == 1000 * q1 + ms % 1000,
            q1 == 60 * q2 + q1 % 60,
            q2 == 60 * q3 + q2 % 60,
            q3 == 24 * q4 + q3 % 24,
    ;
    assert(q4 <= ms) by {
        vstd::arithmetic::div_mod::lemma_div_is_ordered_by_denominator(ms, 1, 86_400_000);
        vstd::arithmetic::div_mod::lemma_div_basics(ms);
    }
}

/// Encoding a duration and decoding the result gives the duration back, for
/// every millisecond count.
#[verifier::rlimit(100)]
pub proof fn lemma_duration_round_trip(millis_in: u64)
    ensures
        spec_parse_duration(spec_encode_duration(millis_in as nat)) == Some(millis_in),
{
    let ms = millis_in as nat;
    let days = ms / 86_400_000;
    let hours = (ms / 3_600_000) % 24;
    let minutes = (ms / 60_000) % 60;
    let seconds = (ms / 1000) % 60;
    let millis = ms % 1000;
    lemma_dur_decomp(millis_in);
    reveal_strlit("d");
    reveal_strlit("h");
    reveal_strlit("m");
    reveal_strlit("s");
    reveal_strlit("ms");
    reveal_strlit("0s");
    let pd = dur_component(days, "d"@);
    let ph = dur_component(hours, "h"@);
    let pm = dur_component(minutes, "m"@);
    let ps = dur_component(seconds, "s"@);
    let pms = dur_component(millis, "ms"@);
    let whole = pd + ph + pm + ps + pms;
    if whole.len() == 0 {
        // every component is zero, so the encoding is the literal `0s`
        assert(days == 0 && hours == 0 && minutes == 0 && seconds == 0 && millis == 0);
        assert(ms == 0);
        let e = spec_encode_duration(ms);
        assert(e =~= seq!['0', 's']);
        let st0 = dur_scan_init();
        let st1 = DurScan { number: seq!['0'], ..st0 };
        assert(dur_step(st0, '0') == Some(st1));
        assert(dur_scan_from(st0, e) == dur_step(st1, 's')) by {
            assert(e =~= seq!['0'] + seq!['s']);
            lemma_scan_append(st0, seq!['0'], seq!['s']);
            lemma_scan_one(st0, '0');
            lemma_scan_one(st1, 's');
        }
        assert(spec_parse_dec(seq!['0']) == Some(0nat));
        assert(dur_num(seq!['0']) == Some(0u64));
        let st2 = DurScan { sec: 0, number: Seq::empty(), last_m: false, ..st1 };
        assert(dur_scan_from(st0, e) == Some(st2));
        assert(dur_finalize(st2) == Some(0u64));
    } else {
        assert(spec_encode_duration(ms) == whole);
        lemma_duration_round_trip_nonzero(millis_in);
    }
}

/// The non-zero case of the round trip: the scan walks the emitted
/// components and rebuilds each quantity.
#[verifier::rlimit(100)]
proof fn lemma_duration_round_trip_nonzero(millis_in: u64)
    requires
        millis_in > 0,
    ensures
        spec_parse_duration(spec_encode_duration(millis_in as nat)) == Some(millis_in),
{
    let ms = millis_in as nat;
    let days = ms / 86_400_000;
    let hours = (ms / 3_600_000) % 24;
    let minutes = (ms / 60_000) % 60;
    let seconds = (ms / 1000) % 60;
    let millis = ms % 1000;
    lemma_dur_decomp(millis_in);
    reveal_strlit("d");
    reveal_strlit("h");
    reveal_strlit("m");
    reveal_strlit("s");
    reveal_strlit("ms");
    let pd = dur_component(days, "d"@);
    let ph = dur_component(hours, "h"@);
    let pm = dur_component(minutes, "m"@);
    let ps = dur_component(seconds, "s"@);
    let pms = dur_component(millis, "ms"@);
    let whole = pd + ph + pm + ps + pms;
    assert(whole.len() > 0) by {
        if days > 0 {
            crate::text::lemma_dec_digits_are_digits(days);
        } else if hours > 0 {
            crate::text::lemma_dec_digits_are_digits(hours);
        } else if minutes > 0 {
            crate::text::lemma_dec_digits_are_digits(minutes);
        } else if seconds > 0 {
            crate::text::lemma_dec_digits_are_digits(seconds);
        } else if millis > 0 {
            crate::text::lemma_dec_digits_are_digits(millis);
        }
    }
    assert(spec_encode_duration(ms) == whole);
    {
        let st0 = dur_scan_init();
        // after the day component
        let st1 = if days > 0 {
            DurScan { day: days as u64, number: Seq::empty(), last_m: false, ..st0 }
        } else {
            st0
        };
        if days > 0 {
            lemma_scan_number_unit(st0, days, 'd');
            assert(pd =~= spec_dec_digits(days) + seq!['d']);
        } else {
            assert(pd =~= Seq::<char>::empty());
        }
        assert(dur_scan_from(st0, pd) == Some(st1));
        // after the hour component
        let st2 = if hours > 0 {
            DurScan { hour: hours as u64, number: Seq::empty(), last_m: false, ..st1 }
        } else {
            st1
        };
        if hours > 0 {
            lemma_scan_number_unit(st1, hours, 'h');
            assert(ph =~= spec_dec_digits(hours) + seq!['h']);
        } else {
            assert(ph =~= Seq::<char>::empty());
        }
        assert(dur_scan_from(st1, ph) == Some(st2));
        // after the minute component: the buffer still holds the digits,
        // waiting to see whether an `s` follows
        let st3 = if minutes > 0 {
            DurScan { number: spec_dec_digits(minutes), last_m: true, ..st2 }
        } else {
            st2
        };
        if minutes > 0 {
            lemma_scan_number_unit(st2, minutes, 'm');
            assert(pm =~= spec_dec_digits(minutes) + seq!['m']);
        } else {
            assert(pm =~= Seq::<char>::empty());
        }
        assert(dur_scan_from(st2, pm) == Some(st3));
        // after the second component
        let st4 = if seconds > 0 {
            if minutes > 0 {
                DurScan {
                    min: minutes as u64,
                    sec: seconds as u64,
                    number: Seq::empty(),
                    last_m: false,
                    ..st2
                }
            } else {
                DurScan { sec: seconds as u64, number: Seq::empty(), last_m: false, ..st3 }
            }
        } else {
            st3
        };
        if seconds > 0 {
            assert(ps =~= spec_dec_digits(seconds) + seq!['s']);
            if minutes > 0 {
                crate::text::lemma_dec_round_trip(minutes);
                crate::text::lemma_dec_digits_are_digits(minutes);
                crate::text::lemma_dec_digits_are_digits(seconds);
                let stm = DurScan {
                    min: minutes as u64,
                    number: spec_dec_digits(seconds),
                    last_m: false,
                    ..st3
                };
                lemma_scan_digits_after_m(st3, spec_dec_digits(seconds));
                assert(dur_scan_from(st3, spec_dec_digits(seconds)) == Some(stm));
                lemma_scan_append(st3, spec_dec_digits(seconds), seq!['s']);
                lemma_scan_one(stm, 's');
                crate::text::lemma_dec_round_trip(seconds);
                assert(dur_num(spec_dec_digits(seconds)) == Some(seconds as u64));
                assert(dur_scan_from(st3, ps) == Some(st4));
            } else {
                lemma_scan_number_unit(st3, seconds, 's');
            }
        } else {
            assert(ps =~= Seq::<char>::empty());
        }
        assert(dur_scan_from(st3, ps) == Some(st4));
        // after the millisecond component
        let st5 = if millis > 0 {
            if minutes > 0 && seconds == 0 {
                DurScan {
                    min: minutes as u64,
                    ms: millis as u64,
                    number: Seq::empty(),
                    last_m: false,
                    ..st2
                }
            } else {
                DurScan { ms: millis as u64, number: Seq::empty(), last_m: false, ..st4 }
            }
        } else {
            st4
        };
        if millis > 0 {
            assert(pms =~= spec_dec_digits(millis) + (seq!['m'] + seq!['s']));
            crate::text::lemma_dec_digits_are_digits(millis);
            crate::text::lemma_dec_round_trip(millis);
            let std_ = if minutes > 0 && seconds == 0 {
                crate::text::lemma_dec_round_trip(minutes);
                let r = DurScan {
                    min: minutes as u64,
                    number: spec_dec_digits(millis),
                    last_m: false,
                    ..st4
                };
                lemma_scan_digits_after_m(st4, spec_dec_digits(millis));
                r
            } else {
                let r = DurScan { number: spec_dec_digits(millis), ..st4 };
                lemma_scan_digits(st4, spec_dec_digits(millis));
                assert(st4.number + spec_dec_digits(millis) =~= spec_dec_digits(millis));
                r
            };
            assert(dur_scan_from(st4, spec_dec_digits(millis)) == Some(std_));
            let stm2 = DurScan { last_m: true, ..std_ };
            assert(dur_step(std_, 'm') == Some(stm2));
            assert(dur_num(spec_dec_digits(millis)) == Some(millis as u64));
            assert(dur_step(stm2, 's') == Some(st5));
            lemma_scan_append(st4, spec_dec_digits(millis), seq!['m'] + seq!['s']);
            assert(dur_scan_from(std_, seq!['m'] + seq!['s']) == Some(st5)) by {
                lemma_scan_append(std_, seq!['m'], seq!['s']);
                lemma_scan_one(std_, 'm');
                lemma_scan_one(stm2, 's');
            }
        } else {
            assert(pms =~= Seq::<char>::empty());
        }
        assert(dur_scan_from(st4, pms) == Some(st5));
        // chain the five components together
        lemma_scan_append(st0, pd, ph);
        lemma_scan_append(st0, pd + ph, pm);
        lemma_scan_append(st0, pd + ph + pm, ps);
        lemma_scan_append(st0, pd + ph + pm + ps, pms);
        assert(dur_scan_from(st0, whole) == Some(st5));
        // resolve the trailing buffer and total up
        if millis == 0 && seconds == 0 && minutes > 0 {
            crate::text::lemma_dec_round_trip(minutes);
            crate::text::lemma_dec_digits_are_digits(minutes);
            assert(st5.last_m && st5.number.len() > 0);
            assert(dur_num(st5.number) == Some(minutes as u64));
            let resolved = DurScan { min: minutes as u64, ..st5 };
            assert(dur_finalize(st5) == Some(millis_in)) by {
                assert(resolved.positional.len() == 0);
                assert(resolved.sec == seconds && resolved.min == minutes && resolved.hour
                    == hours && resolved.day == days && resolved.ms == millis);
            }
        } else {
            assert(!st5.last_m || st5.number.len() == 0);
            assert(st5.positional.len() == 0);
            assert(st5.sec == seconds && st5.min == minutes && st5.hour == hours && st5.day
                == days && st5.ms == millis);
            assert(dur_finalize(st5) == Some(millis_in));
        }
    }
}

/// Parses a duration string; `None` exactly where `spec_parse_duration` says.
pub fn parse_duration(s: &str) -> (r: Option<u64>)
    ensures
        r == spec_parse_duration(s@),
{
    let len = s.unicode_len();
    let mut msec: u64 = 0;
    let mut seconds: u64 = 0;
    let mut minutes: u64 = 0;
    let mut hours: u64 = 0;
    let mut days: u64 = 0;
    let mut positional: Vec<u64> = Vec::new();
    let mut num_val: u64 = 0;
    let mut num_len: usize = 0;
    let mut num_over: bool = false;
    let mut last_m: bool = false;
    let ghost mut st = dur_scan_init();
    let mut i: usize = 0;
    while i < len
        invariant
            len == s@.len(),
            0 <= i <= len,
            dur_scan_from(dur_scan_init(), s@.take(i as int)) == Some(st),
            st.ms == msec,
            st.sec == seconds,
            st.min == minutes,
            st.hour == hours,
            st.day == days,
            st.positional == positional@,
            st.last_m == last_m,
            st.number.len() == num_len,
            num_len <= i,
            forall|j: int| 0 <= j < st.number.len() ==> is_dec_digit(#[trigger] st.number[j]),
            num_len == 0 ==> num_val == 0 && !num_over,
            num_len > 0 ==> match spec_parse_dec(st.number) {
                Some(v) => num_over == (v > u64::MAX) && (!num_over ==> num_val == v),
                None => false,
            },
        decreases len - i,
    {
        let c = s.get_char(i);
        proof {
            assert(s@.take(i + 1).drop_last() =~= s@.take(i as int));
            assert(s@.take(i + 1).last() == c);
        }
        match char_to_dec_digit(c) {
            Some(d) => {
                if last_m {
                    // lookahead: the pending number before the `m` was minutes
                    if num_len == 0 || num_over {
                        proof {
                            lemma_scan_prefix_none(dur_scan_init(), s@, i + 1);
                        }
                        return None;
                    }
                    minutes = num_val;
                    num_val = d as u64;
                    num_len = 1;
                    num_over = false;
                    last_m = false;
                    proof {
                        st = DurScan {
                            min: minutes,
                            number: seq![c],
                            last_m: false,
                            ..st
                        };
                    }
                } else {
                    if num_over || num_val > (u64::MAX - d as u64) / 10 {
                        proof {
                            let newnum = st.number.push(c);
                            assert(newnum.drop_last() =~= st.number);
                            if st.number.len() > 0 {
                                let v = spec_parse_dec(st.number).unwrap();
                                assert(spec_parse_dec(newnum) == Some(
                                    v * 10 + dec_digit_val(c),
                                ));
                                assert(v * 10 + dec_digit_val(c) > u64::MAX)
                                    by (nonlinear_arith)
                                    requires
                                        d < 10,
                                        dec_digit_val(c) == d as nat,
                                        v > u64::MAX || (v == num_val && num_val > (u64::MAX
                                            - d as u64) / 10),
                                ;
                            }
                            st = DurScan { number: newnum, ..st };
                        }
                        num_over = true;
                        num_len = num_len + 1;
                    } else {
                        proof {
                            assert(num_val * 10 + d as nat <= u64::MAX) by (nonlinear_arith)
                                requires
                                    num_val <= (u64::MAX - d as u64) / 10,
                                    d < 10,
                            ;
                            let newnum = st.number.push(c);
                            assert(newnum.drop_last() =~= st.number);
                            if st.number.len() > 0 {
                                let v = spec_parse_dec(st.number).unwrap();
                                assert(spec_parse_dec(newnum) == Some(
                                    v * 10 + dec_digit_val(c),
                                ));
                            }
                            st = DurScan { number: newnum, ..st };
                        }
                        num_val = num_val * 10 + d as u64;
                        num_len = num_len + 1;
                    }
                }
            },
            None => {
                if c == ':' {
                    if num_len == 0 || num_over {
                        proof {
                            lemma_scan_prefix_none(dur_scan_init(), s@, i + 1);
                        }
                        return None;
                    }
                    positional.push(num_val);
                    proof {
                        st = DurScan {
                            positional: st.positional.push(num_val),
                            number: Seq::empty(),
                            last_m: false,
                            ..st
                        };
                        assert(st.positional =~= positional@);
                    }
                    num_val = 0;
                    num_len = 0;
                    num_over = false;
                    last_m = false;
                } else if c == 'h' {
                    if num_len == 0 || num_over {
                        proof {
                            lemma_scan_prefix_none(dur_scan_init(), s@, i + 1);
                        }
                        return None;
                    }
                    hours = num_val;
                    num_val = 0;
                    num_len = 0;
                    num_over = false;
                    last_m = false;
                    proof {
                        st = DurScan { hour: hours, number: Seq::empty(), last_m: false, ..st };
                    }
                } else if c == 'm' {
                    last_m = true;
                    proof {
                        st = DurScan { last_m: true, ..st };
                    }
                } else if c == 's' {
                    if num_len == 0 || num_over {
                        proof {
                            lemma_scan_prefix_none(dur_scan_init(), s@, i + 1);
                        }
                        return None;
                    }
                    if last_m {
                        msec = num_val;
                        proof {
                            st = DurScan { ms: msec, number: Seq::empty(), last_m: false, ..st };
                        }
                    } else {
                        seconds = num_val;
                        proof {
                            st = DurScan {
                                sec: seconds,
                                number: Seq::empty(),
                                last_m: false,
                                ..st
                            };
                        }
                    }
                    num_val = 0;
                    num_len = 0;
                    num_over = false;
                    last_m = false;
                } else if c == 'd' {
                    if num_len == 0 || num_over {
                        proof {
                            lemma_scan_prefix_none(dur_scan_init(), s@, i + 1);
                        }
                        return None;
                    }
                    days = num_val;
                    num_val = 0;
                    num_len = 0;
                    num_over = false;
                    last_m = false;
                    proof {
                        st = DurScan { day: days, number: Seq::empty(), last_m: false, ..st };
                    }
                }
            },
        }
        i = i + 1;
    }
    proof {
        assert(s@.take(len as int) =~= s@);
    }
    // resolve a pending buffer: minutes behind a trailing `m`, else the last
    // colon component
    if last_m && num_len > 0 {
        if num_over {
            return None;
        }
        minutes = num_val;
    } else if !last_m && positional.len() > 0 && num_len > 0 {
        if num_over {
            return None;
        }
        positional.push(num_val);
    }
    // right-align the positional components onto seconds, minutes and hours
    let k = positional.len();
    let sec_add: u64 = if k >= 1 { positional[k - 1] } else { 0 };
    let min_add: u64 = if k >= 2 { positional[k - 2] } else { 0 };
    let hour_add: u64 = if k >= 3 { positional[k - 3] } else { 0 };
    let total: u128 = (seconds as u128 + sec_add as u128) * 1000 + (minutes as u128
        + min_add as u128) * 60_000 + (hours as u128 + hour_add as u128) * 3_600_000 + (
    days as u128) * 86_400_000 + msec as u128;
    if total <= u64::MAX as u128 {
        Some(total as u64)
    } else {
        None
    }
}

/// Renders a duration in milliseconds as its canonical wire text.
#[verifier::rlimit(100)]
pub fn encode_duration(millis: u64) -> (r: String)
    ensures
        r@ == spec_encode_duration(millis as nat),
{
    let days = millis / MS_PER_DAY;
    let hours = (millis / MS_PER_HOUR) % 24;
    let minutes = (millis / MS_PER_MINUTE) % 60;
    let seconds = (millis / MS_PER_SECOND) % 60;
    let msec = millis % MS_PER_SECOND;
    let mut out = String::new();
    if days > 0 {
        let ds = format_u64(days);
        out.append(ds.as_str());
        push_char(&mut out, 'd');
    }
    proof {
        reveal_strlit("d");
        assert(out@ =~= dur_component(days as nat, "d"@));
    }
    let ghost p1 = out@;
    if hours > 0 {
        let hs = format_u64(hours);
        out.append(hs.as_str());
        push_char(&mut out, 'h');
    }
    proof {
        reveal_strlit("h");
        assert(out@ =~= p1 + dur_component(hours as nat, "h"@));
    }
    let ghost p2 = out@;
    if minutes > 0 {
        let ns = format_u64(minutes);
        out.append(ns.as_str());
        push_char(&mut out, 'm');
    }
    proof {
        reveal_strlit("m");
        assert(out@ =~= p2 + dur_component(minutes as nat, "m"@));
    }
    let ghost p3 = out@;
    if seconds > 0 {
        let ss = format_u64(seconds);
        out.append(ss.as_str());
        push_char(&mut out, 's');
    }
    proof {
        reveal_strlit("s");
        assert(out@ =~= p3 + dur_component(seconds as nat, "s"@));
    }
    let ghost p4 = out@;
    if msec > 0 {
        let vs = format_u64(msec);
        out.append(vs.as_str());
        push_char(&mut out, 'm');
        push_char(&mut out, 's');
    }
    proof {
        reveal_strlit("ms");
        reveal_strlit("m");
        reveal_strlit("s");
        assert("ms"@ =~= seq!['m', 's']);
        assert(out@ =~= p4 + dur_component(msec as nat, "ms"@));
        assert(out@ =~= dur_component(days as nat, "d"@) + dur_component(hours as nat, "h"@)
            + dur_component(minutes as nat, "m"@) + dur_component(seconds as nat, "s"@)
            + dur_component(msec as nat, "ms"@));
    }
    if out.unicode_len() == 0 {
        let zero = "0s".to_owned();
        proof {
            assert(zero@ == spec_encode_duration(millis as nat));
        }
        zero
    } else {
        proof {
            assert(out@ == spec_encode_duration(millis as nat));
        }
        out
    }
}

} // verus!
