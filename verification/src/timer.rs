//! A stopwatch for long imports that also collects named counters, and
//! the report it gives at the end.

use vstd::prelude::*;
use vstd::string::*;

use std::time::Duration;
use std::time::Instant;

use crate::text::{
    all_digits, decimal, decimal_pad2, decimal_pad2_string, decimal_string, digit_char, digits_value,
    lemma_pad2_digits, lemma_pad2_two_digits, str_equal,
};

verus! {

#[verifier::external_type_specification]
#[verifier::external_body]
pub struct ExInstant(std::time::Instant);

/// Calls `std::time::Instant::now`. What it returns depends on the clock,
/// so nothing is stated of it.
#[verifier::external_body]
fn instant_now() -> Instant {
    Instant::now()
}

/// Calls `std::time::Instant::elapsed`. What it returns depends on the
/// clock, so nothing is stated of it.
#[verifier::external_body]
fn instant_elapsed(instant: &Instant) -> Duration {
    instant.elapsed()
}

/// Calls `std::time::Duration::as_secs`. A `Duration` is opaque here and is
/// only ever obtained from the clock, so nothing is stated of the number of
/// whole seconds it holds.
#[verifier::external_body]
fn duration_as_secs(duration: &Duration) -> u64 {
    duration.as_secs()
}

/// A number of seconds as hours, minutes and seconds.
pub open spec fn duration_parts_spec(total: nat) -> (nat, nat, nat) {
    (total / 3600, (total % 3600) / 60, total % 60)
}

/// Splits a number of seconds into hours, minutes and seconds.
pub fn duration_parts(total: u64) -> (res: (u64, u64, u64))
    ensures
        (res.0 as nat, res.1 as nat, res.2 as nat) == duration_parts_spec(total as nat),
{
    (total / 3600, (total % 3600) / 60, total % 60)
}

/// The parts of a duration put back together give the duration, and the
/// minutes and seconds stay below 60.
pub proof fn law_duration_parts_recompose(total: nat)
    ensures
        ({
            let (h, m, s) = duration_parts_spec(total);
            &&& h * 3600 + m * 60 + s == total
            &&& m < 60
            &&& s < 60
        }),
{
    let h = total / 3600;
    let r = total % 3600;
    assert(h * 3600 + r == total && 0 <= r < 3600) by (nonlinear_arith)
        requires h == total / 3600, r == total % 3600;
    let m = r / 60;
    let s0 = r % 60;
    assert(m * 60 + s0 == r && m < 60 && 0 <= s0 < 60) by (nonlinear_arith)
        requires m == r / 60, s0 == r % 60, 0 <= r < 3600;
    assert(s0 == total % 60) by (nonlinear_arith)
        requires h * 3600 + r == total, s0 == r % 60, 0 <= r, h >= 0;
}

/// The first report line: `Total duration: HH:MM:SS`.
pub open spec fn duration_line(total: nat) -> Seq<char> {
    let (h, m, s) = duration_parts_spec(total);
    "Total duration: "@ + decimal_pad2(h) + ":"@ + decimal_pad2(m) + ":"@ + decimal_pad2(s)
}

/// Writes the line `Total duration: HH:MM:SS` for a number of seconds.
pub fn duration_line_string(total_secs: u64) -> (res: String)
    ensures
        res@ == duration_line(total_secs as nat),
{
    let (h, m, s) = duration_parts(total_secs);
    let mut line = "Total duration: ".to_owned();
    line.append(decimal_pad2_string(h).as_str());
    line.append(":");
    line.append(decimal_pad2_string(m).as_str());
    line.append(":");
    line.append(decimal_pad2_string(s).as_str());
    line
}

/// The duration line of `t` seconds reads `Total duration: ` and then the
/// whole hours `t / 3600` in at least two digits (a leading zero only for a
/// single digit), a colon, the remaining whole minutes as exactly two
/// digits, a colon, and the remaining seconds as exactly two digits.
pub proof fn law_duration_line_fields(t: nat)
    ensures
        exists|hours: Seq<char>|
            {
                &&& hours.len() >= 2
                &&& all_digits(hours)
                &&& digits_value(hours) == t / 3600
                &&& hours.len() > 2 ==> hours[0] != '0'
                &&& duration_line(t) == "Total duration: "@ + hours + seq![
                    ':',
                    digit_char((t % 3600) / 60 / 10),
                    digit_char((t % 3600) / 60 % 10),
                    ':',
                    digit_char(t % 60 / 10),
                    digit_char(t % 60 % 10),
                ]
            },
{
    let h = t / 3600;
    let m = (t % 3600) / 60;
    let s = t % 60;
    assert(m < 60) by (nonlinear_arith)
        requires m == (t % 3600) / 60;
    lemma_pad2_digits(h);
    lemma_pad2_two_digits(m);
    lemma_pad2_two_digits(s);
    reveal_strlit(":");
    let hours = decimal_pad2(h);
    assert(duration_line(t) =~= "Total duration: "@ + hours + seq![
        ':',
        digit_char(m / 10),
        digit_char(m % 10),
        ':',
        digit_char(s / 10),
        digit_char(s % 10),
    ]);
}

/// The report line of one named counter: ` key: value`.
pub open spec fn info_line(entry: (Seq<char>, usize)) -> Seq<char> {
    " "@ + entry.0 + ": "@ + decimal(entry.1 as nat)
}

/// The whole report: the duration, then one line per counter.
pub open spec fn report_spec(total: nat, entries: Seq<(Seq<char>, usize)>) -> Seq<Seq<char>> {
    seq![duration_line(total)] + entries.map_values(|e: (Seq<char>, usize)| info_line(e))
}

/// No counter name occurs twice.
pub open spec fn distinct_keys(entries: Seq<(Seq<char>, usize)>) -> bool {
    forall|i: int, j: int|
        0 <= i < entries.len() && 0 <= j < entries.len() && i != j ==> entries[i].0 != entries[j].0
}

/// The counters after setting `key` to `value`: a counter of that name is
/// overwritten in place, otherwise the counter is added at the end.
pub open spec fn insert_entry(entries: Seq<(Seq<char>, usize)>, key: Seq<char>, value: usize) -> Seq<
    (Seq<char>, usize),
>
    decreases entries.len(),
{
    if entries.len() == 0 {
        seq![(key, value)]
    } else if entries[0].0 == key {
        entries.update(0, (key, value))
    } else {
        seq![entries[0]] + insert_entry(entries.drop_first(), key, value)
    }
}

/// The value of the counter named `key`, if there is one.
pub open spec fn lookup_entry(entries: Seq<(Seq<char>, usize)>, key: Seq<char>) -> Option<usize>
    decreases entries.len(),
{
    if entries.len() == 0 {
        None
    } else if entries[0].0 == key {
        Some(entries[0].1)
    } else {
        lookup_entry(entries.drop_first(), key)
    }
}

/// Measures the time since it was started and keeps named counters.
pub struct Timer {
    instant: Instant,
    extra_info: Vec<(&'static str, usize)>,
}

/// The strings of a list of counters, by their characters.
pub open spec fn entries_view(v: Seq<(&'static str, usize)>) -> Seq<(Seq<char>, usize)> {
    v.map_values(|e: (&'static str, usize)| (e.0@, e.1))
}

impl Timer {
    #[verifier::type_invariant]
    spec fn keys_are_distinct(self) -> bool {
        distinct_keys(entries_view(self.extra_info@))
    }

    /// The named counters, in the order in which they were first set.
    pub closed spec fn info(self) -> Seq<(Seq<char>, usize)> {
        entries_view(self.extra_info@)
    }

    /// The instant the time measurement started at.
    pub closed spec fn started(self) -> Instant {
        self.instant
    }

    /// A timer that starts now and holds no counters.
    pub fn new() -> (res: Timer)
        ensures
            res.info() == Seq::<(Seq<char>, usize)>::empty(),
            distinct_keys(res.info()),
    {
        let res = Timer { instant: instant_now(), extra_info: Vec::new() };
        assert(res.info() =~= Seq::<(Seq<char>, usize)>::empty());
        res
    }

    /// Restarts the time measurement; the counters stay.
    pub fn start_ticking(&mut self)
        ensures
            final(self).info() == old(self).info(),
            distinct_keys(final(self).info()),
    {
        proof {
            use_type_invariant(&*self);
        }
        self.instant = instant_now();
    }

    /// Sets the counter named `key` to `value`.
    pub fn push_info(&mut self, key: &'static str, value: usize)
        ensures
            final(self).info() == insert_entry(old(self).info(), key@, value),
            final(self).started() == old(self).started(),
            distinct_keys(final(self).info()),
    {
        proof {
            use_type_invariant(&*self);
        }
        let n = self.extra_info.len();
        let mut i: usize = 0;
        while i < n
            invariant
                n == self.extra_info.len(),
                i <= n,
                self.info() == old(self).info(),
                self.started() == old(self).started(),
                distinct_keys(self.info()),
                forall|j: int| 0 <= j < i ==> self.info()[j].0 != key@,
            decreases n - i,
        {
            if str_equal(self.extra_info[i].0, key) {
                proof {
                    lemma_insert_entry_at(self.info(), key, value, i as int);
                    assert(self.info()[i as int].0 == key@);
                }
                let ghost before = self.info();
                let mut entries: Vec<(&'static str, usize)> = Vec::new();
                std::mem::swap(&mut entries, &mut self.extra_info);
                entries.set(i, (key, value));
                assert(entries_view(entries@) =~= before.update(i as int, (key@, value)));
                assert(distinct_keys(entries_view(entries@)));
                self.extra_info = entries;
                return;
            }
            i = i + 1;
        }
        proof {
            lemma_insert_entry_absent(self.info(), key@, value);
        }
        let ghost before = self.info();
        let mut entries: Vec<(&'static str, usize)> = Vec::new();
        std::mem::swap(&mut entries, &mut self.extra_info);
        entries.push((key, value));
        assert(entries_view(entries@) =~= before.push((key@, value)));
        assert(distinct_keys(entries_view(entries@)));
        self.extra_info = entries;
    }

    /// The report lines for a measured duration of `total_secs` seconds.
    pub fn report_lines(&self, total_secs: u64) -> (res: Vec<String>)
        ensures
            res@.map_values(|l: String| l@) == report_spec(total_secs as nat, self.info()),
    {
        let first = duration_line_string(total_secs);
        let mut lines: Vec<String> = Vec::new();
        lines.push(first);
        let n = self.extra_info.len();
        let mut i: usize = 0;
        while i < n
            invariant
                n == self.extra_info.len(),
                i <= n,
                lines@.map_values(|l: String| l@) == report_spec(
                    total_secs as nat,
                    self.info().take(i as int),
                ),
            decreases n - i,
        {
            let (key, value) = self.extra_info[i];
            let mut line = " ".to_owned();
            line.append(key);
            line.append(": ");
            line.append(decimal_string(value as u64).as_str());
            let ghost before = lines@;
            lines.push(line);
            proof {
                assert(lines@.map_values(|l: String| l@) =~= before.map_values(|l: String| l@).push(
                    line@,
                ));
                assert(self.info().take(i + 1) =~= self.info().take(i as int).push(self.info()[i as int]));
                assert(report_spec(total_secs as nat, self.info().take(i + 1)) =~= report_spec(
                    total_secs as nat,
                    self.info().take(i as int),
                ).push(info_line(self.info()[i as int])));
            }
            i = i + 1;
        }
        assert(self.info().take(n as int) =~= self.info());
        lines
    }

    /// Stops the timer and gives its report: the time measured since it was
    /// started, then the counters.
    pub fn show_duration(self) -> (res: Vec<String>)
        ensures
            exists|total: u64|
                res@.map_values(|l: String| l@) == report_spec(total as nat, self.info()),
    {
        let elapsed = instant_elapsed(&self.instant);
        let total = duration_as_secs(&elapsed);
        self.report_lines(total)
    }
}

/// Setting a counter changes that counter alone: afterwards it reads the
/// new value, every other counter reads as before, and no name occurs twice.
pub proof fn law_push_info_sets_one_counter(
    entries: Seq<(Seq<char>, usize)>,
    key: Seq<char>,
    value: usize,
    other: Seq<char>,
)
    requires
        distinct_keys(entries),
    ensures
        lookup_entry(insert_entry(entries, key, value), key) == Some(value),
        other != key ==> lookup_entry(insert_entry(entries, key, value), other) == lookup_entry(
            entries,
            other,
        ),
        distinct_keys(insert_entry(entries, key, value)),
        insert_entry(entries, key, value).len() == entries.len() + (if lookup_entry(entries, key) is None {
            1int
        } else {
            0int
        }),
    decreases entries.len(),
{
    if entries.len() == 0 {
        let ins = insert_entry(entries, key, value);
        assert(ins.drop_first() =~= Seq::<(Seq<char>, usize)>::empty());
        assert(ins[0] == (key, value));
        assert(lookup_entry(ins.drop_first(), other) is None);
        assert(other != key ==> lookup_entry(ins, other) is None);
    } else {
        let rest = entries.drop_first();
        assert(distinct_keys(rest)) by {
            assert forall|i: int, j: int|
                0 <= i < rest.len() && 0 <= j < rest.len() && i != j implies rest[i].0 != rest[j].0 by {
                assert(rest[i] == entries[i + 1] && rest[j] == entries[j + 1]);
            }
        }
        law_push_info_sets_one_counter(rest, key, value, other);
        let ins = insert_entry(entries, key, value);
        if entries[0].0 == key {
            assert(ins.drop_first() =~= rest);
            assert(other != key ==> lookup_entry(ins, other) == lookup_entry(rest, other));
            assert(other != key ==> lookup_entry(entries, other) == lookup_entry(rest, other));
            assert(distinct_keys(ins)) by {
                assert forall|i: int, j: int|
                    0 <= i < ins.len() && 0 <= j < ins.len() && i != j implies ins[i].0 != ins[j].0 by {
                    if i > 0 {
                        assert(ins[i] == entries[i]);
                    }
                    if j > 0 {
                        assert(ins[j] == entries[j]);
                    }
                }
            }
        } else {
            let ins_rest = insert_entry(rest, key, value);
            assert(ins.drop_first() =~= ins_rest);
            assert(ins[0] == entries[0]);
            assert(other != key ==> lookup_entry(ins, other) == lookup_entry(entries, other)) by {
                if other != key && entries[0].0 != other {
                    assert(lookup_entry(ins, other) == lookup_entry(ins_rest, other));
                }
            }
            lemma_insert_entry_keys(rest, key, value);
            assert(distinct_keys(ins)) by {
                assert forall|i: int, j: int|
                    0 <= i < ins.len() && 0 <= j < ins.len() && i != j implies ins[i].0 != ins[j].0 by {
                    if i == 0 && j > 0 {
                        assert(ins[j] == ins_rest[j - 1]);
                        if ins_rest[j - 1].0 != key {
                            let k = choose|k: int| 0 <= k < rest.len() && rest[k].0 == ins_rest[j - 1].0;
                            assert(rest[k] == entries[k + 1]);
                        }
                    } else if j == 0 && i > 0 {
                        assert(ins[i] == ins_rest[i - 1]);
                        if ins_rest[i - 1].0 != key {
                            let k = choose|k: int| 0 <= k < rest.len() && rest[k].0 == ins_rest[i - 1].0;
                            assert(rest[k] == entries[k + 1]);
                        }
                    } else if i > 0 && j > 0 {
                        assert(ins[i] == ins_rest[i - 1] && ins[j] == ins_rest[j - 1]);
                    }
                }
            }
        }
    }
}

/// The names after setting a counter are the old names and the new one.
proof fn lemma_insert_entry_keys(entries: Seq<(Seq<char>, usize)>, key: Seq<char>, value: usize)
    ensures
        forall|i: int|
            0 <= i < insert_entry(entries, key, value).len() ==> (#[trigger] insert_entry(
                entries,
                key,
                value,
            )[i]).0 == key || exists|k: int|
                0 <= k < entries.len() && entries[k].0 == insert_entry(entries, key, value)[i].0,
    decreases entries.len(),
{
    if entries.len() > 0 && entries[0].0 != key {
        let rest = entries.drop_first();
        lemma_insert_entry_keys(rest, key, value);
        let ins = insert_entry(entries, key, value);
        let ins_rest = insert_entry(rest, key, value);
        assert forall|i: int| 0 <= i < ins.len() implies (#[trigger] ins[i]).0 == key || exists|k: int|
            0 <= k < entries.len() && entries[k].0 == ins[i].0 by {
            if i == 0 {
                assert(entries[0].0 == ins[0].0);
            } else {
                assert(ins[i] == ins_rest[i - 1]);
                if ins_rest[i - 1].0 != key {
                    let k = choose|k: int| 0 <= k < rest.len() && rest[k].0 == ins_rest[i - 1].0;
                    assert(entries[k + 1].0 == ins[i].0);
                }
            }
        }
    } else if entries.len() > 0 {
        let ins = insert_entry(entries, key, value);
        assert forall|i: int| 0 <= i < ins.len() implies (#[trigger] ins[i]).0 == key || exists|k: int|
            0 <= k < entries.len() && entries[k].0 == ins[i].0 by {
            if i > 0 {
                assert(entries[i].0 == ins[i].0);
            }
        }
    }
}

/// Overwriting the counter at `i`, the first of that name.
proof fn lemma_insert_entry_at(entries: Seq<(Seq<char>, usize)>, key: &str, value: usize, i: int)
    requires
        0 <= i < entries.len(),
        entries[i].0 == key@,
        forall|j: int| 0 <= j < i ==> entries[j].0 != key@,
    ensures
        insert_entry(entries, key@, value) == entries.update(i, (key@, value)),
    decreases i,
{
    if i > 0 {
        lemma_insert_entry_at(entries.drop_first(), key, value, i - 1);
        assert(seq![entries[0]] + entries.drop_first().update(i - 1, (key@, value)) =~= entries.update(
            i,
            (key@, value),
        ));
    }
}

/// Adding a counter whose name is not there yet.
proof fn lemma_insert_entry_absent(entries: Seq<(Seq<char>, usize)>, key: Seq<char>, value: usize)
    requires
        forall|j: int| 0 <= j < entries.len() ==> entries[j].0 != key,
    ensures
        insert_entry(entries, key, value) == entries.push((key, value)),
    decreases entries.len(),
{
    if entries.len() > 0 {
        lemma_insert_entry_absent(entries.drop_first(), key, value);
        assert(seq![entries[0]] + entries.drop_first().push((key, value)) =~= entries.push((key, value)));
    }
}

} // verus!
