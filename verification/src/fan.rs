use vstd::prelude::*;
use crate::capture::capture_group;
use crate::capture::regex_capture;
use crate::command::AcquisitionError;
use crate::command::ActuationError;
use crate::command::CommandOutput;
use crate::command::Shell;
use crate::config::FanSpeed;
use crate::decimal::all_digits;
use crate::decimal::digits_value;
use crate::decimal::parse_decimal;
use crate::decimal::parse_milli;
use crate::decimal::read_digits;
use crate::render::append_hex_byte;
use crate::render::digit_char;
use crate::render::digit_str;
use crate::render::hex_byte_text;
use crate::sensor::parse_line;
use crate::sensor::Reading;
use crate::sensor::SensorResult;
use crate::text::chars_of;
use crate::text::contains;
use crate::text::copy_range;
use crate::text::first_word;
use crate::text::includes;
use crate::text::remove_all;
use crate::text::split;
use crate::text::split_bounds;
use crate::text::word_bounds;
use crate::text::without;

verus! {

/// Duty asked for when no step of the curve covers the temperature.
pub const FAILSAFE_DUTY: u8 = 100;

/// The duty that a curve assigns to a temperature: that of the first step, in
/// the order listed, whose range covers it, and the fail-safe duty when none does.
pub open spec fn curve_duty(temp: int, curve: Seq<FanSpeed>) -> int
    decreases curve.len(),
{
    if curve.len() == 0 {
        FAILSAFE_DUTY as int
    } else if curve[0].covers(temp) {
        curve[0].speed as int
    } else {
        curve_duty(temp, curve.drop_first())
    }
}

/// The first step that covers a temperature decides the duty, whatever later
/// steps say; overlapping steps are resolved in favour of the one listed first.
pub proof fn lemma_first_cover_wins(temp: int, curve: Seq<FanSpeed>, i: int)
    requires
        0 <= i < curve.len(),
        curve[i].covers(temp),
        forall|j: int| 0 <= j < i ==> !curve[j].covers(temp),
    ensures
        curve_duty(temp, curve) == curve[i].speed,
    decreases curve.len(),
{
    if i > 0 {
        let rest = curve.drop_first();
        assert(!curve[0].covers(temp));
        assert forall|j: int| 0 <= j < i - 1 implies !rest[j].covers(temp) by {
            assert(rest[j] == curve[j + 1]);
        }
        lemma_first_cover_wins(temp, rest, i - 1);
    }
}

/// A temperature that no step covers gets the fail-safe duty.
pub proof fn lemma_uncovered_is_failsafe(temp: int, curve: Seq<FanSpeed>)
    requires
        forall|j: int| 0 <= j < curve.len() ==> !curve[j].covers(temp),
    ensures
        curve_duty(temp, curve) == FAILSAFE_DUTY,
    decreases curve.len(),
{
    if curve.len() > 0 {
        let rest = curve.drop_first();
        assert(!curve[0].covers(temp));
        assert forall|j: int| 0 <= j < rest.len() implies !rest[j].covers(temp) by {
            assert(rest[j] == curve[j + 1]);
        }
        lemma_uncovered_is_failsafe(temp, rest);
    }
}

/// Every curve, empty or not, assigns every temperature a duty: either the
/// fail-safe duty or the duty of one of its steps that covers the temperature.
pub proof fn lemma_curve_duty_total(temp: int, curve: Seq<FanSpeed>)
    ensures
        0 <= curve_duty(temp, curve) <= 255,
        curve_duty(temp, curve) == FAILSAFE_DUTY || exists|i: int|
            0 <= i < curve.len() && curve[i].covers(temp) && curve_duty(temp, curve)
                == curve[i].speed,
    decreases curve.len(),
{
    if curve.len() > 0 && !curve[0].covers(temp) {
        let rest = curve.drop_first();
        lemma_curve_duty_total(temp, rest);
        if curve_duty(temp, rest) != FAILSAFE_DUTY {
            let i = choose|i: int|
                0 <= i < rest.len() && rest[i].covers(temp) && curve_duty(temp, rest)
                    == rest[i].speed;
            assert(rest[i] == curve[i + 1]);
        }
    }
}

/// Picks the duty cycle for a temperature, in thousandths of a degree, from
/// the curve: the duty of the first step that covers the temperature, and the
/// fail-safe duty where no step does. Any curve will do, one with gaps or
/// overlaps as well as the empty one.
pub fn get_fan_speed(temp: i64, fan_speeds: &[FanSpeed]) -> (duty: u8)
    ensures
        duty == curve_duty(temp as int, fan_speeds@),
        (forall|j: int| 0 <= j < fan_speeds@.len() ==> !fan_speeds@[j].covers(temp as int))
            ==> duty == FAILSAFE_DUTY,
        forall|i: int|
            0 <= i < fan_speeds@.len() && (#[trigger] fan_speeds@[i]).covers(temp as int) && (
            forall|j: int| 0 <= j < i ==> !fan_speeds@[j].covers(temp as int)) ==> duty
                == fan_speeds@[i].speed,
{
    let duty = scan_curve(temp, fan_speeds);
    proof {
        if forall|j: int| 0 <= j < fan_speeds@.len() ==> !fan_speeds@[j].covers(temp as int) {
            lemma_uncovered_is_failsafe(temp as int, fan_speeds@);
        }
        assert forall|i: int|
            0 <= i < fan_speeds@.len() && (#[trigger] fan_speeds@[i]).covers(temp as int) && (
            forall|j: int|
                0 <= j < i ==> !fan_speeds@[j].covers(temp as int)) implies curve_duty(
            temp as int,
            fan_speeds@,
        ) == fan_speeds@[i].speed by {
            lemma_first_cover_wins(temp as int, fan_speeds@, i);
        }
    }
    duty
}

/// Walks the curve to its first step that covers the temperature.
fn scan_curve(temp: i64, fan_speeds: &[FanSpeed]) -> (duty: u8)
    ensures
        duty == curve_duty(temp as int, fan_speeds@),
{
    let mut i: usize = 0;
    assert(fan_speeds@.skip(0) =~= fan_speeds@);
    while i < fan_speeds.len()
        invariant
            i <= fan_speeds.len(),
            curve_duty(temp as int, fan_speeds@) == curve_duty(
                temp as int,
                fan_speeds@.skip(i as int),
            ),
        decreases fan_speeds.len() - i,
    {
        let step = &fan_speeds[i];
        proof {
            let rest = fan_speeds@.skip(i as int);
            assert(rest[0] == fan_speeds@[i as int]);
            assert(rest.drop_first() =~= fan_speeds@.skip(i + 1));
        }
        if step.temp_range[0] <= temp && temp < step.temp_range[1] {
            return step.speed;
        }
        i = i + 1;
    }
    FAILSAFE_DUTY
}

/// The readings that a batch of rows holds, as mathematical values.
pub open spec fn readings_of(rows: Seq<SensorResult>) -> Seq<Reading> {
    rows.map_values(|r: SensorResult| r@)
}

/// The pattern that finds a processor and its socket number in a sensor's
/// name; the number is its second group.
pub open spec fn socket_pattern() -> Seq<char> {
    r"(?i)(CPU|Processor|Proc)[_ ]?(\d+)"@
}

/// Whether a name is that of a processor's own thermal sensor: it says
/// `Temp` and does not say `VR`, which marks a voltage regulator.
pub open spec fn is_socket_thermal(name: Seq<char>) -> bool {
    contains(name, "Temp"@) && !contains(name, "VR"@)
}

/// The socket number that a run of digits writes: none where the run is
/// empty, holds anything but ASCII digits, or writes a number too large to
/// count with.
pub open spec fn index_of_digits(digits: Seq<char>) -> Option<usize> {
    if digits.len() > 0 && all_digits(digits) && digits_value(digits) <= usize::MAX {
        Some(digits_value(digits) as usize)
    } else {
        None
    }
}

/// The socket that a sensor's name points at, if it points at one.
pub open spec fn socket_index(name: Seq<char>) -> Option<usize> {
    match regex_capture(socket_pattern(), name, 2) {
        Some(digits) => index_of_digits(digits),
        None => None,
    }
}

/// The sockets that a batch of readings reports on, in order: for each
/// processor thermal sensor whose name carries a socket number, that number
/// and the sensor's value.
pub open spec fn socket_entries(readings: Seq<Reading>) -> Seq<(usize, Option<i64>)>
    decreases readings.len(),
{
    if readings.len() == 0 {
        Seq::<(usize, Option<i64>)>::empty()
    } else {
        let before = socket_entries(readings.drop_last());
        let r = readings.last();
        if is_socket_thermal(r.name) && socket_index(r.name) is Some {
            before.push((socket_index(r.name)->0, r.value))
        } else {
            before
        }
    }
}

/// The fewest sockets that a board is taken to have.
pub const SOCKET_FLOOR: usize = 2;

/// Whether a socket's reading shows a running processor: a value above zero.
pub open spec fn is_active(value: Option<i64>) -> bool {
    value matches Some(v) && v > 0
}

/// The larger of two counts.
pub open spec fn larger(a: usize, b: usize) -> usize {
    if a >= b {
        a
    } else {
        b
    }
}

/// The counts after one more socket entry: the ceiling rises to the entry's
/// number, and so does the active count where the entry is active.
pub open spec fn tally_step(counts: (usize, usize), entry: (usize, Option<i64>)) -> (usize, usize) {
    (
        if is_active(entry.1) {
            larger(counts.0, entry.0)
        } else {
            counts.0
        },
        larger(counts.1, entry.0),
    )
}

/// The active-processor count and the socket ceiling of a run of socket
/// entries: the highest active socket number, zero where none is active, and
/// the highest socket number seen, never below the socket floor.
pub open spec fn tally(entries: Seq<(usize, Option<i64>)>) -> (usize, usize)
    decreases entries.len(),
{
    if entries.len() == 0 {
        (0, SOCKET_FLOOR)
    } else {
        tally_step(tally(entries.drop_last()), entries.last())
    }
}

/// The active count never exceeds the ceiling, and the ceiling never falls
/// below the socket floor. The ceiling bounds every socket number seen, the
/// active count bounds every active one, and each of the two is either its
/// starting value or the number of an entry that counts towards it.
pub proof fn lemma_tally_is_highest(entries: Seq<(usize, Option<i64>)>)
    ensures
        tally(entries).0 <= tally(entries).1,
        tally(entries).1 >= SOCKET_FLOOR,
        forall|i: int| 0 <= i < entries.len() ==> (#[trigger] entries[i]).0 <= tally(entries).1,
        forall|i: int|
            0 <= i < entries.len() && is_active((#[trigger] entries[i]).1) ==> entries[i].0
                <= tally(entries).0,
        tally(entries).1 == SOCKET_FLOOR || exists|i: int|
            0 <= i < entries.len() && (#[trigger] entries[i]).0 == tally(entries).1,
        tally(entries).0 == 0 || exists|i: int|
            0 <= i < entries.len() && is_active((#[trigger] entries[i]).1) && entries[i].0
                == tally(entries).0,
    decreases entries.len(),
{
    if entries.len() > 0 {
        let before = entries.drop_last();
        lemma_tally_is_highest(before);
        let last = entries.len() - 1;
        assert forall|i: int| 0 <= i < before.len() implies (#[trigger] before[i]) == entries[i] by {}
        assert forall|i: int| 0 <= i < entries.len() implies (#[trigger] entries[i]).0 <= tally(
            entries,
        ).1 by {
            if i < last {
                assert(before[i] == entries[i]);
            }
        }
        assert forall|i: int|
            0 <= i < entries.len() && is_active((#[trigger] entries[i]).1) implies entries[i].0
            <= tally(entries).0 by {
            if i < last {
                assert(before[i] == entries[i]);
            }
        }
        if tally(entries).1 != SOCKET_FLOOR {
            if tally(entries).1 == tally(before).1 {
                let i = choose|i: int|
                    0 <= i < before.len() && (#[trigger] before[i]).0 == tally(before).1;
                assert(entries[i] == before[i]);
            } else {
                assert(entries[last].0 == tally(entries).1);
            }
        }
        if tally(entries).0 != 0 {
            if tally(entries).0 == tally(before).0 {
                let i = choose|i: int|
                    0 <= i < before.len() && is_active((#[trigger] before[i]).1) && before[i].0
                        == tally(before).0;
                assert(entries[i] == before[i]);
            } else {
                assert(is_active(entries[last].1) && entries[last].0 == tally(entries).0);
            }
        }
    }
}

/// Reads a socket number from the digits that a sensor's name carries.
pub fn parse_index(digits: &str) -> (r: Option<usize>)
    ensures
        r == index_of_digits(digits@),
{
    let cs = chars_of(digits);
    if cs.len() == 0 {
        return None;
    }
    assert(cs@.subrange(0, cs@.len() as int) =~= cs@);
    match read_digits(&cs, 0, cs.len(), usize::MAX as u128) {
        Some(v) => Some(v as usize),
        None => None,
    }
}

/// Counts processors from the socket entries of one batch of readings:
/// returns the active count and the socket ceiling.
pub fn tally_sockets(entries: &Vec<(usize, Option<i64>)>) -> (counts: (usize, usize))
    ensures
        counts == tally(entries@),
{
    let mut num: usize = 0;
    let mut max_num: usize = SOCKET_FLOOR;
    let mut i: usize = 0;
    assert(entries@.take(0) =~= Seq::<(usize, Option<i64>)>::empty());
    while i < entries.len()
        invariant
            i <= entries.len(),
            (num, max_num) == tally(entries@.take(i as int)),
        decreases entries.len() - i,
    {
        let (id, value) = entries[i];
        proof {
            assert(entries@.take(i + 1).drop_last() =~= entries@.take(i as int));
            assert(entries@.take(i + 1).last() == entries@[i as int]);
        }
        if max_num < id {
            max_num = id;
        }
        match value {
            Some(v) => {
                if v > 0 && num < id {
                    num = id;
                }
            },
            None => {},
        }
        i = i + 1;
    }
    assert(entries@.take(entries@.len() as int) =~= entries@);
    (num, max_num)
}

/// Finds the socket that a sensor's name points at.
pub fn find_socket(name: &str) -> (r: Option<usize>)
    ensures
        r == socket_index(name@),
{
    match capture_group(r"(?i)(CPU|Processor|Proc)[_ ]?(\d+)", name, 2) {
        Some(digits) => parse_index(digits.as_str()),
        None => None,
    }
}

/// Tests whether a name is that of a processor's own thermal sensor.
pub fn names_socket_thermal(name: &str) -> (b: bool)
    ensures
        b == is_socket_thermal(name@),
{
    let cs = chars_of(name);
    let temp = chars_of("Temp");
    let vr = chars_of("VR");
    includes(&cs, &temp) && !includes(&cs, &vr)
}

/// Collects the socket entries of a batch of readings.
pub fn collect_sockets(sensor_results: &Vec<SensorResult>) -> (entries: Vec<(usize, Option<i64>)>)
    ensures
        entries@ == socket_entries(readings_of(sensor_results@)),
{
    let ghost readings = readings_of(sensor_results@);
    let mut entries: Vec<(usize, Option<i64>)> = Vec::new();
    let mut i: usize = 0;
    assert(readings.take(0) =~= Seq::<Reading>::empty());
    while i < sensor_results.len()
        invariant
            i <= sensor_results.len(),
            readings == readings_of(sensor_results@),
            entries@ == socket_entries(readings.take(i as int)),
        decreases sensor_results.len() - i,
    {
        let x = &sensor_results[i];
        proof {
            assert(readings.take(i + 1).drop_last() =~= readings.take(i as int));
            assert(readings.take(i + 1).last() == x@);
        }
        if names_socket_thermal(x.sensor_name.as_str()) {
            match find_socket(x.sensor_name.as_str()) {
                Some(id) => {
                    entries.push((id, x.value));
                },
                None => {},
            }
        }
        i = i + 1;
    }
    assert(readings.take(readings.len() as int) =~= readings);
    entries
}

/// Infers from a batch of readings how many processors run and how many
/// sockets the board has: returns the active count and the socket ceiling.
pub fn get_active_cpu_num(sensor_results: &Vec<SensorResult>) -> (counts: (usize, usize))
    ensures
        counts == tally(socket_entries(readings_of(sensor_results@))),
        counts.0 <= counts.1,
        counts.1 >= SOCKET_FLOOR,
{
    let entries = collect_sockets(sensor_results);
    proof {
        lemma_tally_is_highest(entries@);
    }
    tally_sockets(&entries)
}

/// Whether a name is that of a processor temperature sensor of any kind: it
/// says both `CPU` and `Temp`. Voltage-regulator sensors count here.
pub open spec fn is_cpu_thermal(name: Seq<char>) -> bool {
    contains(name, "CPU"@) && contains(name, "Temp"@)
}

/// Whether a reading counts towards the peak: it comes from a processor
/// temperature sensor and carries a value.
pub open spec fn is_candidate(r: Reading) -> bool {
    is_cpu_thermal(r.name) && r.value is Some
}

/// The highest value among the readings that count towards the peak, and
/// nothing where no reading counts.
pub open spec fn highest_candidate(readings: Seq<Reading>) -> Option<i64>
    decreases readings.len(),
{
    if readings.len() == 0 {
        None
    } else {
        let before = highest_candidate(readings.drop_last());
        let r = readings.last();
        if !is_candidate(r) {
            before
        } else if before is Some && before->0 >= r.value->0 {
            before
        } else {
            r.value
        }
    }
}

/// The peak processor temperature of a batch of readings, in thousandths of a
/// degree: the highest value among the processor temperature sensors that
/// carry one, be it below zero, and zero where none carries a value.
pub open spec fn peak_temperature(readings: Seq<Reading>) -> i64 {
    match highest_candidate(readings) {
        Some(peak) => peak,
        None => 0,
    }
}

/// Where some processor temperature reading carries a value, the peak is the
/// value of one of them and none of them exceeds it; where none carries a
/// value, the peak is zero.
pub proof fn lemma_peak_is_highest(readings: Seq<Reading>)
    ensures
        highest_candidate(readings) is Some <==> exists|i: int|
            0 <= i < readings.len() && is_candidate(#[trigger] readings[i]),
        forall|i: int|
            0 <= i < readings.len() && is_candidate(#[trigger] readings[i])
                ==> readings[i].value->0 <= peak_temperature(readings),
        (exists|i: int| 0 <= i < readings.len() && is_candidate(#[trigger] readings[i]))
            ==> exists|i: int|
            0 <= i < readings.len() && is_candidate(#[trigger] readings[i]) && readings[i].value
                == Some(peak_temperature(readings)),
        (forall|i: int| 0 <= i < readings.len() ==> !is_candidate(#[trigger] readings[i]))
            ==> peak_temperature(readings) == 0,
    decreases readings.len(),
{
    if readings.len() > 0 {
        let before = readings.drop_last();
        lemma_peak_is_highest(before);
        let last = readings.len() - 1;
        assert forall|i: int| 0 <= i < before.len() implies (#[trigger] before[i])
            == readings[i] by {}
        if highest_candidate(before) is Some {
            let i = choose|i: int|
                0 <= i < before.len() && is_candidate(#[trigger] before[i]) && before[i].value
                    == Some(peak_temperature(before));
            assert(readings[i] == before[i]);
            if highest_candidate(readings) == highest_candidate(before) {
                assert(is_candidate(readings[i]) && readings[i].value == Some(
                    peak_temperature(readings),
                ));
            }
        }
        if highest_candidate(readings) != highest_candidate(before) {
            assert(is_candidate(readings[last]) && readings[last].value == Some(
                peak_temperature(readings),
            ));
        }
        if exists|i: int| 0 <= i < readings.len() && is_candidate(#[trigger] readings[i]) {
            let i = choose|i: int| 0 <= i < readings.len() && is_candidate(#[trigger] readings[i]);
            if i < last {
                assert(is_candidate(before[i]));
            }
        }
        assert forall|i: int|
            0 <= i < readings.len() && is_candidate(
                #[trigger] readings[i],
            ) implies readings[i].value->0 <= peak_temperature(readings) by {
            if i < last {
                assert(before[i] == readings[i]);
            }
        }
    }
}

/// Tests whether a name says both of two markers.
fn says_both(name: &str, first: &str, second: &str) -> (b: bool)
    ensures
        b == (contains(name@, first@) && contains(name@, second@)),
{
    let cs = chars_of(name);
    let a = chars_of(first);
    let b = chars_of(second);
    includes(&cs, &a) && includes(&cs, &b)
}

/// Finds the peak processor temperature of a batch of readings, in
/// thousandths of a degree: the highest value that a processor temperature
/// sensor carries. A batch in which no such sensor carries a value, the empty
/// batch among them, gives zero.
pub fn get_max_temperature(sensor_results: &Vec<SensorResult>) -> (peak: i64)
    ensures
        peak == peak_temperature(readings_of(sensor_results@)),
        forall|i: int|
            0 <= i < sensor_results@.len() && is_candidate((#[trigger] sensor_results@[i])@)
                ==> sensor_results@[i].value->0 <= peak,
        (exists|i: int|
            0 <= i < sensor_results@.len() && is_candidate((#[trigger] sensor_results@[i])@))
            ==> exists|i: int|
            0 <= i < sensor_results@.len() && is_candidate((#[trigger] sensor_results@[i])@)
                && sensor_results@[i].value == Some(peak),
        (forall|i: int|
            0 <= i < sensor_results@.len() ==> !is_candidate((#[trigger] sensor_results@[i])@))
            ==> peak == 0,
{
    let highest = scan_candidates(sensor_results);
    proof {
        let readings = readings_of(sensor_results@);
        lemma_peak_is_highest(readings);
        assert forall|i: int| 0 <= i < sensor_results@.len() implies (
        #[trigger] sensor_results@[i])@ == readings[i] by {}
        if exists|i: int|
            0 <= i < sensor_results@.len() && is_candidate((#[trigger] sensor_results@[i])@) {
            let i = choose|i: int|
                0 <= i < sensor_results@.len() && is_candidate((#[trigger] sensor_results@[i])@);
            assert(is_candidate(readings[i]));
            let j = choose|j: int|
                0 <= j < readings.len() && is_candidate(#[trigger] readings[j])
                    && readings[j].value == Some(peak_temperature(readings));
            assert(is_candidate(sensor_results@[j]@));
        }
        if forall|i: int|
            0 <= i < sensor_results@.len() ==> !is_candidate((#[trigger] sensor_results@[i])@) {
            assert forall|i: int| 0 <= i < readings.len() implies !is_candidate(
                #[trigger] readings[i],
            ) by {
                assert(!is_candidate(sensor_results@[i]@));
            }
        }
    }
    match highest {
        Some(peak) => peak,
        None => 0,
    }
}

/// Walks a batch of readings and keeps the highest value that counts towards
/// the peak.
fn scan_candidates(sensor_results: &Vec<SensorResult>) -> (highest: Option<i64>)
    ensures
        highest == highest_candidate(readings_of(sensor_results@)),
{
    let ghost readings = readings_of(sensor_results@);
    let mut highest: Option<i64> = None;
    let mut i: usize = 0;
    assert(readings.take(0) =~= Seq::<Reading>::empty());
    while i < sensor_results.len()
        invariant
            i <= sensor_results.len(),
            readings == readings_of(sensor_results@),
            highest == highest_candidate(readings.take(i as int)),
        decreases sensor_results.len() - i,
    {
        let x = &sensor_results[i];
        proof {
            assert(readings.take(i + 1).drop_last() =~= readings.take(i as int));
            assert(readings.take(i + 1).last() == x@);
        }
        if says_both(x.sensor_name.as_str(), "CPU", "Temp") {
            match x.value {
                Some(v) => {
                    highest = match highest {
                        Some(before) => if before >= v {
                            Some(before)
                        } else {
                            Some(v)
                        },
                        None => Some(v),
                    };
                },
                None => {},
            }
        }
        i = i + 1;
    }
    assert(readings.take(readings.len() as int) =~= readings);
    highest
}

/// A list of labelled values, as mathematical values.
pub open spec fn labelled(items: Seq<(String, i64)>) -> Seq<(Seq<char>, i64)> {
    items.map_values(|p: (String, i64)| (p.0@, p.1))
}

/// A reading's value, with zero standing for an absent one.
pub open spec fn value_or_zero(value: Option<i64>) -> i64 {
    match value {
        Some(v) => v,
        None => 0,
    }
}

/// Whether a name is that of a fan-speed sensor: it says both `FAN` and
/// `Speed`.
pub open spec fn is_fan_speed(name: Seq<char>) -> bool {
    contains(name, "FAN"@) && contains(name, "Speed"@)
}

/// The label under which a fan is shown: its sensor's name without `FAN`
/// and, after that, without `_Speed`.
pub open spec fn fan_label(name: Seq<char>) -> Seq<char> {
    remove_all(remove_all(name, "FAN"@), "_Speed"@)
}

/// The fans of a batch of readings, in order, each with its label and its
/// speed, zero where the sensor gives none.
pub open spec fn fan_speeds(readings: Seq<Reading>) -> Seq<(Seq<char>, i64)>
    decreases readings.len(),
{
    if readings.len() == 0 {
        Seq::<(Seq<char>, i64)>::empty()
    } else {
        let before = fan_speeds(readings.drop_last());
        let r = readings.last();
        if is_fan_speed(r.name) {
            before.push((fan_label(r.name), value_or_zero(r.value)))
        } else {
            before
        }
    }
}

/// Lists the fans of a batch of readings with their speeds, in thousandths of
/// the sensor's unit.
pub fn get_fans_speed(sensor_results: &Vec<SensorResult>) -> (fans: Vec<(String, i64)>)
    ensures
        labelled(fans@) == fan_speeds(readings_of(sensor_results@)),
{
    let ghost readings = readings_of(sensor_results@);
    let mut fans: Vec<(String, i64)> = Vec::new();
    let mut i: usize = 0;
    assert(readings.take(0) =~= Seq::<Reading>::empty());
    assert(labelled(fans@) =~= Seq::<(Seq<char>, i64)>::empty());
    while i < sensor_results.len()
        invariant
            i <= sensor_results.len(),
            readings == readings_of(sensor_results@),
            labelled(fans@) == fan_speeds(readings.take(i as int)),
        decreases sensor_results.len() - i,
    {
        let x = &sensor_results[i];
        proof {
            assert(readings.take(i + 1).drop_last() =~= readings.take(i as int));
            assert(readings.take(i + 1).last() == x@);
        }
        if says_both(x.sensor_name.as_str(), "FAN", "Speed") {
            let speed: i64 = match x.value {
                Some(v) => v,
                None => 0,
            };
            let bare = without(x.sensor_name.as_str(), "FAN");
            let label = without(bare.as_str(), "_Speed");
            let ghost before = fans@;
            fans.push((label, speed));
            assert(labelled(fans@) =~= labelled(before).push((fan_label(x@.name), speed)));
        }
        i = i + 1;
    }
    assert(readings.take(readings.len() as int) =~= readings);
    fans
}

/// Whether a name is that of a power sensor: it says `Power` or `Watt`.
pub open spec fn is_power(name: Seq<char>) -> bool {
    contains(name, "Power"@) || contains(name, "Watt"@)
}

/// The power sensors of a batch of readings, in order, each with its name
/// and its value, zero where the sensor gives none.
pub open spec fn power_readings(readings: Seq<Reading>) -> Seq<(Seq<char>, i64)>
    decreases readings.len(),
{
    if readings.len() == 0 {
        Seq::<(Seq<char>, i64)>::empty()
    } else {
        let before = power_readings(readings.drop_last());
        let r = readings.last();
        if is_power(r.name) {
            before.push((r.name, value_or_zero(r.value)))
        } else {
            before
        }
    }
}

/// Lists the power sensors of a batch of readings with their values, in
/// thousandths of a watt.
pub fn get_power(sensor_results: &Vec<SensorResult>) -> (powers: Vec<(String, i64)>)
    ensures
        labelled(powers@) == power_readings(readings_of(sensor_results@)),
{
    let ghost readings = readings_of(sensor_results@);
    let power = chars_of("Power");
    let watt = chars_of("Watt");
    let mut powers: Vec<(String, i64)> = Vec::new();
    let mut i: usize = 0;
    assert(readings.take(0) =~= Seq::<Reading>::empty());
    assert(labelled(powers@) =~= Seq::<(Seq<char>, i64)>::empty());
    while i < sensor_results.len()
        invariant
            i <= sensor_results.len(),
            readings == readings_of(sensor_results@),
            power@ == "Power"@,
            watt@ == "Watt"@,
            labelled(powers@) == power_readings(readings.take(i as int)),
        decreases sensor_results.len() - i,
    {
        let x = &sensor_results[i];
        proof {
            assert(readings.take(i + 1).drop_last() =~= readings.take(i as int));
            assert(readings.take(i + 1).last() == x@);
        }
        let name = chars_of(x.sensor_name.as_str());
        if includes(&name, &power) || includes(&name, &watt) {
            let watts: i64 = match x.value {
                Some(v) => v,
                None => 0,
            };
            let ghost before = powers@;
            powers.push((x.sensor_name.clone(), watts));
            assert(labelled(powers@) =~= labelled(before).push((x@.name, watts)));
        }
        i = i + 1;
    }
    assert(readings.take(readings.len() as int) =~= readings);
    powers
}

/// What one batch of readings says of the machine. Temperatures, speeds and
/// watts are whole thousandths of their unit.
#[derive(Debug)]
pub struct TelemetrySnapshot {
    /// The highest socket whose processor runs; zero where none does.
    pub active_cpu_count: usize,
    /// The highest socket seen, never below two.
    pub socket_ceiling: usize,
    /// The highest processor temperature read; zero where none was read.
    pub peak_cpu_temp: i64,
    /// Each fan with its speed.
    pub fan_speeds: Vec<(String, i64)>,
    /// Each power sensor with its value.
    pub power_readings: Vec<(String, i64)>,
}

impl TelemetrySnapshot {
    /// A snapshot is sound where it counts no more running processors than
    /// sockets and no fewer than two sockets.
    pub open spec fn wf(self) -> bool {
        &&& self.active_cpu_count <= self.socket_ceiling
        &&& self.socket_ceiling >= SOCKET_FLOOR
    }

    /// Whether the snapshot is the one that `readings` give.
    pub open spec fn is_of(self, readings: Seq<Reading>) -> bool {
        &&& (self.active_cpu_count, self.socket_ceiling) == tally(socket_entries(readings))
        &&& self.peak_cpu_temp == peak_temperature(readings)
        &&& labelled(self.fan_speeds@) == fan_speeds(readings)
        &&& labelled(self.power_readings@) == power_readings(readings)
    }

    /// Takes the snapshot of a batch of readings. Every batch has one, the
    /// empty batch too.
    pub fn of(sensor_results: &Vec<SensorResult>) -> (snapshot: Self)
        ensures
            snapshot.is_of(readings_of(sensor_results@)),
            snapshot.wf(),
    {
        let (active_cpu_count, socket_ceiling) = get_active_cpu_num(sensor_results);
        TelemetrySnapshot {
            active_cpu_count,
            socket_ceiling,
            peak_cpu_temp: get_max_temperature(sensor_results),
            fan_speeds: get_fans_speed(sensor_results),
            power_readings: get_power(sensor_results),
        }
    }
}

/// Reads the temperature at the start of a text such as `34.000 degrees C`:
/// its first word as thousandths of a degree, and nothing where that word is
/// no number.
pub fn extract_temperature(temp_str: &str) -> (r: Option<i64>)
    ensures
        r == parse_milli(first_word(temp_str@)),
{
    let cs = chars_of(temp_str);
    let (from, to) = word_bounds(&cs);
    let word = copy_range(&cs, from, to);
    parse_decimal(&word)
}

/// The command line that asks the management tool for its sensor table.
pub open spec fn sensor_command_text(tool: Seq<char>) -> Seq<char> {
    tool + " sensor"@
}

/// Builds the command line that asks the management tool for its sensor
/// table.
pub fn sensor_command(ipmi_tool_cmd: &str) -> (cmd: String)
    ensures
        cmd@ == sensor_command_text(ipmi_tool_cmd@),
{
    let mut cmd = ipmi_tool_cmd.to_owned();
    cmd.append(" sensor");
    cmd
}

/// The readings that a run of lines holds, in order. A line that is no full
/// sensor row adds nothing.
pub open spec fn readings_in(lines: Seq<Seq<char>>) -> Seq<Reading>
    decreases lines.len(),
{
    if lines.len() == 0 {
        Seq::<Reading>::empty()
    } else {
        let before = readings_in(lines.drop_last());
        match parse_line(lines.last()) {
            Some(reading) => before.push(reading),
            None => before,
        }
    }
}

/// The readings of a sensor table given as text, one row to a line.
pub open spec fn table_readings(table: Seq<char>) -> Seq<Reading> {
    readings_in(split(table, '\n'))
}

/// A line with fewer than ten fields leaves the readings as they were.
pub proof fn lemma_short_line_adds_nothing(lines: Seq<Seq<char>>, line: Seq<char>)
    requires
        split(line, '|').len() < 10,
    ensures
        readings_in(lines.push(line)) == readings_in(lines),
{
    assert(lines.push(line).drop_last() =~= lines);
}

/// Reads a sensor table: every line that is a full sensor row, in order.
pub fn parse_table(table: &str) -> (rows: Vec<SensorResult>)
    ensures
        readings_of(rows@) == table_readings(table@),
{
    let cs = chars_of(table);
    let lines = split_bounds(&cs, '\n');
    let ghost texts = split(table@, '\n');
    let mut rows: Vec<SensorResult> = Vec::new();
    let mut i: usize = 0;
    assert(texts.take(0) =~= Seq::<Seq<char>>::empty());
    assert(readings_of(rows@) =~= Seq::<Reading>::empty());
    while i < lines.len()
        invariant
            i <= lines.len(),
            cs@ == table@,
            texts == split(table@, '\n'),
            lines@.len() == texts.len(),
            forall|k: int|
                0 <= k < lines@.len() ==> ({
                    &&& (#[trigger] lines@[k]).0 <= lines@[k].1 <= cs@.len()
                    &&& cs@.subrange(lines@[k].0 as int, lines@[k].1 as int) == texts[k]
                }),
            readings_of(rows@) == readings_in(texts.take(i as int)),
        decreases lines.len() - i,
    {
        let (from, to) = lines[i];
        proof {
            assert(texts.take(i + 1).drop_last() =~= texts.take(i as int));
            assert(texts.take(i + 1).last() == texts[i as int]);
        }
        match SensorResult::from_line(table.substring_char(from, to)) {
            Ok(row) => {
                let ghost before = rows@;
                rows.push(row);
                assert(readings_of(rows@) =~= readings_of(before).push(row@));
            },
            Err(_) => {},
        }
        i = i + 1;
    }
    assert(texts.take(texts.len() as int) =~= texts);
    rows
}

/// Turns a finished run of the sensor command into readings. A run that did
/// not succeed is an error that names the command and carries what the run
/// wrote to its error stream; a run that succeeded always gives readings, and
/// lines that are no sensor rows are passed over.
pub fn get_all_sensor_data(ipmi_tool_cmd: &str, output: &CommandOutput) -> (r: Result<
    Vec<SensorResult>,
    AcquisitionError,
>)
    ensures
        r is Ok <==> output.succeeded(),
        r matches Ok(rows) ==> readings_of(rows@) == table_readings(output.stdout@),
        r matches Err(e) ==> e.command@ == sensor_command_text(ipmi_tool_cmd@) && e.exit_status
            == output.status && e.stderr@ == output.stderr@,
{
    if !output.success() {
        return Err(
            AcquisitionError {
                command: sensor_command(ipmi_tool_cmd),
                exit_status: output.status,
                stderr: output.stderr.clone(),
            },
        );
    }
    Ok(parse_table(output.stdout.as_str()))
}

/// What the actuation step remembers from one cycle to the next: whether the
/// fan zone of the second socket has been turned down. It starts out false, is
/// set the first time fans are set for a single running processor, and is
/// never cleared.
#[derive(Debug, Clone, Copy, PartialEq, Eq)]
pub struct ActuationState {
    pub secondary_fan_zone_disabled: bool,
}

impl ActuationState {
    /// The state at start-up: nothing has been turned down yet.
    pub fn new() -> (state: Self)
        ensures
            !state.secondary_fan_zone_disabled,
    {
        ActuationState { secondary_fan_zone_disabled: false }
    }
}

/// One duty command to the management controller: set the fan slot `slot` to
/// `duty` percent.
#[derive(Debug, Clone, Copy, PartialEq, Eq)]
pub struct FanCommand {
    pub slot: u8,
    pub duty: u8,
}

/// The highest fan slot that the controller knows.
pub const LAST_SLOT: u8 = 6;

/// The duty to which the fans of an empty socket are turned down.
pub const LOW_DUTY: u8 = 2;

impl FanCommand {
    /// A command is well formed where its slot is one that the controller
    /// knows.
    pub open spec fn wf(self) -> bool {
        self.slot <= LAST_SLOT
    }
}

/// The commands that set the fans for one cycle. With exactly one processor
/// running: the three slots of the first socket at `duty`, and, unless the
/// second socket's zone is already turned down, its three slots at the low
/// duty. Otherwise: the one slot that stands for all fans at `duty`.
pub open spec fn planned_commands(duty: u8, cpu_num: usize, state: ActuationState) -> Seq<
    FanCommand,
> {
    if cpu_num == 1 {
        let primary = seq![
            FanCommand { slot: 1, duty },
            FanCommand { slot: 2, duty },
            FanCommand { slot: 3, duty },
        ];
        if state.secondary_fan_zone_disabled {
            primary
        } else {
            primary + seq![
                FanCommand { slot: 4, duty: LOW_DUTY },
                FanCommand { slot: 5, duty: LOW_DUTY },
                FanCommand { slot: 6, duty: LOW_DUTY },
            ]
        }
    } else {
        seq![FanCommand { slot: 0, duty }]
    }
}

/// The state after the fans were set for `cpu_num` running processors: a
/// single processor sets the flag, nothing clears it.
pub open spec fn state_after(cpu_num: usize, state: ActuationState) -> ActuationState {
    ActuationState {
        secondary_fan_zone_disabled: state.secondary_fan_zone_disabled || cpu_num == 1,
    }
}

/// The first time that fans are set for a single processor takes six
/// commands and sets the flag; every later time takes three, whatever was
/// asked for in between.
pub proof fn lemma_secondary_zone_disabled_once(
    duty: u8,
    state: ActuationState,
    later_duty: u8,
    later: ActuationState,
)
    requires
        !state.secondary_fan_zone_disabled,
        later.secondary_fan_zone_disabled,
    ensures
        planned_commands(duty, 1, state).len() == 6,
        state_after(1, state).secondary_fan_zone_disabled,
        planned_commands(later_duty, 1, state_after(1, state)).len() == 3,
        planned_commands(later_duty, 1, later).len() == 3,
        state_after(1, later) == later,
{
}

/// With any number of running processors but one, setting the fans takes one
/// command and leaves the state as it was.
pub proof fn lemma_full_board_takes_one_command(duty: u8, cpu_num: usize, state: ActuationState)
    requires
        cpu_num != 1,
    ensures
        planned_commands(duty, cpu_num, state).len() == 1,
        planned_commands(duty, cpu_num, state)[0] == (FanCommand { slot: 0, duty }),
        state_after(cpu_num, state) == state,
{
}

/// Once set, the flag stays set whatever is asked for.
pub proof fn lemma_flag_is_never_cleared(cpu_num: usize, state: ActuationState)
    requires
        state.secondary_fan_zone_disabled,
    ensures
        state_after(cpu_num, state) == state,
{
}

/// Plans the commands that set the fans for one cycle, and notes in `state`
/// that the second socket's zone has been turned down where they do so.
pub fn plan_fan_speed(speed: u8, cpu_num: usize, state: &mut ActuationState) -> (commands: Vec<
    FanCommand,
>)
    ensures
        commands@ == planned_commands(speed, cpu_num, *old(state)),
        *final(state) == state_after(cpu_num, *old(state)),
        forall|i: int| 0 <= i < commands@.len() ==> (#[trigger] commands@[i]).wf(),
        cpu_num != 1 ==> commands@.len() == 1 && *final(state) == *old(state),
        cpu_num == 1 ==> final(state).secondary_fan_zone_disabled && commands@.len() == (if old(
            state,
        ).secondary_fan_zone_disabled {
            3int
        } else {
            6int
        }),
{
    let mut commands: Vec<FanCommand> = Vec::new();
    if cpu_num == 1 {
        commands.push(FanCommand { slot: 1, duty: speed });
        commands.push(FanCommand { slot: 2, duty: speed });
        commands.push(FanCommand { slot: 3, duty: speed });
        if !state.secondary_fan_zone_disabled {
            commands.push(FanCommand { slot: 4, duty: LOW_DUTY });
            commands.push(FanCommand { slot: 5, duty: LOW_DUTY });
            commands.push(FanCommand { slot: 6, duty: LOW_DUTY });
            state.secondary_fan_zone_disabled = true;
        }
    } else {
        commands.push(FanCommand { slot: 0, duty: speed });
    }
    assert(commands@ =~= planned_commands(speed, cpu_num, *old(state)));
    commands
}

/// One command as the management tool takes it: the tool, the raw request
/// that sets a duty, the slot as two digits, and the duty as a hexadecimal
/// byte.
pub open spec fn clause_text(tool: Seq<char>, command: FanCommand) -> Seq<char> {
    tool + " raw 0x2e 0x30 00 0"@ + seq![digit_char(command.slot as int)] + " "@ + hex_byte_text(
        command.duty,
    )
}

/// The commands of one cycle as one line for the shell: the clauses in
/// order, with the shell's separator and a blank between neighbours.
pub open spec fn command_line(tool: Seq<char>, commands: Seq<FanCommand>, shell: Shell) -> Seq<
    char,
>
    decreases commands.len(),
{
    if commands.len() == 0 {
        Seq::<char>::empty()
    } else if commands.len() == 1 {
        clause_text(tool, commands[0])
    } else {
        command_line(tool, commands.drop_last(), shell) + shell.separator_text() + " "@
            + clause_text(tool, commands.last())
    }
}

/// Writes the commands of one cycle as one line for the shell.
pub fn render_commands(ipmi_tool_cmd: &str, commands: &Vec<FanCommand>, shell: Shell) -> (line:
    String)
    requires
        forall|i: int| 0 <= i < commands@.len() ==> (#[trigger] commands@[i]).wf(),
    ensures
        line@ == command_line(ipmi_tool_cmd@, commands@, shell),
{
    let mut line = String::new();
    let mut i: usize = 0;
    assert(commands@.take(0) =~= Seq::<FanCommand>::empty());
    while i < commands.len()
        invariant
            i <= commands.len(),
            forall|k: int| 0 <= k < commands@.len() ==> (#[trigger] commands@[k]).wf(),
            line@ == command_line(ipmi_tool_cmd@, commands@.take(i as int), shell),
        decreases commands.len() - i,
    {
        let command = commands[i];
        let ghost before = line@;
        proof {
            assert(commands@.take(i + 1).drop_last() =~= commands@.take(i as int));
            assert(commands@.take(i + 1).last() == command);
            assert(commands@[i as int].wf());
        }
        if i > 0 {
            line.append(shell.separator());
            line.append(" ");
        }
        line.append(ipmi_tool_cmd);
        line.append(" raw 0x2e 0x30 00 0");
        line.append(digit_str(command.slot));
        line.append(" ");
        append_hex_byte(&mut line, command.duty);
        proof {
            if i > 0 {
                assert(line@ =~= before + shell.separator_text() + " "@ + clause_text(
                    ipmi_tool_cmd@,
                    command,
                ));
            } else {
                assert(line@ =~= clause_text(ipmi_tool_cmd@, command));
            }
        }
        i = i + 1;
    }
    assert(commands@.take(commands@.len() as int) =~= commands@);
    line
}

/// Builds the command line that sets the fans to `speed` percent for
/// `cpu_num` running processors, and notes in `state` that the second
/// socket's zone has been turned down where the line does so. The caller runs
/// the line and hands what came of it to `check_fan_speed`.
pub fn set_fan_speed(
    speed: u8,
    ipmi_tool_cmd: &str,
    cpu_num: usize,
    state: &mut ActuationState,
    shell: Shell,
) -> (line: String)
    ensures
        line@ == command_line(
            ipmi_tool_cmd@,
            planned_commands(speed, cpu_num, *old(state)),
            shell,
        ),
        *final(state) == state_after(cpu_num, *old(state)),
{
    let commands = plan_fan_speed(speed, cpu_num, state);
    render_commands(ipmi_tool_cmd, &commands, shell)
}

/// Judges a finished run of a fan command line: it succeeded where it ended
/// with exit status zero, and is otherwise an error that names the line and
/// carries what the run wrote to its error stream.
pub fn check_fan_speed(line: &str, output: &CommandOutput) -> (r: Result<(), ActuationError>)
    ensures
        r is Ok <==> output.succeeded(),
        r matches Err(e) ==> e.command@ == line@ && e.exit_status == output.status && e.stderr@
            == output.stderr@,
{
    if output.success() {
        Ok(())
    } else {
        Err(
            ActuationError {
                command: line.to_owned(),
                exit_status: output.status,
                stderr: output.stderr.clone(),
            },
        )
    }
}

} // verus!
