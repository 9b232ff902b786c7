//! Cooke /i lens metadata recorded as YAML: the records between blank
//! lines, their kinds, and the clock that their timestamps and timecodes
//! drive.

use vstd::prelude::*;
use crate::text::{str_chars, str_eq, string_from_chars, trim_chars, trimmed};

verus! {

/// The kind of a record of a Cooke YAML file, by its `RecordType`.
#[derive(Clone, Copy, Debug, PartialEq, Eq, Structural)]
pub enum YamlRecord {
    LensInfo,
    LensShading,
    LensDistortion,
    CalAccelerometer,
    CalGyro,
    CalMagnetometer,
    Accelerometer,
    Gyro,
    Magnetometer,
    General,
    RecorderInfo,
}

/// The kind that a `RecordType` names; `None` for any other.
pub open spec fn record_of(rtype: Seq<char>) -> Option<YamlRecord> {
    if rtype == "rt.header.lens.info"@ {
        Some(YamlRecord::LensInfo)
    } else if rtype == "rt.header.lens.shading"@ {
        Some(YamlRecord::LensShading)
    } else if rtype == "rt.header.lens.distortion"@ {
        Some(YamlRecord::LensDistortion)
    } else if rtype == "rt.header.lens.cal.accelerometer"@ {
        Some(YamlRecord::CalAccelerometer)
    } else if rtype == "rt.header.lens.cal.gyro"@ {
        Some(YamlRecord::CalGyro)
    } else if rtype == "rt.header.lens.cal.magnetometer"@ {
        Some(YamlRecord::CalMagnetometer)
    } else if rtype == "rt.temporal.lens.accelerometer.raw"@ {
        Some(YamlRecord::Accelerometer)
    } else if rtype == "rt.temporal.lens.gyro.raw"@ {
        Some(YamlRecord::Gyro)
    } else if rtype == "rt.temporal.lens.magnetometer.raw"@ {
        Some(YamlRecord::Magnetometer)
    } else if rtype == "rt.temporal.lens.general"@ {
        Some(YamlRecord::General)
    } else if rtype == "rt.header.recorder.info"@ {
        Some(YamlRecord::RecorderInfo)
    } else {
        None
    }
}

/// The timestamp slot of a record kind: 0 to 3 for the temporal records
/// (accelerometer, gyro, magnetometer, general), 4 for the others.
pub open spec fn slot_of(k: YamlRecord) -> int {
    match k {
        YamlRecord::Accelerometer => 0,
        YamlRecord::Gyro => 1,
        YamlRecord::Magnetometer => 2,
        YamlRecord::General => 3,
        _ => 4,
    }
}

/// The wrap-around amount of a slot's raw timestamp: 65535 where `ts`
/// fell below the slot's previous one.
pub open spec fn wrap(prev: int, ts: int) -> int {
    if prev > ts {
        65535
    } else {
        0
    }
}

/// Whether advancing the running timestamp `total` by the raw timestamp
/// `ts` after `prev` (first `ts` plus the wrap, then minus `prev`, then
/// added) stays within `i64`.
pub open spec fn advance_fits(total: int, prev: int, ts: int) -> bool {
    let a = ts + wrap(prev, ts);
    let b = a - prev;
    i64::MIN <= a <= i64::MAX && i64::MIN <= b <= i64::MAX && i64::MIN <= total + b <= i64::MAX
}

/// The clock of the temporal records of a Cooke YAML file: per slot a
/// running timestamp, the last raw timestamp, and the running timestamp
/// as the previous record left it; and the previous record's timecode.
pub struct YamlClock {
    pub timestamp: [i64; 4],
    pub prev_timestamp: [i64; 4],
    pub prev_absolute: [i64; 4],
    pub last_timecode: Option<(i64, i64, i64, i64)>,
}

/// What a record leads to: its kind, for a temporal record the span of
/// running timestamps that its values fill (the previous record's and
/// this one's), and whether the samples gathered so far end here.
#[derive(Clone, Copy, Debug, PartialEq, Eq)]
pub struct YamlStep {
    pub record: YamlRecord,
    pub window: Option<(i64, i64)>,
    pub new_sample: bool,
}

/// Whether a record whose type, raw timestamp and timecode are `rtype`,
/// `ts` and `tc` is one that is read: a known type, and a raw timestamp
/// only on a temporal record, advancing within `i64`.
pub open spec fn step_ok(c: YamlClock, rtype: Option<Seq<char>>, ts: Option<i64>) -> bool {
    match rtype {
        None => false,
        Some(r) => match record_of(r) {
            None => false,
            Some(k) => match ts {
                None => true,
                Some(t) => slot_of(k) < 4 && advance_fits(
                    c.timestamp@[slot_of(k)] as int,
                    c.prev_timestamp@[slot_of(k)] as int,
                    t as int,
                ),
            },
        },
    }
}

/// The view of an optional text.
pub open spec fn opt_str(o: Option<&str>) -> Option<Seq<char>> {
    match o {
        Some(s) => Some(s@),
        None => None,
    }
}

/// The kind that a `RecordType` names (see `record_of`).
pub fn yaml_record(rtype: &str) -> (r: Option<YamlRecord>)
    ensures
        r == record_of(rtype@),
{
    if str_eq(rtype, "rt.header.lens.info") {
        Some(YamlRecord::LensInfo)
    } else if str_eq(rtype, "rt.header.lens.shading") {
        Some(YamlRecord::LensShading)
    } else if str_eq(rtype, "rt.header.lens.distortion") {
        Some(YamlRecord::LensDistortion)
    } else if str_eq(rtype, "rt.header.lens.cal.accelerometer") {
        Some(YamlRecord::CalAccelerometer)
    } else if str_eq(rtype, "rt.header.lens.cal.gyro") {
        Some(YamlRecord::CalGyro)
    } else if str_eq(rtype, "rt.header.lens.cal.magnetometer") {
        Some(YamlRecord::CalMagnetometer)
    } else if str_eq(rtype, "rt.temporal.lens.accelerometer.raw") {
        Some(YamlRecord::Accelerometer)
    } else if str_eq(rtype, "rt.temporal.lens.gyro.raw") {
        Some(YamlRecord::Gyro)
    } else if str_eq(rtype, "rt.temporal.lens.magnetometer.raw") {
        Some(YamlRecord::Magnetometer)
    } else if str_eq(rtype, "rt.temporal.lens.general") {
        Some(YamlRecord::General)
    } else if str_eq(rtype, "rt.header.recorder.info") {
        Some(YamlRecord::RecorderInfo)
    } else {
        None
    }
}

/// Whether two timecodes are equal.
fn timecode_eq(a: Option<(i64, i64, i64, i64)>, b: Option<(i64, i64, i64, i64)>) -> (r: bool)
    ensures
        r == (a == b),
{
    match (a, b) {
        (None, None) => true,
        (Some(x), Some(y)) => x.0 == y.0 && x.1 == y.1 && x.2 == y.2 && x.3 == y.3,
        _ => false,
    }
}

impl YamlClock {
    /// A clock before the first record.
    pub fn new() -> (c: YamlClock)
        ensures
            c.timestamp@ == seq![0i64, 0, 0, 0],
            c.prev_timestamp@ == seq![0i64, 0, 0, 0],
            c.prev_absolute@ == seq![0i64, 0, 0, 0],
            c.last_timecode is None,
    {
        YamlClock { timestamp: [0, 0, 0, 0], prev_timestamp: [0, 0, 0, 0], prev_absolute: [0, 0, 0, 0], last_timecode: None }
    }

    /// Takes a record: its type, raw timestamp and timecode. `None`, with
    /// the clock unchanged, for a record that is not read (see `step_ok`).
    #[verifier::rlimit(40)]
    pub fn step(&mut self, rtype: Option<&str>, ts: Option<i64>, tc: Option<(i64, i64, i64, i64)>) -> (r: Option<YamlStep>)
        ensures
            r is Some <==> step_ok(*old(self), opt_str(rtype), ts),
            r is None ==> *final(self) == *old(self),
            r matches Some(st) ==> {
                let k = record_of(opt_str(rtype)->Some_0)->Some_0;
                let s = slot_of(k);
                &&& st.record == k
                &&& st.new_sample == (old(self).last_timecode != tc)
                &&& final(self).timestamp@ == match ts {
                    Some(t) => old(self).timestamp@.update(
                        s,
                        (old(self).timestamp@[s] + (t + wrap(old(self).prev_timestamp@[s] as int, t as int)
                            - old(self).prev_timestamp@[s])) as i64,
                    ),
                    None => old(self).timestamp@,
                }
                &&& final(self).prev_timestamp@ == match ts {
                    Some(t) => old(self).prev_timestamp@.update(s, t),
                    None => old(self).prev_timestamp@,
                }
                &&& final(self).prev_absolute@ == final(self).timestamp@
                &&& final(self).last_timecode == tc
                &&& st.window == if s < 4 {
                    Some((old(self).prev_absolute@[s], final(self).timestamp@[s]))
                } else {
                    None::<(i64, i64)>
                }
            },
    {
        let k = match rtype {
            None => {
                return None;
            },
            Some(r) => match yaml_record(r) {
                None => {
                    return None;
                },
                Some(k) => k,
            },
        };
        let slot: usize = match k {
            YamlRecord::Accelerometer => 0,
            YamlRecord::Gyro => 1,
            YamlRecord::Magnetometer => 2,
            YamlRecord::General => 3,
            _ => 4,
        };
        let new_sample = !timecode_eq(self.last_timecode, tc);
        if let Some(t) = ts {
            if slot >= 4 {
                return None;
            }
            let total = self.timestamp[slot];
            let prev = self.prev_timestamp[slot];
            let w: i64 = if prev > t {
                65535
            } else {
                0
            };
            let a = match t.checked_add(w) {
                Some(a) => a,
                None => {
                    return None;
                },
            };
            let b = match a.checked_sub(prev) {
                Some(b) => b,
                None => {
                    return None;
                },
            };
            let n = match total.checked_add(b) {
                Some(n) => n,
                None => {
                    return None;
                },
            };
            self.timestamp[slot] = n;
            self.prev_timestamp[slot] = t;
        }
        let window = if slot < 4 {
            Some((self.prev_absolute[slot], self.timestamp[slot]))
        } else {
            None
        };
        self.prev_absolute = self.timestamp;
        self.last_timecode = tc;
        Some(YamlStep { record: k, window, new_sample })
    }
}

/// The pieces of `s` between blank lines (`\n\n`), scanning from `i` with
/// the current piece begun at `start`.
pub open spec fn pieces(s: Seq<char>, start: int, i: int) -> Seq<Seq<char>>
    decreases s.len() - i,
{
    if i < start || start > s.len() || i + 2 > s.len() {
        seq![s.subrange(start, s.len() as int)]
    } else if s[i] == '\n' && s[i + 1] == '\n' {
        seq![s.subrange(start, i)] + pieces(s, i + 2, i + 2)
    } else {
        pieces(s, start, i + 1)
    }
}

/// The pieces of `ps` that hold more than white space.
pub open spec fn non_blank(ps: Seq<Seq<char>>) -> Seq<Seq<char>> {
    ps.filter(|p: Seq<char>| trimmed(p).len() > 0)
}

/// The records of a Cooke YAML file: its pieces between blank lines that
/// hold more than white space.
pub fn yaml_chunks(s: &str) -> (r: Vec<String>)
    ensures
        r@.map_values(|x: String| x@) == non_blank(pieces(s@, 0, 0)),
{
    let c = str_chars(s);
    let mut out: Vec<String> = Vec::new();
    let mut start: usize = 0;
    let mut i: usize = 0;
    let ghost all = pieces(s@, 0, 0);
    proof {
        assert(out@.map_values(|x: String| x@) =~= Seq::<Seq<char>>::empty());
        assert(non_blank(Seq::<Seq<char>>::empty()) =~= Seq::<Seq<char>>::empty());
    }
    while c.len() >= 2 && i <= c.len() - 2
        invariant
            c@ == s@,
            start <= i <= c.len(),
            non_blank(all) == out@.map_values(|x: String| x@) + non_blank(pieces(s@, start as int, i as int)),
            all == pieces(s@, 0, 0),
        decreases c.len() - i,
    {
        if c[i] == '\n' && c[i + 1] == '\n' {
            let piece = &c.as_slice()[start..i];
            assert(piece@ =~= s@.subrange(start as int, i as int));
            let ghost rest = pieces(s@, i + 2, i + 2);
            proof {
                let one = seq![piece@];
                assert(pieces(s@, start as int, i as int) == one + rest);
                assert(non_blank(one + rest) =~= non_blank(one) + non_blank(rest)) by {
                    Seq::filter_distributes_over_add(one, rest, |p: Seq<char>| trimmed(p).len() > 0);
                }
            }
            let t = trim_chars(piece);
            let ghost before = out@.map_values(|x: String| x@);
            if t.len() > 0 {
                let p = string_from_chars(piece);
                out.push(p);
                assert(out@.map_values(|x: String| x@) =~= before.push(piece@));
                assert(non_blank(seq![piece@]) =~= seq![piece@]) by {
                    reveal_with_fuel(Seq::filter, 2);
                }
            } else {
                assert(non_blank(seq![piece@]) =~= Seq::<Seq<char>>::empty()) by {
                    reveal_with_fuel(Seq::filter, 2);
                }
            }
            assert(non_blank(all) == out@.map_values(|x: String| x@) + non_blank(rest));
            i = i + 2;
            start = i;
        } else {
            i = i + 1;
        }
    }
    let piece = &c.as_slice()[start..c.len()];
    assert(piece@ =~= s@.subrange(start as int, s@.len() as int));
    assert(pieces(s@, start as int, i as int) == seq![piece@]);
    let t = trim_chars(piece);
    let ghost before = out@.map_values(|x: String| x@);
    if t.len() > 0 {
        let p = string_from_chars(piece);
        out.push(p);
        assert(out@.map_values(|x: String| x@) =~= before.push(piece@));
        assert(non_blank(seq![piece@]) =~= seq![piece@]) by {
            reveal_with_fuel(Seq::filter, 2);
        }
        assert(before + seq![piece@] =~= before.push(piece@));
    } else {
        assert(non_blank(seq![piece@]) =~= Seq::<Seq<char>>::empty()) by {
            reveal_with_fuel(Seq::filter, 2);
        }
        assert(before + Seq::<Seq<char>>::empty() =~= before);
    }
    out
}

/// The state of a clock as sequences.
pub struct ClockView {
    pub ts: Seq<i64>,
    pub prev: Seq<i64>,
    pub abs: Seq<i64>,
    pub tc: Option<(i64, i64, i64, i64)>,
}

/// The view of a clock.
pub open spec fn clock_view(c: YamlClock) -> ClockView {
    ClockView { ts: c.timestamp@, prev: c.prev_timestamp@, abs: c.prev_absolute@, tc: c.last_timecode }
}

/// The clock after a record and what the record leads to (see
/// `YamlClock::step`); `None` for a record that is not read.
pub open spec fn clock_step(c: ClockView, rtype: Option<Seq<char>>, ts: Option<i64>, tc: Option<(i64, i64, i64, i64)>) -> Option<
    (ClockView, YamlStep),
> {
    match rtype {
        None => None,
        Some(r) => match record_of(r) {
            None => None,
            Some(k) => {
                let s = slot_of(k);
                match ts {
                    Some(t) => if s < 4 && advance_fits(c.ts[s] as int, c.prev[s] as int, t as int) {
                        let t2 = c.ts.update(s, (c.ts[s] + (t + wrap(c.prev[s] as int, t as int) - c.prev[s])) as i64);
                        Some(
                            (
                                ClockView { ts: t2, prev: c.prev.update(s, t), abs: t2, tc },
                                YamlStep { record: k, window: Some((c.abs[s], t2[s])), new_sample: c.tc != tc },
                            ),
                        )
                    } else {
                        None
                    },
                    None => Some(
                        (
                            ClockView { ts: c.ts, prev: c.prev, abs: c.ts, tc },
                            YamlStep {
                                record: k,
                                window: if s < 4 {
                                    Some((c.abs[s], c.ts[s]))
                                } else {
                                    None
                                },
                                new_sample: c.tc != tc,
                            },
                        ),
                    ),
                }
            },
        },
    }
}

/// A decoded record of a Cooke YAML file: its `RecordType`, `Timestamp`
/// and timecode (hours, minutes, seconds, frames).
pub struct YamlEvent {
    pub rtype: Option<String>,
    pub ts: Option<i64>,
    pub tc: Option<(i64, i64, i64, i64)>,
}

/// The view of a decoded record.
pub open spec fn event_view(e: YamlEvent) -> (Option<Seq<char>>, Option<i64>, Option<(i64, i64, i64, i64)>) {
    (
        match e.rtype {
            Some(s) => Some(s@),
            None => None,
        },
        e.ts,
        e.tc,
    )
}

/// The outcome of reading the records of a Cooke YAML file.
pub enum PlanOutcome {
    /// What each record read leads to, in order.
    Steps(Seq<YamlStep>),
    /// A record that is not read: of an unknown or no type, with a
    /// timestamp on a header record, or overflowing its clock.
    Refused,
}

/// The steps of the records `evs` from the clock `c`: a record that is not
/// YAML (`None`) ends the reading, a record that is not read refuses it.
pub open spec fn plan_from(
    c: ClockView,
    evs: Seq<Option<(Option<Seq<char>>, Option<i64>, Option<(i64, i64, i64, i64)>)>>,
) -> PlanOutcome
    decreases evs.len(),
{
    if evs.len() == 0 {
        PlanOutcome::Steps(Seq::empty())
    } else {
        match evs[0] {
            None => PlanOutcome::Steps(Seq::empty()),
            Some((r, t, tc)) => match clock_step(c, r, t, tc) {
                None => PlanOutcome::Refused,
                Some((c2, st)) => match plan_from(c2, evs.drop_first()) {
                    PlanOutcome::Steps(rest) => PlanOutcome::Steps(seq![st] + rest),
                    PlanOutcome::Refused => PlanOutcome::Refused,
                },
            },
        }
    }
}

/// The view of the records of a file.
pub open spec fn events_view(v: Seq<Option<YamlEvent>>) -> Seq<
    Option<(Option<Seq<char>>, Option<i64>, Option<(i64, i64, i64, i64)>)>,
> {
    v.map_values(|e: Option<YamlEvent>| match e {
        Some(x) => Some(event_view(x)),
        None => None,
    })
}

/// The clock of a file before its first record.
pub open spec fn start_clock() -> ClockView {
    ClockView { ts: seq![0i64, 0, 0, 0], prev: seq![0i64, 0, 0, 0], abs: seq![0i64, 0, 0, 0], tc: None }
}

/// Reads the decoded records of a Cooke YAML file, in order, `None` for a
/// chunk that is not YAML (see `plan_from`): what each record leads to, or
/// `None` where a record is refused.
pub fn yaml_plan(events: &[Option<YamlEvent>]) -> (r: Option<Vec<YamlStep>>)
    ensures
        match plan_from(start_clock(), events_view(events@)) {
            PlanOutcome::Steps(s) => r matches Some(v) && v@ == s,
            PlanOutcome::Refused => r is None,
        },
{
    let mut clock = YamlClock::new();
    let mut out: Vec<YamlStep> = Vec::new();
    let ghost ev = events_view(events@);
    let mut i: usize = 0;
    assert(clock_view(clock) == start_clock());
    assert(ev.subrange(0, ev.len() as int) =~= ev);
    assert(plan_from(start_clock(), ev) == match plan_from(clock_view(clock), ev.subrange(0, ev.len() as int)) {
        PlanOutcome::Steps(rest) => PlanOutcome::Steps(out@ + rest),
        PlanOutcome::Refused => PlanOutcome::Refused,
    }) by {
        match plan_from(start_clock(), ev) {
            PlanOutcome::Steps(rest) => {
                assert(out@ + rest =~= rest);
            },
            _ => {},
        }
    }
    while i < events.len()
        invariant
            i <= events.len(),
            ev == events_view(events@),
            plan_from(start_clock(), ev) == match plan_from(clock_view(clock), ev.subrange(i as int, ev.len() as int)) {
                PlanOutcome::Steps(rest) => PlanOutcome::Steps(out@ + rest),
                PlanOutcome::Refused => PlanOutcome::Refused,
            },
        decreases events.len() - i,
    {
        let ghost rest = ev.subrange(i as int, ev.len() as int);
        assert(rest.drop_first() =~= ev.subrange(i + 1, ev.len() as int));
        assert(rest[0] == ev[i as int]);
        match &events[i] {
            None => {
                assert(out@ + Seq::<YamlStep>::empty() =~= out@);
                return Some(out);
            },
            Some(e) => {
                let rt: Option<&str> = match &e.rtype {
                    Some(s) => Some(s.as_str()),
                    None => None,
                };
                assert(opt_str(rt) == event_view(*e).0);
                let ghost c0 = clock_view(clock);
                let ghost old_clock = clock;
                match clock.step(rt, e.ts, e.tc) {
                    None => {
                        assert(clock_step(c0, opt_str(rt), e.ts, e.tc) is None);
                        return None;
                    },
                    Some(st) => {
                        proof {
                            let s = slot_of(st.record);
                            assert(clock.timestamp@ =~= match clock_step(c0, opt_str(rt), e.ts, e.tc) {
                                Some((c2, _)) => c2.ts,
                                None => clock.timestamp@,
                            });
                            assert(clock.prev_timestamp@ =~= match clock_step(c0, opt_str(rt), e.ts, e.tc) {
                                Some((c2, _)) => c2.prev,
                                None => clock.prev_timestamp@,
                            });
                            assert(clock_step(c0, opt_str(rt), e.ts, e.tc) == Some((clock_view(clock), st)));
                        }
                        let ghost before = out@;
                        out.push(st);
                        proof {
                            match plan_from(clock_view(clock), rest.drop_first()) {
                                PlanOutcome::Steps(t) => {
                                    assert(before + (seq![st] + t) =~= out@ + t);
                                },
                                _ => {},
                            }
                        }
                    },
                }
            },
        }
        i = i + 1;
    }
    assert(ev.subrange(ev.len() as int, ev.len() as int) =~= Seq::<
        Option<(Option<Seq<char>>, Option<i64>, Option<(i64, i64, i64, i64)>)>,
    >::empty());
    assert(out@ + Seq::<YamlStep>::empty() =~= out@);
    Some(out)
}

/// The timecode before the `j`-th record: that of the record before, or
/// the clock's for the first.
pub open spec fn tc_before(
    c: ClockView,
    evs: Seq<Option<(Option<Seq<char>>, Option<i64>, Option<(i64, i64, i64, i64)>)>>,
    j: int,
) -> Option<(i64, i64, i64, i64)> {
    if j == 0 {
        c.tc
    } else {
        evs[j - 1]->Some_0.2
    }
}

/// Reading stops at the first chunk that is not YAML, and a record ends
/// the samples gathered so far exactly when its timecode differs from the
/// previous record's: the `j`-th step comes from the `j`-th record, a
/// YAML one, and starts a new sample exactly when the timecodes differ.
pub proof fn lemma_samples_follow_timecodes(
    c: ClockView,
    evs: Seq<Option<(Option<Seq<char>>, Option<i64>, Option<(i64, i64, i64, i64)>)>>,
)
    ensures
        plan_from(c, evs) matches PlanOutcome::Steps(s) ==> {
            &&& s.len() <= evs.len()
            &&& forall|j: int| 0 <= j < s.len() ==> evs[j] is Some
            &&& s.len() < evs.len() ==> evs[s.len() as int] is None
            &&& forall|j: int| 0 <= j < s.len() ==> (#[trigger] s[j]).new_sample == (tc_before(c, evs, j) != evs[j]->Some_0.2)
        },
    decreases evs.len(),
{
    if evs.len() > 0 {
        if let Some((r, t, tc)) = evs[0] {
            if let Some((c2, st)) = clock_step(c, r, t, tc) {
                lemma_samples_follow_timecodes(c2, evs.drop_first());
                match plan_from(c2, evs.drop_first()) {
                    PlanOutcome::Steps(rest) => {
                        let s = seq![st] + rest;
                        assert forall|j: int| 0 <= j < s.len() implies evs[j] is Some by {
                            if j > 0 {
                                assert(evs[j] == evs.drop_first()[j - 1]);
                            }
                        }
                        if s.len() < evs.len() {
                            assert(evs[s.len() as int] == evs.drop_first()[rest.len() as int]);
                        }
                        assert forall|j: int| 0 <= j < s.len() implies (#[trigger] s[j]).new_sample == (tc_before(c, evs, j)
                            != evs[j]->Some_0.2) by {
                            if j > 0 {
                                assert(s[j] == rest[j - 1]);
                                assert(evs[j] == evs.drop_first()[j - 1]);
                                if j > 1 {
                                    assert(evs[j - 1] == evs.drop_first()[j - 2]);
                                }
                                assert(c2.tc == tc);
                            }
                        }
                    },
                    _ => {},
                }
            }
        }
    }
}

/// The `RecordType`, `Timestamp` and timecode (`Timecode` with `hh`,
/// `mm`, `ss`, `ff`) of a YAML record, as serde_yaml reads the chunk into a
/// JSON value: a text, integers, and all four timecode fields as integers
/// (else none); `None` where the chunk is not YAML.
pub uninterp spec fn yaml_event_of(chunk: Seq<char>) -> Option<(Option<Seq<char>>, Option<i64>, Option<(i64, i64, i64, i64)>)>;

/// Calls `serde_yaml::from_str` into a `serde_json::Value` and takes the
/// record's `RecordType` (a string), `Timestamp` (an `i64`) and the four
/// fields of its `Timecode` object (each an `i64`); its result is named by
/// `yaml_event_of`.
#[verifier::external_body]
pub(crate) fn yaml_event(chunk: &str) -> (r: Option<YamlEvent>)
    ensures
        match r {
            Some(e) => yaml_event_of(chunk@) == Some(event_view(e)),
            None => yaml_event_of(chunk@) is None,
        },
{
    let v: serde_json::Value = serde_yaml::from_str(chunk).ok()?;
    let t = v.get("Timecode").and_then(|x| x.as_object());
    let n = |k: &str| t.and_then(|o| o.get(k)).and_then(|x| x.as_i64());
    Some(YamlEvent {
        rtype: v.get("RecordType").and_then(|x| x.as_str()).map(|x| x.to_owned()),
        ts: v.get("Timestamp").and_then(|x| x.as_i64()),
        tc: match (n("hh"), n("mm"), n("ss"), n("ff")) {
            (Some(a), Some(b), Some(c), Some(d)) => Some((a, b, c, d)),
            _ => None,
        },
    })
}

/// The decoded records of the chunks `ps`, up to and including the first
/// that is not YAML.
pub open spec fn events_until_error(ps: Seq<Seq<char>>) -> Seq<
    Option<(Option<Seq<char>>, Option<i64>, Option<(i64, i64, i64, i64)>)>,
>
    decreases ps.len(),
{
    if ps.len() == 0 {
        Seq::empty()
    } else if yaml_event_of(ps[0]) is None {
        seq![None]
    } else {
        seq![yaml_event_of(ps[0])] + events_until_error(ps.drop_first())
    }
}

/// The decoded records of a Cooke YAML file: each record between blank
/// lines that holds more than white space (see `yaml_chunks`), up to and
/// including the first that is not YAML.
pub fn yaml_events(text: &str) -> (r: Vec<Option<YamlEvent>>)
    ensures
        events_view(r@) == events_until_error(non_blank(pieces(text@, 0, 0))),
{
    let chunks = yaml_chunks(text);
    let ghost cv = chunks@.map_values(|x: String| x@);
    let mut out: Vec<Option<YamlEvent>> = Vec::new();
    let mut i: usize = 0;
    assert(cv.subrange(0, cv.len() as int) =~= cv);
    assert(events_view(out@) + events_until_error(cv) =~= events_until_error(cv));
    while i < chunks.len()
        invariant
            i <= chunks.len(),
            cv == chunks@.map_values(|x: String| x@),
            cv == non_blank(pieces(text@, 0, 0)),
            events_view(out@) + events_until_error(cv.subrange(i as int, cv.len() as int)) == events_until_error(cv),
        decreases chunks.len() - i,
    {
        let ghost rest = cv.subrange(i as int, cv.len() as int);
        assert(rest[0] == chunks@[i as int]@);
        assert(rest.drop_first() =~= cv.subrange(i + 1, cv.len() as int));
        let ghost before = events_view(out@);
        let e = yaml_event(chunks[i].as_str());
        match e {
            None => {
                assert(events_until_error(rest) == seq![None::<(Option<Seq<char>>, Option<i64>, Option<(i64, i64, i64, i64)>)>]);
                out.push(None);
                assert(events_view(out@) =~= before + seq![None]);
                assert(events_view(out@) + Seq::empty() =~= events_view(out@));
                return out;
            },
            Some(x) => {
                let ghost xv = event_view(x);
                out.push(Some(x));
                assert(events_view(out@) =~= before.push(Some(xv)));
                assert(before + (seq![Some(xv)] + events_until_error(rest.drop_first())) =~= events_view(out@)
                    + events_until_error(rest.drop_first()));
            },
        }
        i = i + 1;
    }
    assert(cv.subrange(cv.len() as int, cv.len() as int) =~= Seq::<Seq<char>>::empty());
    assert(events_view(out@) + Seq::empty() =~= events_view(out@));
    out
}

/// What each record of a Cooke YAML file leads to (see `yaml_plan`),
/// reading stopped at the first chunk that is not YAML; `None` where a
/// record is refused.
pub fn yaml_file_plan(text: &str) -> (r: Option<Vec<YamlStep>>)
    ensures
        match plan_from(start_clock(), events_until_error(non_blank(pieces(text@, 0, 0)))) {
            PlanOutcome::Steps(s) => r matches Some(v) && v@ == s,
            PlanOutcome::Refused => r is None,
        },
{
    let events = yaml_events(text);
    yaml_plan(events.as_slice())
}

/// The records after which the samples of a Cooke YAML file end: sample
/// `k` (of index `k`) ends after record `r[k]`. These are exactly the
/// records that start a new sample, in order.
pub fn sample_ends(steps: &[YamlStep]) -> (r: Vec<usize>)
    ensures
        forall|k: int| 0 <= k < r@.len() ==> r@[k] < steps@.len() && (#[trigger] steps@[r@[k] as int]).new_sample,
        forall|k1: int, k2: int| 0 <= k1 < k2 < r@.len() ==> r@[k1] < r@[k2],
        forall|j: int| 0 <= j < steps@.len() && (#[trigger] steps@[j]).new_sample ==> exists|k: int| 0 <= k < r@.len() && r@[k] == j,
{
    let mut out: Vec<usize> = Vec::new();
    let mut j: usize = 0;
    while j < steps.len()
        invariant
            j <= steps.len(),
            forall|k: int| 0 <= k < out@.len() ==> out@[k] < j && (#[trigger] steps@[out@[k] as int]).new_sample,
            forall|k1: int, k2: int| 0 <= k1 < k2 < out@.len() ==> out@[k1] < out@[k2],
            forall|i: int| 0 <= i < j && (#[trigger] steps@[i]).new_sample ==> exists|k: int| 0 <= k < out@.len() && out@[k] == i,
        decreases steps.len() - j,
    {
        if steps[j].new_sample {
            let ghost before = out@;
            out.push(j);
            assert forall|k: int| 0 <= k < out@.len() implies out@[k] < j + 1 && (#[trigger] steps@[out@[k] as int]).new_sample by {
                if k < before.len() {
                    assert(out@[k] == before[k]);
                    assert(steps@[before[k] as int].new_sample);
                }
            }
            assert forall|k1: int, k2: int| 0 <= k1 < k2 < out@.len() implies out@[k1] < out@[k2] by {
                assert(out@[k1] == before[k1]);
                if k2 == before.len() {
                    assert(out@[k2] == j);
                    assert(steps@[before[k1] as int].new_sample);
                } else {
                    assert(out@[k2] == before[k2]);
                }
            }
            assert forall|i: int| 0 <= i < j + 1 && (#[trigger] steps@[i]).new_sample implies exists|k: int|
                0 <= k < out@.len() && out@[k] == i by {
                if i < j {
                    let k = choose|k: int| 0 <= k < before.len() && before[k] == i;
                    assert(out@[k] == i);
                } else {
                    assert(out@[before.len() as int] == i);
                }
            }
        }
        j = j + 1;
    }
    out
}

/// The samples of a Cooke YAML file follow its timecodes: reading stops at
/// the first chunk that is not YAML, and a record starts a new sample
/// exactly when its timecode differs from the previous record's (none
/// before the first).
pub proof fn lemma_yaml_file_samples(text: Seq<char>)
    ensures
        ({
            let evs = events_until_error(non_blank(pieces(text, 0, 0)));
            plan_from(start_clock(), evs) matches PlanOutcome::Steps(s) ==> {
                &&& s.len() <= evs.len()
                &&& forall|j: int| 0 <= j < s.len() ==> evs[j] is Some
                &&& s.len() < evs.len() ==> evs[s.len() as int] is None
                &&& forall|j: int|
                    0 <= j < s.len() ==> (#[trigger] s[j]).new_sample == (tc_before(start_clock(), evs, j) != evs[j]->Some_0.2)
                &&& start_clock().tc is None
            }
        }),
{
    lemma_samples_follow_timecodes(start_clock(), events_until_error(non_blank(pieces(text, 0, 0))));
}

} // verus!
