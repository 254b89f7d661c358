use vstd::prelude::*;
use std::time::Duration;
use crate::util::text::{owned, str_eq};

verus! {

/// The length of a duration in nanoseconds, as `Duration::as_nanos` gives
/// it.
pub uninterp spec fn duration_nanos(d: Duration) -> u128;

/// The nanoseconds of `Duration::MAX`: `u64::MAX` seconds and 999,999,999
/// nanoseconds.
pub open spec fn max_duration_nanos() -> u128 {
    ((u64::MAX as int) * 1_000_000_000 + 999_999_999) as u128
}

/// `Duration::as_nanos`.
#[verifier::external_body]
pub(crate) fn as_nanos(d: &Duration) -> (n: u128)
    ensures
        n == duration_nanos(*d),
        n <= max_duration_nanos(),
{
    d.as_nanos()
}

/// `Duration::from_nanos`: a duration of `n` nanoseconds.
#[verifier::external_body]
pub(crate) fn from_nanos(n: u64) -> (d: Duration)
    ensures
        duration_nanos(d) == n,
{
    Duration::from_nanos(n)
}

/// `Duration::ZERO`.
#[verifier::external_body]
pub(crate) fn zero_duration() -> (d: Duration)
    ensures
        duration_nanos(d) == 0,
{
    Duration::ZERO
}

/// `Duration::MAX`.
#[verifier::external_body]
pub(crate) fn max_duration() -> (d: Duration)
    ensures
        duration_nanos(d) == max_duration_nanos(),
{
    Duration::MAX
}

/// `Duration + Duration`, which panics when the sum does not fit.
#[verifier::external_body]
pub(crate) fn add_durations(a: Duration, b: Duration) -> (d: Duration)
    requires
        duration_nanos(a) + duration_nanos(b) <= max_duration_nanos(),
    ensures
        duration_nanos(d) == duration_nanos(a) + duration_nanos(b),
{
    a + b
}

/// Average, minimum and maximum of a series of durations.
pub struct RollingStats {
    pub avg: Duration,
    pub min: Duration,
    pub max: Duration,
    pub samples: u32,
}

/// Statistics as plain values: average, minimum and maximum in
/// nanoseconds, and the number of samples.
pub open spec fn stats_view(s: RollingStats) -> (u128, u128, u128, u32) {
    (duration_nanos(s.avg), duration_nanos(s.min), duration_nanos(s.max), s.samples)
}

/// The statistics after one more sample `d`: the minimum and maximum take
/// it in, and the average becomes the running average, truncated to whole
/// nanoseconds and to 64 bits.
pub open spec fn stats_after(s: (u128, u128, u128, u32), d: u128) -> (u128, u128, u128, u32) {
    let n = s.3 + 1;
    (
        ((s.0 * s.3 + d) / n) as u64 as u128,
        if d < s.1 { d } else { s.1 },
        if d > s.2 { d } else { s.2 },
        n as u32,
    )
}

impl RollingStats {
    /// No sample: average and maximum zero, minimum `Duration::MAX`.
    pub fn new() -> (s: RollingStats)
        ensures
            stats_view(s) == (0u128, max_duration_nanos(), 0u128, 0u32),
    {
        RollingStats { avg: zero_duration(), min: max_duration(), max: zero_duration(), samples: 0 }
    }

    /// Takes in one more sample (see `stats_after`).
    pub fn update(&mut self, duration: Duration)
        requires
            old(self).samples < u32::MAX,
        ensures
            stats_view(*final(self)) == stats_after(stats_view(*old(self)), duration_nanos(duration)),
    {
        self.samples = self.samples + 1;
        let d = as_nanos(&duration);
        if d < as_nanos(&self.min) {
            self.min = duration;
        }
        if d > as_nanos(&self.max) {
            self.max = duration;
        }
        let avg = as_nanos(&self.avg);
        proof {
            lemma_mul_bound(avg as int, (self.samples - 1) as int, max_duration_nanos() as int, 0xffff_ffff);
        }
        let total = avg * ((self.samples - 1) as u128) + d;
        let mean = total / (self.samples as u128);
        self.avg = from_nanos(mean as u64);
    }
}

proof fn lemma_mul_bound(a: int, b: int, a_max: int, b_max: int)
    requires
        0 <= a <= a_max,
        0 <= b <= b_max,
    ensures
        a * b <= a_max * b_max,
{
    assert(a * b <= a_max * b) by (nonlinear_arith)
        requires
            0 <= a <= a_max,
            0 <= b,
    ;
    assert(a_max * b <= a_max * b_max) by (nonlinear_arith)
        requires
            0 <= a_max,
            0 <= b <= b_max,
    ;
}

impl Default for RollingStats {
    fn default() -> (s: RollingStats)
        ensures
            stats_view(s) == (0u128, max_duration_nanos(), 0u128, 0u32),
    {
        RollingStats::new()
    }
}

/// A sample never escapes the bounds it updates: afterwards the minimum is
/// at most both the sample and the old minimum, the maximum at least both,
/// and the count grows by one.
pub proof fn law_stats_bounds(s: (u128, u128, u128, u32), d: u128)
    requires
        s.3 < u32::MAX,
    ensures
        stats_after(s, d).1 <= d && stats_after(s, d).1 <= s.1,
        stats_after(s, d).2 >= d && stats_after(s, d).2 >= s.2,
        stats_after(s, d).3 == s.3 + 1,
        s.3 == 0 ==> stats_after(s, d).0 == (d as u64) as u128,
{
    if s.3 == 0 {
        assert(s.0 * s.3 == 0);
        assert((s.0 * s.3 + d) / 1 == d);
    }
}

/// The timings of one frame.
pub struct FrameTiming {
    pub total_frame_time: Duration,
    pub cpu_time: Duration,
    pub gpu_submission_time: Duration,
    pub ecs_systems_time: Duration,
    pub mesh_processing_time: Duration,
}

/// A frame's timings as nanoseconds: total, CPU, GPU submission, ECS
/// systems, mesh processing.
pub open spec fn timing_view(t: FrameTiming) -> (u128, u128, u128, u128, u128) {
    (
        duration_nanos(t.total_frame_time),
        duration_nanos(t.cpu_time),
        duration_nanos(t.gpu_submission_time),
        duration_nanos(t.ecs_systems_time),
        duration_nanos(t.mesh_processing_time),
    )
}

impl Default for FrameTiming {
    /// All zero.
    fn default() -> (t: FrameTiming)
        ensures
            timing_view(t) == (0u128, 0u128, 0u128, 0u128, 0u128),
    {
        FrameTiming {
            total_frame_time: zero_duration(),
            cpu_time: zero_duration(),
            gpu_submission_time: zero_duration(),
            ecs_systems_time: zero_duration(),
            mesh_processing_time: zero_duration(),
        }
    }
}

/// The time one system took.
pub struct SystemTiming {
    pub name: String,
    pub duration: Duration,
}

/// The frame history keeps at most this many frame times.
pub const FRAME_HISTORY: usize = 60;

/// The frame history after recording one more frame time: it goes last,
/// and the oldest is dropped past the limit.
pub open spec fn history_after(h: Seq<u128>, d: u128) -> Seq<u128> {
    if h.len() + 1 > FRAME_HISTORY {
        h.push(d).subrange(1, h.len() as int + 1)
    } else {
        h.push(d)
    }
}

/// Collects frame, CPU, GPU and per-system timings. The clock itself is
/// read by the caller.
pub struct PerformanceCollector {
    frame_times: Vec<Duration>,
    current_frame_timing: Option<FrameTiming>,
    frame_stats: RollingStats,
    cpu_stats: RollingStats,
    gpu_stats: RollingStats,
    system_timings: Vec<(String, RollingStats)>,
}

/// The statistics recorded for a system name: the first entry with that
/// name.
pub open spec fn system_entry(entries: Seq<(Seq<char>, (u128, u128, u128, u32))>, name: Seq<char>) -> Option<int>
    decreases entries.len(),
{
    if entries.len() == 0 {
        None
    } else if entries[0].0 == name {
        Some(0)
    } else {
        match system_entry(entries.subrange(1, entries.len() as int), name) {
            Some(i) => Some(i + 1),
            None => None,
        }
    }
}

/// A found entry is a valid position holding the name.
pub proof fn lemma_system_entry_bounds(entries: Seq<(Seq<char>, (u128, u128, u128, u32))>, name: Seq<char>)
    ensures
        match system_entry(entries, name) {
            Some(k) => 0 <= k < entries.len() && entries[k].0 == name,
            None => true,
        },
    decreases entries.len(),
{
    if entries.len() > 0 && entries[0].0 != name {
        let rest = entries.subrange(1, entries.len() as int);
        lemma_system_entry_bounds(rest, name);
        match system_entry(rest, name) {
            Some(k) => assert(rest[k] == entries[k + 1]),
            None => {},
        }
    }
}

/// Whether recording `d` nanoseconds for system `name` fits: the frame's
/// ECS time stays within `Duration::MAX`, and the system's sample count
/// below `u32::MAX`.
pub open spec fn record_fits(c: PerformanceCollector, name: Seq<char>, d: u128) -> bool {
    &&& match c.current() {
        Some(t) => t.3 + d <= max_duration_nanos(),
        None => true,
    }
    &&& match system_entry(c.systems(), name) {
        Some(i) => c.systems()[i].1.3 < u32::MAX,
        None => true,
    }
}

/// What recording `d` nanoseconds for system `name` does: the frame's ECS
/// time grows by `d`, and the system's statistics take the sample (a new
/// entry on first use); the rest is unchanged.
pub open spec fn record_effect(before: PerformanceCollector, after: PerformanceCollector, name: Seq<char>, d: u128) -> bool {
    &&& after.stats() == before.stats()
    &&& after.frames() == before.frames()
    &&& after.current() == match before.current() {
        Some(t) => Some((t.0, t.1, t.2, (t.3 + d) as u128, t.4)),
        None => None,
    }
    &&& match system_entry(before.systems(), name) {
        Some(i) => after.systems() == before.systems().update(i, (name, stats_after(before.systems()[i].1, d))),
        None => after.systems() == before.systems().push((name, stats_after((0u128, max_duration_nanos(), 0u128, 0u32), d))),
    }
}

impl PerformanceCollector {
    /// The recent frame times, oldest first, in nanoseconds.
    pub closed spec fn frames(&self) -> Seq<u128> {
        self.frame_times@.map_values(|d: Duration| duration_nanos(d))
    }

    /// The statistics of frames, CPU time and GPU time.
    pub closed spec fn stats(&self) -> ((u128, u128, u128, u32), (u128, u128, u128, u32), (u128, u128, u128, u32)) {
        (stats_view(self.frame_stats), stats_view(self.cpu_stats), stats_view(self.gpu_stats))
    }

    /// The timings of the frame in progress, if one was begun.
    pub closed spec fn current(&self) -> Option<(u128, u128, u128, u128, u128)> {
        match self.current_frame_timing {
            Some(t) => Some(timing_view(t)),
            None => None,
        }
    }

    /// The per-system statistics, in order of first use.
    pub closed spec fn systems(&self) -> Seq<(Seq<char>, (u128, u128, u128, u32))> {
        self.system_timings@.map_values(|e: (String, RollingStats)| (e.0@, stats_view(e.1)))
    }

    /// The frame history stays within its limit.
    pub closed spec fn wf(&self) -> bool {
        self.frame_times.len() <= FRAME_HISTORY
    }

    /// Nothing recorded.
    pub fn new() -> (c: PerformanceCollector)
        ensures
            c.wf(),
            c.frames() == Seq::<u128>::empty(),
            c.current() is None,
            c.systems() == Seq::<(Seq<char>, (u128, u128, u128, u32))>::empty(),
            c.stats().0 == (0u128, max_duration_nanos(), 0u128, 0u32),
            c.stats().1 == (0u128, max_duration_nanos(), 0u128, 0u32),
            c.stats().2 == (0u128, max_duration_nanos(), 0u128, 0u32),
    {
        let c = PerformanceCollector {
            frame_times: Vec::new(),
            current_frame_timing: None,
            frame_stats: RollingStats::new(),
            cpu_stats: RollingStats::new(),
            gpu_stats: RollingStats::new(),
            system_timings: Vec::new(),
        };
        assert(c.frames() =~= Seq::<u128>::empty());
        assert(c.systems() =~= Seq::<(Seq<char>, (u128, u128, u128, u32))>::empty());
        c
    }

    /// Starts a frame: its timings start at zero.
    pub fn begin_frame(&mut self)
        requires
            old(self).wf(),
        ensures
            final(self).wf(),
            final(self).current() == Some((0u128, 0u128, 0u128, 0u128, 0u128)),
            final(self).frames() == old(self).frames(),
            final(self).stats() == old(self).stats(),
            final(self).systems() == old(self).systems(),
    {
        self.current_frame_timing = Some(FrameTiming::default());
    }

    /// Ends a frame that took `total`: nothing happens unless a frame was
    /// begun; then the frame statistics take it in and it joins the
    /// history (see `history_after`).
    pub fn end_frame(&mut self, total: Duration)
        requires
            old(self).wf(),
            old(self).stats().0.3 < u32::MAX,
        ensures
            final(self).wf(),
            final(self).current() is None,
            final(self).systems() == old(self).systems(),
            match old(self).current() {
                Some(_) => {
                    &&& final(self).frames() == history_after(old(self).frames(), duration_nanos(total))
                    &&& final(self).stats().0 == stats_after(old(self).stats().0, duration_nanos(total))
                    &&& final(self).stats().1 == old(self).stats().1
                    &&& final(self).stats().2 == old(self).stats().2
                },
                None => {
                    &&& final(self).frames() == old(self).frames()
                    &&& final(self).stats() == old(self).stats()
                },
            },
    {
        if self.current_frame_timing.is_some() {
            self.current_frame_timing = None;
            self.frame_stats.update(total);
            let ghost h = self.frames();
            self.frame_times.push(total);
            assert(self.frames() =~= h.push(duration_nanos(total)));
            if self.frame_times.len() > FRAME_HISTORY {
                self.frame_times.remove(0);
                assert(self.frames() =~= h.push(duration_nanos(total)).subrange(1, h.len() as int + 1));
            }
        }
    }

    /// Records the CPU time of the frame.
    pub fn record_cpu_time(&mut self, duration: Duration)
        requires
            old(self).wf(),
            old(self).stats().1.3 < u32::MAX,
        ensures
            final(self).wf(),
            final(self).stats().1 == stats_after(old(self).stats().1, duration_nanos(duration)),
            final(self).stats().0 == old(self).stats().0,
            final(self).stats().2 == old(self).stats().2,
            final(self).frames() == old(self).frames(),
            final(self).systems() == old(self).systems(),
            final(self).current() == match old(self).current() {
                Some(t) => Some((t.0, duration_nanos(duration), t.2, t.3, t.4)),
                None => None,
            },
    {
        match &mut self.current_frame_timing {
            Some(t) => {
                t.cpu_time = duration;
            },
            None => {},
        }
        self.cpu_stats.update(duration);
    }

    /// Records the GPU submission time of the frame.
    pub fn record_gpu_time(&mut self, duration: Duration)
        requires
            old(self).wf(),
            old(self).stats().2.3 < u32::MAX,
        ensures
            final(self).wf(),
            final(self).stats().2 == stats_after(old(self).stats().2, duration_nanos(duration)),
            final(self).stats().0 == old(self).stats().0,
            final(self).stats().1 == old(self).stats().1,
            final(self).frames() == old(self).frames(),
            final(self).systems() == old(self).systems(),
            final(self).current() == match old(self).current() {
                Some(t) => Some((t.0, t.1, duration_nanos(duration), t.3, t.4)),
                None => None,
            },
    {
        match &mut self.current_frame_timing {
            Some(t) => {
                t.gpu_submission_time = duration;
            },
            None => {},
        }
        self.gpu_stats.update(duration);
    }

    /// Records the mesh processing time of the frame.
    pub fn record_mesh_processing_time(&mut self, duration: Duration)
        requires
            old(self).wf(),
        ensures
            final(self).wf(),
            final(self).stats() == old(self).stats(),
            final(self).frames() == old(self).frames(),
            final(self).systems() == old(self).systems(),
            final(self).current() == match old(self).current() {
                Some(t) => Some((t.0, t.1, t.2, t.3, duration_nanos(duration))),
                None => None,
            },
    {
        match &mut self.current_frame_timing {
            Some(t) => {
                t.mesh_processing_time = duration;
            },
            None => {},
        }
    }

    /// Records the time a system took: it adds to the frame's ECS time, and
    /// updates that system's statistics (created on first use).
    pub fn record_system_time(&mut self, system_name: &str, duration: Duration)
        requires
            old(self).wf(),
            record_fits(*old(self), system_name@, duration_nanos(duration)),
        ensures
            final(self).wf(),
            record_effect(*old(self), *final(self), system_name@, duration_nanos(duration)),
    {
        match &mut self.current_frame_timing {
            Some(t) => {
                let sum = add_durations(t.ecs_systems_time, duration);
                t.ecs_systems_time = sum;
            },
            None => {},
        }
        let ghost sv = self.systems();
        let ghost cur = self.current_frame_timing;
        let ghost cur_view = self.current();
        assert(cur_view == match old(self).current() {
            Some(t) => Some((t.0, t.1, t.2, (t.3 + duration_nanos(duration)) as u128, t.4)),
            None => None,
        });
        assert(sv.subrange(0, sv.len() as int) =~= sv);
        let mut i: usize = 0;
        while i < self.system_timings.len()
            invariant
                i <= self.system_timings.len(),
                sv == self.systems(),
                sv == old(self).systems(),
                self.frame_times == old(self).frame_times,
                self.frame_stats == old(self).frame_stats,
                self.cpu_stats == old(self).cpu_stats,
                self.gpu_stats == old(self).gpu_stats,
                self.current_frame_timing == cur,
                cur_view == self.current(),
                cur_view == match old(self).current() {
                    Some(t) => Some((t.0, t.1, t.2, (t.3 + duration_nanos(duration)) as u128, t.4)),
                    None => None,
                },
                old(self).wf(),
                match system_entry(old(self).systems(), system_name@) {
                    Some(k) => old(self).systems()[k].1.3 < u32::MAX,
                    None => true,
                },
                system_entry(sv, system_name@) == match system_entry(sv.subrange(i as int, sv.len() as int), system_name@) {
                    Some(k) => Some(k + i),
                    None => None::<int>,
                },
            decreases self.system_timings.len() - i,
        {
            let ghost rest = sv.subrange(i as int, sv.len() as int);
            assert(rest.subrange(1, rest.len() as int) =~= sv.subrange(i as int + 1, sv.len() as int));
            assert(rest[0] == sv[i as int]);
            if str_eq(self.system_timings[i].0.as_str(), system_name) {
                assert(system_entry(rest, system_name@) == Some(0int));
                assert(sv[i as int] == (self.system_timings@[i as int].0@, stats_view(self.system_timings@[i as int].1)));
                let mut entry = self.system_timings.remove(i);
                entry.1.update(duration);
                self.system_timings.insert(i, entry);
                assert(self.systems() =~= sv.update(
                    i as int,
                    (system_name@, stats_after(sv[i as int].1, duration_nanos(duration))),
                ));
                return;
            }
            i = i + 1;
        }
        assert(sv.subrange(sv.len() as int, sv.len() as int) =~= Seq::<(Seq<char>, (u128, u128, u128, u32))>::empty());
        let mut stats = RollingStats::new();
        stats.update(duration);
        self.system_timings.push((owned(system_name), stats));
        assert(self.systems() =~= sv.push(
            (system_name@, stats_after((0u128, max_duration_nanos(), 0u128, 0u32), duration_nanos(duration))),
        ));
    }

    /// The position of the statistics of a system name (see `system_entry`).
    fn find_system(&self, system_name: &str) -> (r: Option<usize>)
        ensures
            match system_entry(self.systems(), system_name@) {
                Some(k) => 0 <= k < self.system_timings@.len() && r == Some(k as usize),
                None => r is None,
            },
    {
        let ghost sv = self.systems();
        proof {
            lemma_system_entry_bounds(sv, system_name@);
        }
        assert(sv.subrange(0, sv.len() as int) =~= sv);
        let mut i: usize = 0;
        while i < self.system_timings.len()
            invariant
                i <= self.system_timings.len(),
                sv == self.systems(),
                system_entry(sv, system_name@) == match system_entry(sv.subrange(i as int, sv.len() as int), system_name@) {
                    Some(k) => Some(k + i),
                    None => None::<int>,
                },
            decreases self.system_timings.len() - i,
        {
            let ghost rest = sv.subrange(i as int, sv.len() as int);
            assert(rest.subrange(1, rest.len() as int) =~= sv.subrange(i as int + 1, sv.len() as int));
            assert(rest[0] == sv[i as int]);
            if str_eq(self.system_timings[i].0.as_str(), system_name) {
                assert(system_entry(rest, system_name@) == Some(0int));
                return Some(i);
            }
            i = i + 1;
        }
        assert(sv.subrange(sv.len() as int, sv.len() as int) =~= Seq::<(Seq<char>, (u128, u128, u128, u32))>::empty());
        None
    }

    /// Records the time a system took when it fits (see `record_fits`), as
    /// `record_system_time` does, and says whether it did; otherwise
    /// changes nothing.
    pub fn try_record_system_time(&mut self, system_name: &str, duration: Duration) -> (recorded: bool)
        requires
            old(self).wf(),
        ensures
            recorded == record_fits(*old(self), system_name@, duration_nanos(duration)),
            recorded ==> final(self).wf() && record_effect(*old(self), *final(self), system_name@, duration_nanos(duration)),
            !recorded ==> *final(self) == *old(self),
    {
        proof {
            lemma_system_entry_bounds(self.systems(), system_name@);
        }
        let d: u128 = as_nanos(&duration);
        let time_fits = match &self.current_frame_timing {
            Some(t) => as_nanos(&t.ecs_systems_time) + d <= 18446744073709551615999999999u128,
            None => true,
        };
        proof {
            assert(max_duration_nanos() == 18446744073709551615999999999u128);
            assert(time_fits == match self.current() {
                Some(t) => t.3 + duration_nanos(duration) <= max_duration_nanos(),
                None => true,
            });
        }
        let _system_count: usize = self.system_timings.len();
        let found = self.find_system(system_name);
        let count_fits = match found {
            Some(k) => {
                proof {
                    let e = system_entry(self.systems(), system_name@);
                    assert(found == Some(k));
                    assert(e is Some);
                    assert(found == Some((e->0) as usize));
                    assert(0 <= e->0 < self.system_timings@.len());
                    assert(e->0 == k as int);
                    assert(self.systems()[k as int].1.3 == self.system_timings@[k as int].1.samples);
                }
                self.system_timings[k].1.samples < u32::MAX
            },
            None => true,
        };
        assert(count_fits == match system_entry(self.systems(), system_name@) {
            Some(i) => self.systems()[i].1.3 < u32::MAX,
            None => true,
        });
        if time_fits && count_fits {
            self.record_system_time(system_name, duration);
            true
        } else {
            false
        }
    }

    /// The frame statistics.
    pub fn frame_stats(&self) -> (r: &RollingStats)
        ensures
            stats_view(*r) == self.stats().0,
    {
        &self.frame_stats
    }

    /// The per-system statistics, in order of first use.
    pub fn system_timings(&self) -> (r: &[(String, RollingStats)])
        ensures
            r@.map_values(|e: (String, RollingStats)| (e.0@, stats_view(e.1))) == self.systems(),
    {
        self.system_timings.as_slice()
    }

    /// The recent frame times, oldest first.
    pub fn frame_times(&self) -> (r: &[Duration])
        ensures
            r@.map_values(|d: Duration| duration_nanos(d)) == self.frames(),
    {
        self.frame_times.as_slice()
    }
}

impl Default for PerformanceCollector {
    fn default() -> (c: PerformanceCollector)
        ensures
            c.wf(),
            c.frames() == Seq::<u128>::empty(),
            c.current() is None,
    {
        PerformanceCollector::new()
    }
}

/// The frame history never exceeds its limit, and the frame recorded last
/// is its newest entry.
pub proof fn law_frame_history_bounded(h: Seq<u128>, d: u128)
    requires
        h.len() <= FRAME_HISTORY,
    ensures
        history_after(h, d).len() <= FRAME_HISTORY,
        history_after(h, d).last() == d,
{
}

} // verus!
