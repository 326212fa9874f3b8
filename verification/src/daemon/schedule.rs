//! Scheduled jobs of the daemon: every so many minutes or hours, daily at a
//! time, or after the user has been idle.
use vstd::prelude::*;
use crate::text::copy_str;

verus! {

/// When a job runs.
#[derive(Debug, Clone, Copy, PartialEq, Eq, Structural)]
pub enum Schedule {
    EveryMinutes(u32),
    EveryHours(u32),
    DailyAt { hour: u32, minute: u32 },
    AfterIdle(u32),
}

/// A moment in UTC: seconds since the epoch, and its day (days since the
/// epoch), hour and minute.
#[derive(Debug, Clone, Copy, PartialEq, Eq, Structural)]
pub struct Moment {
    pub secs: i64,
    pub day: i64,
    pub hour: u32,
    pub minute: u32,
}

/// A scheduled job.
#[derive(Debug)]
pub struct ScheduledJob {
    pub id: String,
    pub name: String,
    pub schedule: Schedule,
    pub action: String,
    pub enabled: bool,
    pub last_run: Option<Moment>,
}

/// The jobs of the daemon.
#[derive(Debug)]
pub struct Scheduler {
    jobs: Vec<ScheduledJob>,
}

/// Whole `unit`s in `secs`, rounded toward zero (as durations count them).
pub open spec fn whole_units(secs: int, unit: int) -> int {
    if secs >= 0 {
        secs / unit
    } else {
        -((-secs) / unit)
    }
}

/// Whether a job with this schedule and last run is due at `now`, the user
/// idle for `idle_minutes`.
pub open spec fn is_due(s: Schedule, last: Option<Moment>, now: Moment, idle_minutes: nat) -> bool {
    match s {
        Schedule::EveryMinutes(m) => match last {
            Some(l) => whole_units(now.secs - l.secs, 60) >= m,
            None => true,
        },
        Schedule::EveryHours(h) => match last {
            Some(l) => whole_units(now.secs - l.secs, 3600) >= h,
            None => true,
        },
        Schedule::DailyAt { hour, minute } => now.hour == hour && now.minute == minute && match last {
            Some(l) => l.day != now.day,
            None => true,
        },
        Schedule::AfterIdle(m) => idle_minutes >= m,
    }
}

/// A whole number of `unit`s reaches `n` (positive) exactly when the
/// seconds reach `n` units.
proof fn lemma_whole_units_reach(secs: int, unit: int, n: int)
    requires
        unit > 0,
        n > 0,
    ensures
        whole_units(secs, unit) >= n <==> secs >= unit * n,
{
    if secs >= 0 {
        assert(secs / unit >= n <==> secs >= unit * n) by (nonlinear_arith)
            requires
                unit > 0,
                n > 0,
                secs >= 0,
        ;
    } else {
        assert((-secs) / unit >= 0) by (nonlinear_arith)
            requires
                unit > 0,
                secs < 0,
        ;
        assert(unit * n > 0) by (nonlinear_arith)
            requires
                unit > 0,
                n > 0,
        ;
    }
}

/// When repeating jobs fall due: a job every `h` hours (or `m` minutes) last
/// run at `l` is due exactly once `h` hours (`m` minutes) of seconds have
/// passed since `l`, and at once when it never ran; a daily job at the
/// given hour and minute of a day it has not run on; an idle job once the
/// user has been idle that many minutes.
pub proof fn lemma_when_due(h: u32, l: Option<Moment>, now: Moment, idle: nat)
    ensures
        h > 0 && l is Some ==> (is_due(Schedule::EveryHours(h), l, now, idle) <==> now.secs - l->0.secs >= 3600 * h),
        h > 0 && l is Some ==> (is_due(Schedule::EveryMinutes(h), l, now, idle) <==> now.secs - l->0.secs >= 60 * h),
        l is None ==> is_due(Schedule::EveryHours(h), l, now, idle) && is_due(Schedule::EveryMinutes(h), l, now, idle),
        forall|hour: u32, minute: u32|
            #[trigger] is_due(Schedule::DailyAt { hour, minute }, l, now, idle) <==> (now.hour == hour && now.minute == minute
                && (l is None || l->0.day != now.day)),
        is_due(Schedule::AfterIdle(h), l, now, idle) <==> idle >= h,
{
    if h > 0 && l is Some {
        lemma_whole_units_reach(now.secs - l->0.secs, 3600, h as int);
        lemma_whole_units_reach(now.secs - l->0.secs, 60, h as int);
    }
}

/// What a job holds.
pub open spec fn job_view(j: ScheduledJob) -> (Seq<char>, Seq<char>, Schedule, Seq<char>, bool, Option<Moment>) {
    (j.id@, j.name@, j.schedule, j.action@, j.enabled, j.last_run)
}

/// A job after a check at `now`: stamped `now` when enabled and due.
pub open spec fn checked_job(j: (Seq<char>, Seq<char>, Schedule, Seq<char>, bool, Option<Moment>), now: Moment, idle: nat)
    -> (Seq<char>, Seq<char>, Schedule, Seq<char>, bool, Option<Moment>) {
    if j.4 && is_due(j.2, j.5, now, idle) {
        (j.0, j.1, j.2, j.3, j.4, Some(now))
    } else {
        j
    }
}

/// The jobs due at a check, in order, as they are after the check.
pub open spec fn due_jobs(js: Seq<(Seq<char>, Seq<char>, Schedule, Seq<char>, bool, Option<Moment>)>, now: Moment, idle: nat)
    -> Seq<(Seq<char>, Seq<char>, Schedule, Seq<char>, bool, Option<Moment>)>
    decreases js.len(),
{
    if js.len() == 0 {
        Seq::empty()
    } else {
        let rest = due_jobs(js.drop_last(), now, idle);
        let j = js.last();
        if j.4 && is_due(j.2, j.5, now, idle) {
            rest.push(checked_job(j, now, idle))
        } else {
            rest
        }
    }
}

/// A schedule that may fall due again at once: after an idle time, or every
/// zero minutes or hours.
pub open spec fn repeats_at_once(s: Schedule) -> bool {
    match s {
        Schedule::EveryMinutes(m) => m == 0,
        Schedule::EveryHours(h) => h == 0,
        Schedule::DailyAt { .. } => false,
        Schedule::AfterIdle(_) => true,
    }
}

/// The jobs after a check at `now`.
pub open spec fn checked_jobs(
    js: Seq<(Seq<char>, Seq<char>, Schedule, Seq<char>, bool, Option<Moment>)>,
    now: Moment,
    idle: nat,
) -> Seq<(Seq<char>, Seq<char>, Schedule, Seq<char>, bool, Option<Moment>)> {
    js.map_values(|j: (Seq<char>, Seq<char>, Schedule, Seq<char>, bool, Option<Moment>)| checked_job(j, now, idle))
}

/// A job falls due at most once at a given moment: checking the jobs again at
/// the same moment, once a check has stamped the jobs it found due, finds
/// only jobs whose schedule may repeat at once (after an idle time, or every
/// zero minutes or hours).
pub proof fn lemma_due_once_per_moment(
    js: Seq<(Seq<char>, Seq<char>, Schedule, Seq<char>, bool, Option<Moment>)>,
    now: Moment,
    idle: nat,
)
    ensures
        forall|k: int|
            0 <= k < due_jobs(checked_jobs(js, now, idle), now, idle).len() ==> repeats_at_once(
                #[trigger] due_jobs(checked_jobs(js, now, idle), now, idle)[k].2,
            ),
    decreases js.len(),
{
    let cs = checked_jobs(js, now, idle);
    if js.len() > 0 {
        lemma_due_once_per_moment(js.drop_last(), now, idle);
        assert(cs.drop_last() =~= checked_jobs(js.drop_last(), now, idle));
        let j = js.last();
        let c = cs.last();
        assert(c == checked_job(j, now, idle));
        let rest = due_jobs(cs.drop_last(), now, idle);
        if c.4 && is_due(c.2, c.5, now, idle) {
            if j.4 && is_due(j.2, j.5, now, idle) {
                assert(c.5 == Some(now));
                assert(whole_units(now.secs - now.secs, 60) == 0);
                assert(whole_units(now.secs - now.secs, 3600) == 0);
            }
            assert(repeats_at_once(c.2));
            assert(due_jobs(cs, now, idle) == rest.push(checked_job(c, now, idle)));
            assert forall|k: int| 0 <= k < due_jobs(cs, now, idle).len() implies repeats_at_once(
                #[trigger] due_jobs(cs, now, idle)[k].2,
            ) by {
                if k < rest.len() {
                    assert(due_jobs(cs, now, idle)[k] == rest[k]);
                }
            }
        } else {
            assert(due_jobs(cs, now, idle) == rest);
        }
    }
}

fn copy_job(j: &ScheduledJob) -> (r: ScheduledJob)
    ensures
        job_view(r) == job_view(*j),
{
    ScheduledJob {
        id: copy_str(j.id.as_str()),
        name: copy_str(j.name.as_str()),
        schedule: j.schedule,
        action: copy_str(j.action.as_str()),
        enabled: j.enabled,
        last_run: j.last_run,
    }
}

fn whole_units_exec(secs: i128, unit: i128) -> (r: i128)
    requires
        unit > 0,
        -0x1_0000_0000_0000_0000 <= secs <= 0x1_0000_0000_0000_0000,
    ensures
        r == whole_units(secs as int, unit as int),
{
    if secs >= 0 {
        secs / unit
    } else {
        -((-secs) / unit)
    }
}

fn due_exec(s: Schedule, last: Option<Moment>, now: Moment, idle_minutes: u64) -> (b: bool)
    ensures
        b == is_due(s, last, now, idle_minutes as nat),
{
    match s {
        Schedule::EveryMinutes(m) => match last {
            Some(l) => whole_units_exec(now.secs as i128 - l.secs as i128, 60) >= m as i128,
            None => true,
        },
        Schedule::EveryHours(h) => match last {
            Some(l) => whole_units_exec(now.secs as i128 - l.secs as i128, 3600) >= h as i128,
            None => true,
        },
        Schedule::DailyAt { hour, minute } => now.hour == hour && now.minute == minute && match last {
            Some(l) => l.day != now.day,
            None => true,
        },
        Schedule::AfterIdle(m) => idle_minutes >= m as u64,
    }
}

impl Scheduler {
    pub closed spec fn jobs_view(&self) -> Seq<(Seq<char>, Seq<char>, Schedule, Seq<char>, bool, Option<Moment>)> {
        self.jobs@.map_values(|j: ScheduledJob| job_view(j))
    }

    /// No jobs.
    pub fn new() -> (r: Self)
        ensures
            r.jobs_view().len() == 0,
    {
        Scheduler { jobs: Vec::new() }
    }

    /// Adds a job last.
    pub fn add_job(&mut self, job: ScheduledJob)
        ensures
            final(self).jobs_view() == old(self).jobs_view().push(job_view(job)),
    {
        self.jobs.push(job);
        assert(self.jobs_view() =~= old(self).jobs_view().push(job_view(job)));
    }

    /// The default jobs added: a periodic test run every 30 minutes
    /// (disabled) and the nightly memory consolidation at 03:00 (enabled).
    pub fn with_defaults(self) -> (r: Self)
        ensures
            r.jobs_view() == self.jobs_view() + seq![
                ("auto-test"@, "Periodic test run"@, Schedule::EveryMinutes(30), "cargo test --quiet"@, false, None),
                ("auto-dream"@, "Memory consolidation (autoDream)"@, Schedule::DailyAt { hour: 3, minute: 0 }, "dream"@, true, None),
            ],
    {
        let mut s = self;
        s.add_job(ScheduledJob {
            id: copy_str("auto-test"),
            name: copy_str("Periodic test run"),
            schedule: Schedule::EveryMinutes(30),
            action: copy_str("cargo test --quiet"),
            enabled: false,
            last_run: None,
        });
        s.add_job(ScheduledJob {
            id: copy_str("auto-dream"),
            name: copy_str("Memory consolidation (autoDream)"),
            schedule: Schedule::DailyAt { hour: 3, minute: 0 },
            action: copy_str("dream"),
            enabled: true,
            last_run: None,
        });
        s
    }

    /// The enabled jobs due at `now` (the user idle for `idle_minutes`), in
    /// order; each is stamped as run at `now`.
    pub fn check_due(&mut self, now: Moment, idle_minutes: u64) -> (r: Vec<ScheduledJob>)
        ensures
            final(self).jobs_view() == old(self).jobs_view().map_values(
                |j: (Seq<char>, Seq<char>, Schedule, Seq<char>, bool, Option<Moment>)| checked_job(j, now, idle_minutes as nat),
            ),
            r@.map_values(|j: ScheduledJob| job_view(j)) == due_jobs(old(self).jobs_view(), now, idle_minutes as nat),
    {
        let ghost js = old(self).jobs_view();
        let mut due: Vec<ScheduledJob> = Vec::new();
        let mut k: usize = 0;
        while k < self.jobs.len()
            invariant
                js == old(self).jobs_view(),
                self.jobs.len() == js.len(),
                k <= self.jobs.len(),
                forall|i: int| 0 <= i < k ==> job_view(#[trigger] self.jobs@[i]) == checked_job(js[i], now, idle_minutes as nat),
                forall|i: int| k <= i < self.jobs.len() ==> job_view(#[trigger] self.jobs@[i]) == js[i],
                due@.map_values(|j: ScheduledJob| job_view(j)) == due_jobs(js.take(k as int), now, idle_minutes as nat),
            decreases self.jobs.len() - k,
        {
            let j = &self.jobs[k];
            proof {
                assert(job_view(self.jobs@[k as int]) == js[k as int]);
                assert(js.take(k + 1).drop_last() =~= js.take(k as int));
                assert(js.take(k + 1).last() == js[k as int]);
            }
            if j.enabled && due_exec(j.schedule, j.last_run, now, idle_minutes) {
                let mut updated = copy_job(j);
                updated.last_run = Some(now);
                let out = copy_job(&updated);
                let ghost before = self.jobs@;
                self.jobs.set(k, updated);
                let ghost dbefore = due@.map_values(|j: ScheduledJob| job_view(j));
                due.push(out);
                proof {
                    assert(due@.map_values(|j: ScheduledJob| job_view(j)) =~= dbefore.push(job_view(out)));
                    assert forall|i: int| 0 <= i < self.jobs.len() && i != k implies self.jobs@[i] == before[i] by {}
                }
            }
            k = k + 1;
        }
        proof {
            assert(js.take(k as int) =~= js);
            assert(self.jobs_view() =~= js.map_values(
                |j: (Seq<char>, Seq<char>, Schedule, Seq<char>, bool, Option<Moment>)| checked_job(j, now, idle_minutes as nat),
            ));
        }
        due
    }
}

} // verus!
