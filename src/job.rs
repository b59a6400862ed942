use crate::bytes::copy_range;
use crate::jobtype::{get_job_single_byte, kind_byte, ClientJob, JobType, ServerJob};
use std::collections::VecDeque;
use vstd::prelude::*;

verus! {

/// Retransmissions of a request before it is given up.
pub const MAX_RETRIES: i8 = 10;

/// Completion times kept for the ping average.
pub const MAX_SAMPLES: usize = 200;

/// Ping before enough samples are in, and its upper bound, in microseconds.
pub const PING_CEILING_US: u64 = 500_000;

/// Ping used when the average is 1 ms or less, in microseconds.
pub const PING_FLOOR_US: u64 = 10_000;

/// A request that waits for its response. Times are in microseconds of a
/// monotonic clock that the caller reads.
#[derive(Debug)]
pub struct Job {
    pub handle: u8,
    pub start_us: u64,
    pub pending: bool,
    pub raw_data: Vec<u8>,
    pub job_type: JobType,
    pub requested_count: i8,
    pub job_should_complite: u128,
}

/// Whether a pending job has waited longer than its deadline (in whole milliseconds).
pub open spec fn is_late(j: Job, now_us: u64) -> bool {
    j.pending && now_us >= j.start_us && (now_us - j.start_us) / 1000 > j.job_should_complite
}

impl Job {
    /// A pending job whose datagram is the header (handle, kind) followed by
    /// `raw_data`, whose bytes are moved out.
    pub fn new(handle: u8, job_type: JobType, raw_data: &mut Vec<u8>, job_should_complite: u128, now_us: u64) -> (r: Job)
        ensures
            r.handle == handle,
            r.job_type == job_type,
            r.raw_data@ == seq![handle, kind_byte(job_type)] + old(raw_data)@,
            final(raw_data)@.len() == 0,
            r.pending,
            r.requested_count == 0,
            r.start_us == now_us,
            r.job_should_complite == job_should_complite,
    {
        let mut byte_array = vec![handle, get_job_single_byte(&job_type)];
        byte_array.append(raw_data);
        Job {
            handle,
            start_us: now_us,
            job_type,
            raw_data: byte_array,
            pending: true,
            requested_count: 0,
            job_should_complite,
        }
    }

    pub fn get_handle(&self) -> (r: u8)
        ensures
            r == self.handle,
    {
        self.handle
    }

    pub fn reset_start_instant(&mut self, now_us: u64)
        ensures
            *final(self) == (Job { start_us: now_us, ..*old(self) }),
    {
        self.start_us = now_us;
    }

    /// Marks the job done and returns how long it took.
    pub fn finish(&mut self, now_us: u64) -> (r: u64)
        ensures
            *final(self) == (Job { pending: false, ..*old(self) }),
            r == if now_us >= old(self).start_us { (now_us - old(self).start_us) as u64 } else { 0 },
    {
        self.pending = false;
        if now_us >= self.start_us {
            now_us - self.start_us
        } else {
            0
        }
    }

    /// A copy of the job's datagram.
    pub fn get_raw_data(&self) -> (r: Vec<u8>)
        ensures
            r@ == self.raw_data@,
    {
        let r = copy_range(self.raw_data.as_slice(), 0, self.raw_data.len());
        assert(self.raw_data@.subrange(0, self.raw_data@.len() as int) =~= self.raw_data@);
        r
    }

    /// Whether the job is pending and has waited longer than its deadline.
    pub fn is_pending_request_late(&self, now_us: u64) -> (r: bool)
        ensures
            r == is_late(*self, now_us),
    {
        if !self.pending {
            return false;
        }
        if now_us < self.start_us {
            return false;
        }
        let waited_ms = (now_us - self.start_us) / 1000;
        (waited_ms as u128) > self.job_should_complite
    }
}

} // verus!

verus! {

/// What the job worker is asked to do with the table.
#[derive(Debug)]
pub enum JobAction {
    Remove,
    Add,
    IncFailed,
    IncHandled,
}

pub type JobEntries = Seq<(u8, Job)>;

/// The first position of a job with handle `h`.
pub open spec fn find_handle(jobs: JobEntries, h: u8) -> Option<int> {
    if exists|i: int| 0 <= i < jobs.len() && jobs[i].0 == h {
        Some(choose|i: int| 0 <= i < jobs.len() && jobs[i].0 == h && forall|j: int| 0 <= j < i ==> jobs[j].0 != h)
    } else {
        None
    }
}

/// A job that may stand in the table: pending, with 0 to 10 retries.
pub open spec fn job_ok(j: Job) -> bool {
    j.pending && 0 <= j.requested_count <= MAX_RETRIES
}

/// Every job of the sequence may stand in the table.
pub open spec fn jobs_ok(jobs: JobEntries) -> bool {
    forall|i: int| 0 <= i < jobs.len() ==> job_ok(#[trigger] jobs[i].1)
}

/// The sum of some durations.
pub open spec fn sum_us(t: Seq<u64>) -> int
    decreases t.len(),
{
    if t.len() == 0 {
        0
    } else {
        sum_us(t.drop_last()) + t.last()
    }
}

/// The ping that a set of completion times gives: 500 ms below five samples,
/// else their mean, raised to 10 ms when it is 1 ms or less and capped at
/// 500 ms.
pub open spec fn ping_from(times: Seq<u64>) -> u64 {
    if times.len() < 5 {
        PING_CEILING_US
    } else {
        let mean = sum_us(times) / (times.len() as int);
        if mean <= 1000 {
            PING_FLOOR_US
        } else if mean < PING_CEILING_US {
            mean as u64
        } else {
            PING_CEILING_US
        }
    }
}

/// The recent completion times once `d` is added: the oldest is dropped past 200.
pub open spec fn recents_after(times: Seq<u64>, d: u64) -> Seq<u64> {
    if times.len() + 1 > MAX_SAMPLES {
        times.push(d).drop_first()
    } else {
        times.push(d)
    }
}

/// Whether ten seconds have passed since the ping was last computed.
pub open spec fn ten_secs_passed(set_at_us: u64, now_us: u64) -> bool {
    now_us >= set_at_us && (now_us - set_at_us) / 1_000_000 > 9
}

/// What a sweep does to one job: a late job with retries left is restarted
/// with one more retry, a late job without is dropped, others stay.
pub open spec fn swept_entry(e: (u8, Job), now_us: u64) -> Option<(u8, Job)> {
    if !is_late(e.1, now_us) {
        Some(e)
    } else if e.1.requested_count < MAX_RETRIES {
        Some((e.0, Job { start_us: now_us, requested_count: (e.1.requested_count + 1) as i8, ..e.1 }))
    } else {
        None
    }
}

/// The first `n` jobs after a sweep.
pub open spec fn sweep_jobs(jobs: JobEntries, n: int, now_us: u64) -> JobEntries
    decreases n,
{
    if n <= 0 || n > jobs.len() {
        seq![]
    } else {
        sweep_jobs(jobs, n - 1, now_us) + match swept_entry(jobs[n - 1], now_us) {
            Some(x) => seq![x],
            None => Seq::<(u8, Job)>::empty(),
        }
    }
}

/// The datagrams that a sweep sends again, for the first `n` jobs.
pub open spec fn sweep_resends(jobs: JobEntries, n: int, now_us: u64) -> Seq<Seq<u8>>
    decreases n,
{
    if n <= 0 || n > jobs.len() {
        seq![]
    } else {
        sweep_resends(jobs, n - 1, now_us) + if is_late(jobs[n - 1].1, now_us) && jobs[n - 1].1.requested_count < MAX_RETRIES {
            seq![jobs[n - 1].1.raw_data@]
        } else {
            Seq::<Seq<u8>>::empty()
        }
    }
}

pub open spec fn bytes_view(v: Seq<Vec<u8>>) -> Seq<Seq<u8>> {
    Seq::new(v.len(), |i: int| v[i]@)
}

/// The client's table of outstanding requests, with the statistics that set
/// the deadline of new ones. Times are in microseconds.
pub struct Jobs {
    jobs: Vec<(u8, Job)>,
    next_job_handle: u8,
    job_finish_times: VecDeque<u64>,
    job_finish_time_average: u64,
    packages_handled: u128,
    packages_failed: u128,
    average_set_instant: u64,
}

impl Jobs {
    pub closed spec fn spec_jobs(&self) -> JobEntries {
        self.jobs@
    }

    pub closed spec fn spec_next_handle(&self) -> u8 {
        self.next_job_handle
    }

    pub closed spec fn spec_times(&self) -> Seq<u64> {
        self.job_finish_times@
    }

    pub closed spec fn spec_ping(&self) -> u64 {
        self.job_finish_time_average
    }

    pub closed spec fn spec_handled(&self) -> u128 {
        self.packages_handled
    }

    pub closed spec fn spec_failed(&self) -> u128 {
        self.packages_failed
    }

    pub closed spec fn spec_average_set_at(&self) -> u64 {
        self.average_set_instant
    }

    /// At most 200 completion times are kept, and every job in the table is
    /// pending with at most ten retries.
    pub open spec fn wf(&self) -> bool {
        &&& self.spec_times().len() <= MAX_SAMPLES
        &&& jobs_ok(self.spec_jobs())
    }

    pub fn new(now_us: u64) -> (r: Jobs)
        ensures
            r.wf(),
            r.spec_jobs().len() == 0,
            r.spec_next_handle() == 0,
            r.spec_times().len() == 0,
            r.spec_ping() == PING_CEILING_US,
            r.spec_handled() == 0,
            r.spec_failed() == 0,
            r.spec_average_set_at() == now_us,
    {
        Jobs {
            jobs: Vec::new(),
            next_job_handle: 0,
            job_finish_times: VecDeque::new(),
            job_finish_time_average: PING_CEILING_US,
            packages_handled: 0,
            packages_failed: 0,
            average_set_instant: now_us,
        }
    }

    /// The current ping estimate, in microseconds.
    pub fn get_ping(&self) -> (r: u64)
        ensures
            r == self.spec_ping(),
    {
        self.job_finish_time_average
    }

    /// The current ping estimate, in microseconds (same as `get_ping`).
    pub fn get_job_finish_time_average(&self) -> (r: u64)
        ensures
            r == self.spec_ping(),
    {
        self.job_finish_time_average
    }

    pub fn get_packages_handled(&self) -> (r: u128)
        ensures
            r == self.spec_handled(),
    {
        self.packages_handled
    }

    pub fn get_packages_failed(&self) -> (r: u128)
        ensures
            r == self.spec_failed(),
    {
        self.packages_failed
    }

    /// The number of outstanding jobs.
    pub fn len(&self) -> (r: usize)
        ensures
            r == self.spec_jobs().len(),
    {
        self.jobs.len()
    }

    /// Counts a failed datagram; the counter stops at its maximum.
    pub fn add_packages_failed(&mut self)
        ensures
            final(self).spec_failed() == if old(self).spec_failed() < u128::MAX {
                (old(self).spec_failed() + 1) as u128
            } else {
                old(self).spec_failed()
            },
            final(self).spec_jobs() == old(self).spec_jobs(),
            final(self).spec_next_handle() == old(self).spec_next_handle(),
            final(self).spec_times() == old(self).spec_times(),
            final(self).spec_ping() == old(self).spec_ping(),
            final(self).spec_handled() == old(self).spec_handled(),
            final(self).spec_average_set_at() == old(self).spec_average_set_at(),
    {
        if self.packages_failed < u128::MAX {
            self.packages_failed = self.packages_failed + 1;
        }
    }

    /// Counts a handled datagram; the counter stops at its maximum.
    pub fn add_packages_handled(&mut self)
        ensures
            final(self).spec_handled() == if old(self).spec_handled() < u128::MAX {
                (old(self).spec_handled() + 1) as u128
            } else {
                old(self).spec_handled()
            },
            final(self).spec_jobs() == old(self).spec_jobs(),
            final(self).spec_next_handle() == old(self).spec_next_handle(),
            final(self).spec_times() == old(self).spec_times(),
            final(self).spec_ping() == old(self).spec_ping(),
            final(self).spec_failed() == old(self).spec_failed(),
            final(self).spec_average_set_at() == old(self).spec_average_set_at(),
    {
        if self.packages_handled < u128::MAX {
            self.packages_handled = self.packages_handled + 1;
        }
    }

    /// The position of the first job with handle `handle`.
    fn find(&self, handle: u8) -> (r: Option<usize>)
        ensures
            match r {
                Some(i) => find_handle(self.spec_jobs(), handle) == Some(i as int) && i < self.spec_jobs().len(),
                None => find_handle(self.spec_jobs(), handle) is None,
            },
    {
        let mut i: usize = 0;
        while i < self.jobs.len()
            invariant
                i <= self.jobs@.len(),
                forall|j: int| 0 <= j < i ==> self.jobs@[j].0 != handle,
            decreases self.jobs@.len() - i,
        {
            if self.jobs[i].0 == handle {
                proof {
                    let s = self.jobs@;
                    let c = choose|c: int| 0 <= c < s.len() && s[c].0 == handle && forall|j: int| 0 <= j < c ==> s[j].0 != handle;
                    assert(0 <= i < s.len() && s[i as int].0 == handle && forall|j: int| 0 <= j < i ==> s[j].0 != handle);
                    if c < i {
                    } else if c > i {
                        assert(s[i as int].0 == handle);
                    }
                }
                return Some(i);
            }
            i = i + 1;
        }
        None
    }

    /// Stores a job under `handle`, replacing a job with that handle.
    pub fn insert_job(&mut self, handle: u8, job: Job)
        requires
            old(self).wf(),
            job_ok(job),
        ensures
            final(self).wf(),
            match find_handle(old(self).spec_jobs(), handle) {
                Some(k) => final(self).spec_jobs() == old(self).spec_jobs().update(k, (handle, job)),
                None => final(self).spec_jobs() == old(self).spec_jobs().push((handle, job)),
            },
            final(self).spec_next_handle() == old(self).spec_next_handle(),
            final(self).spec_times() == old(self).spec_times(),
            final(self).spec_ping() == old(self).spec_ping(),
            final(self).spec_handled() == old(self).spec_handled(),
            final(self).spec_failed() == old(self).spec_failed(),
            final(self).spec_average_set_at() == old(self).spec_average_set_at(),
    {
        match self.find(handle) {
            Some(k) => {
                self.jobs.set(k, (handle, job));
                assert forall|i: int| 0 <= i < self.jobs@.len() implies job_ok(#[trigger] self.jobs@[i].1) by {
                    if i != k {
                        assert(self.jobs@[i] == old(self).jobs@[i]);
                    }
                }
            },
            None => {
                self.jobs.push((handle, job));
                assert forall|i: int| 0 <= i < self.jobs@.len() implies job_ok(#[trigger] self.jobs@[i].1) by {
                    if i < old(self).jobs@.len() {
                        assert(self.jobs@[i] == old(self).jobs@[i]);
                    }
                }
            },
        }
    }

    /// Returns the current handle and moves on to the next, from 255 back to 0.
    pub fn get_next_job_handle(&mut self) -> (r: u8)
        ensures
            r == old(self).spec_next_handle(),
            final(self).spec_next_handle() == next_handle(old(self).spec_next_handle()),
            final(self).spec_jobs() == old(self).spec_jobs(),
            final(self).spec_times() == old(self).spec_times(),
            final(self).spec_ping() == old(self).spec_ping(),
            final(self).spec_handled() == old(self).spec_handled(),
            final(self).spec_failed() == old(self).spec_failed(),
            final(self).spec_average_set_at() == old(self).spec_average_set_at(),
    {
        let before = self.next_job_handle;
        if self.next_job_handle < 255 {
            self.next_job_handle = self.next_job_handle + 1;
        } else {
            self.next_job_handle = 0;
        }
        before
    }

    /// Adds a completion time, dropping the oldest past 200.
    fn push_job_duration_to_queue(&mut self, duration_us: u64)
        requires
            old(self).wf(),
        ensures
            final(self).wf(),
            final(self).spec_times() == recents_after(old(self).spec_times(), duration_us),
            final(self).spec_jobs() == old(self).spec_jobs(),
            final(self).spec_next_handle() == old(self).spec_next_handle(),
            final(self).spec_ping() == old(self).spec_ping(),
            final(self).spec_handled() == old(self).spec_handled(),
            final(self).spec_failed() == old(self).spec_failed(),
            final(self).spec_average_set_at() == old(self).spec_average_set_at(),
    {
        self.job_finish_times.push_back(duration_us);
        if self.job_finish_times.len() > MAX_SAMPLES {
            self.job_finish_times.pop_front();
            assert(self.job_finish_times@ =~= old(self).job_finish_times@.push(duration_us).drop_first());
        }
    }

    fn has_10_secs_passed_since_last_average_calucation(&self, now_us: u64) -> (r: bool)
        ensures
            r == ten_secs_passed(self.spec_average_set_at(), now_us),
    {
        now_us >= self.average_set_instant && (now_us - self.average_set_instant) / 1_000_000 > 9
    }

    /// Sets the ping from the recent completion times (see `ping_from`).
    fn set_average_finish_time(&mut self)
        requires
            old(self).wf(),
        ensures
            final(self).wf(),
            final(self).spec_ping() == ping_from(old(self).spec_times()),
            final(self).spec_jobs() == old(self).spec_jobs(),
            final(self).spec_next_handle() == old(self).spec_next_handle(),
            final(self).spec_times() == old(self).spec_times(),
            final(self).spec_handled() == old(self).spec_handled(),
            final(self).spec_failed() == old(self).spec_failed(),
            final(self).spec_average_set_at() == old(self).spec_average_set_at(),
    {
        let n = self.job_finish_times.len();
        if n < 5 {
            self.job_finish_time_average = PING_CEILING_US;
            return;
        }
        let mut sum: u128 = 0;
        let mut i: usize = 0;
        while i < n
            invariant
                n == self.job_finish_times@.len(),
                n <= MAX_SAMPLES,
                i <= n,
                sum == sum_us(self.job_finish_times@.subrange(0, i as int)),
                sum <= i * 0xFFFF_FFFF_FFFF_FFFFu128,
            decreases n - i,
        {
            let t = self.job_finish_times[i];
            proof {
                let s = self.job_finish_times@;
                assert(s.subrange(0, i + 1).drop_last() =~= s.subrange(0, i as int));
            }
            sum = sum + t as u128;
            i = i + 1;
        }
        assert(self.job_finish_times@.subrange(0, n as int) =~= self.job_finish_times@);
        let mean = sum / (n as u128);
        self.job_finish_time_average = if mean <= 1000 {
            PING_FLOOR_US
        } else if mean < PING_CEILING_US as u128 {
            mean as u64
        } else {
            PING_CEILING_US
        };
    }

    fn set_instant_as_now(&mut self, now_us: u64)
        ensures
            final(self).spec_average_set_at() == now_us,
            final(self).spec_jobs() == old(self).spec_jobs(),
            final(self).spec_next_handle() == old(self).spec_next_handle(),
            final(self).spec_times() == old(self).spec_times(),
            final(self).spec_ping() == old(self).spec_ping(),
            final(self).spec_handled() == old(self).spec_handled(),
            final(self).spec_failed() == old(self).spec_failed(),
    {
        self.average_set_instant = now_us;
    }

    /// Records a completion time; every ten seconds the ping is recomputed
    /// from the recent times.
    pub fn add_finish_time(&mut self, duration_us: u64, now_us: u64)
        requires
            old(self).wf(),
        ensures
            final(self).wf(),
            final(self).spec_times() == recents_after(old(self).spec_times(), duration_us),
            ten_secs_passed(old(self).spec_average_set_at(), now_us) ==> final(self).spec_ping() == ping_from(final(self).spec_times())
                && final(self).spec_average_set_at() == now_us,
            !ten_secs_passed(old(self).spec_average_set_at(), now_us) ==> final(self).spec_ping() == old(self).spec_ping()
                && final(self).spec_average_set_at() == old(self).spec_average_set_at(),
            final(self).spec_jobs() == old(self).spec_jobs(),
            final(self).spec_next_handle() == old(self).spec_next_handle(),
            final(self).spec_handled() == old(self).spec_handled(),
            final(self).spec_failed() == old(self).spec_failed(),
    {
        self.push_job_duration_to_queue(duration_us);
        if self.has_10_secs_passed_since_last_average_calucation(now_us) {
            self.set_instant_as_now(now_us);
            self.set_average_finish_time();
        }
    }
}

/// A counter after one more count; it stops at its maximum.
pub open spec fn saturating_inc(c: u128) -> u128 {
    if c < u128::MAX {
        (c + 1) as u128
    } else {
        c
    }
}

/// The handle that follows `h`.
pub open spec fn next_handle(h: u8) -> u8 {
    if h < 255 {
        (h + 1) as u8
    } else {
        0
    }
}

/// The handle after `k` allocations starting from `h`.
pub open spec fn handle_after(h: u8, k: nat) -> u8
    decreases k,
{
    if k == 0 {
        h
    } else {
        next_handle(handle_after(h, (k - 1) as nat))
    }
}

/// Handles are handed out in order from 0 and wrap to 0 after 255: the
/// `k`-th allocation of a fresh table returns `k` modulo 256.
pub proof fn lemma_handle_sequence(k: nat)
    ensures
        handle_after(0, k) == k % 256,
    decreases k,
{
    if k > 0 {
        lemma_handle_sequence((k - 1) as nat);
    }
}

/// The ping never exceeds 500 ms and lies in [10 ms, 500 ms] unless the mean
/// is between 1 ms and 10 ms; a mean of 1 ms or less gives 10 ms, a mean of
/// 500 ms or more gives 500 ms, and fewer than five samples give 500 ms.
pub proof fn lemma_ping_bounds(times: Seq<u64>)
    ensures
        ping_from(times) <= PING_CEILING_US,
        times.len() >= 5 && !(1000 < sum_us(times) / (times.len() as int) < PING_FLOOR_US)
            ==> PING_FLOOR_US <= ping_from(times),
        times.len() < 5 ==> ping_from(times) == PING_CEILING_US,
        times.len() >= 5 && sum_us(times) / (times.len() as int) <= 1000 ==> ping_from(times) == PING_FLOOR_US,
        times.len() >= 5 && sum_us(times) / (times.len() as int) >= 500_000 ==> ping_from(times) == PING_CEILING_US,
{
    if times.len() >= 5 {
        let mean = sum_us(times) / (times.len() as int);
        if 1000 < mean < 500_000 {
            assert(mean as u64 == mean);
        }
    }
}

/// How long a job took when finished at `now_us`.
pub open spec fn duration_at(j: Job, now_us: u64) -> u64 {
    if now_us >= j.start_us {
        (now_us - j.start_us) as u64
    } else {
        0
    }
}

/// What the sweep does to a job whose response never comes, if every sweep
/// runs after its deadline: `Some(c)` while it is kept with `c` retries,
/// `None` once it is dropped.
pub open spec fn retries_after_sweeps(k: nat) -> Option<i8>
    decreases k,
{
    if k == 0 {
        Some(0)
    } else {
        match retries_after_sweeps((k - 1) as nat) {
            Some(c) => if c < MAX_RETRIES {
                Some((c + 1) as i8)
            } else {
                None
            },
            None => None,
        }
    }
}

/// A request whose response never comes is sent again by each of the first
/// ten late sweeps and dropped by the eleventh: ten retransmissions, eleven
/// sends in all.
pub proof fn lemma_retries_end_after_ten(k: nat)
    ensures
        k <= 10 ==> retries_after_sweeps(k) == Some(k as i8),
        k > 10 ==> retries_after_sweeps(k) is None,
    decreases k,
{
    if k > 0 {
        lemma_retries_end_after_ten((k - 1) as nat);
    }
}

impl Jobs {
    /// Removes the job with this handle and records how long it took; a
    /// handle without a job counts as a failed datagram.
    pub fn remove_job(&mut self, handle: u8, now_us: u64)
        requires
            old(self).wf(),
        ensures
            final(self).wf(),
            final(self).spec_next_handle() == old(self).spec_next_handle(),
            final(self).spec_handled() == old(self).spec_handled(),
            match find_handle(old(self).spec_jobs(), handle) {
                Some(k) => {
                    &&& final(self).spec_jobs() == old(self).spec_jobs().remove(k)
                    &&& final(self).spec_times() == recents_after(old(self).spec_times(), duration_at(old(self).spec_jobs()[k].1, now_us))
                    &&& final(self).spec_failed() == old(self).spec_failed()
                },
                None => {
                    &&& final(self).spec_jobs() == old(self).spec_jobs()
                    &&& final(self).spec_times() == old(self).spec_times()
                    &&& final(self).spec_ping() == old(self).spec_ping()
                    &&& final(self).spec_failed() == if old(self).spec_failed() < u128::MAX {
                        (old(self).spec_failed() + 1) as u128
                    } else {
                        old(self).spec_failed()
                    }
                },
            },
    {
        match self.find(handle) {
            None => {
                self.add_packages_failed();
            },
            Some(k) => {
                let (_h, mut job) = self.jobs.remove(k);
                assert forall|i: int| 0 <= i < self.jobs@.len() implies job_ok(#[trigger] self.jobs@[i].1) by {
                    if i < k {
                        assert(self.jobs@[i] == old(self).jobs@[i]);
                    } else {
                        assert(self.jobs@[i] == old(self).jobs@[i + 1]);
                    }
                }
                let duration = job.finish(now_us);
                self.add_finish_time(duration, now_us);
            },
        }
    }

    /// The response to the job with this handle has come: the job is
    /// removed, its duration recorded and the datagram counted as handled.
    /// Returns the duration, or `None` (a failed datagram) when no job has
    /// the handle.
    pub fn complete_job(&mut self, handle: u8, now_us: u64) -> (r: Option<u64>)
        requires
            old(self).wf(),
        ensures
            final(self).wf(),
            final(self).spec_next_handle() == old(self).spec_next_handle(),
            match find_handle(old(self).spec_jobs(), handle) {
                Some(k) => {
                    &&& r == Some(duration_at(old(self).spec_jobs()[k].1, now_us))
                    &&& final(self).spec_jobs() == old(self).spec_jobs().remove(k)
                    &&& final(self).spec_times() == recents_after(old(self).spec_times(), duration_at(old(self).spec_jobs()[k].1, now_us))
                    &&& final(self).spec_failed() == old(self).spec_failed()
                    &&& final(self).spec_handled() == if old(self).spec_handled() < u128::MAX {
                        (old(self).spec_handled() + 1) as u128
                    } else {
                        old(self).spec_handled()
                    }
                },
                None => {
                    &&& r is None
                    &&& final(self).spec_jobs() == old(self).spec_jobs()
                    &&& final(self).spec_times() == old(self).spec_times()
                    &&& final(self).spec_handled() == old(self).spec_handled()
                    &&& final(self).spec_failed() == if old(self).spec_failed() < u128::MAX {
                        (old(self).spec_failed() + 1) as u128
                    } else {
                        old(self).spec_failed()
                    }
                },
            },
    {
        match self.find(handle) {
            None => {
                self.add_packages_failed();
                None
            },
            Some(k) => {
                let (_h, mut job) = self.jobs.remove(k);
                assert forall|i: int| 0 <= i < self.jobs@.len() implies job_ok(#[trigger] self.jobs@[i].1) by {
                    if i < k {
                        assert(self.jobs@[i] == old(self).jobs@[i]);
                    } else {
                        assert(self.jobs@[i] == old(self).jobs@[i + 1]);
                    }
                }
                let duration = job.finish(now_us);
                self.add_finish_time(duration, now_us);
                self.add_packages_handled();
                Some(duration)
            },
        }
    }

    /// One pass of the retry sweeper: every late job with retries left is
    /// restarted with one more retry and its datagram returned for sending
    /// again; every late job without retries left is dropped. Counters stay.
    pub fn resend_late_jobs(&mut self, now_us: u64) -> (r: Vec<Vec<u8>>)
        requires
            old(self).wf(),
        ensures
            final(self).wf(),
            final(self).spec_jobs() == sweep_jobs(old(self).spec_jobs(), old(self).spec_jobs().len() as int, now_us),
            bytes_view(r@) == sweep_resends(old(self).spec_jobs(), old(self).spec_jobs().len() as int, now_us),
            final(self).spec_next_handle() == old(self).spec_next_handle(),
            final(self).spec_times() == old(self).spec_times(),
            final(self).spec_ping() == old(self).spec_ping(),
            final(self).spec_handled() == old(self).spec_handled(),
            final(self).spec_failed() == old(self).spec_failed(),
            final(self).spec_average_set_at() == old(self).spec_average_set_at(),
    {
        let ghost old_jobs = self.jobs@;
        let mut rest: Vec<(u8, Job)> = Vec::new();
        std::mem::swap(&mut self.jobs, &mut rest);
        let mut resend: Vec<Vec<u8>> = Vec::new();
        let mut i: usize = 0;
        let n = rest.len();
        while rest.len() > 0
            invariant
                n == old_jobs.len(),
                i + rest@.len() == n,
                rest@ == old_jobs.subrange(i as int, n as int),
                self.jobs@ == sweep_jobs(old_jobs, i as int, now_us),
                jobs_ok(old_jobs),
                jobs_ok(self.jobs@),
                bytes_view(resend@) == sweep_resends(old_jobs, i as int, now_us),
                self.job_finish_times@ == old(self).job_finish_times@,
                self.next_job_handle == old(self).next_job_handle,
                self.job_finish_time_average == old(self).job_finish_time_average,
                self.packages_handled == old(self).packages_handled,
                self.packages_failed == old(self).packages_failed,
                self.average_set_instant == old(self).average_set_instant,
            decreases rest@.len(),
        {
            let (h, mut job) = rest.remove(0);
            let ghost e = old_jobs[i as int];
            assert(e == (h, job));
            assert(job_ok(e.1));
            let ghost kept_before = self.jobs@;
            let ghost sent_before = bytes_view(resend@);
            if job.is_pending_request_late(now_us) {
                if job.requested_count < MAX_RETRIES {
                    let again = job.get_raw_data();
                    job.reset_start_instant(now_us);
                    job.requested_count = job.requested_count + 1;
                    resend.push(again);
                    self.jobs.push((h, job));
                    assert(bytes_view(resend@) =~= sent_before + seq![e.1.raw_data@]);
                    assert forall|j: int| 0 <= j < self.jobs@.len() implies job_ok(#[trigger] self.jobs@[j].1) by {
                        if j < kept_before.len() {
                            assert(self.jobs@[j] == kept_before[j]);
                        }
                    }
                } else {
                    assert(bytes_view(resend@) =~= sent_before + Seq::<Seq<u8>>::empty());
                    assert(self.jobs@ =~= kept_before + Seq::<(u8, Job)>::empty());
                }
            } else {
                self.jobs.push((h, job));
                assert(bytes_view(resend@) =~= sent_before + Seq::<Seq<u8>>::empty());
                assert forall|j: int| 0 <= j < self.jobs@.len() implies job_ok(#[trigger] self.jobs@[j].1) by {
                    if j < kept_before.len() {
                        assert(self.jobs@[j] == kept_before[j]);
                    }
                }
            }
            i = i + 1;
            assert(rest@ =~= old_jobs.subrange(i as int, n as int));
        }
        resend
    }

    /// Applies one action of the job worker's queue.
    pub fn apply_action(&mut self, job_action: JobAction, job_handle: u8, job_maybe: Option<Job>, now_us: u64)
        requires
            old(self).wf(),
            job_maybe matches Some(j) ==> job_ok(j),
        ensures
            final(self).wf(),
            final(self).spec_next_handle() == old(self).spec_next_handle(),
            job_action is Add ==> final(self).spec_times() == old(self).spec_times()
                && final(self).spec_failed() == old(self).spec_failed()
                && final(self).spec_handled() == old(self).spec_handled()
                && match job_maybe {
                None => final(self).spec_jobs() == old(self).spec_jobs(),
                Some(job) => match find_handle(old(self).spec_jobs(), job_handle) {
                    Some(k) => final(self).spec_jobs() == old(self).spec_jobs().update(k, (job_handle, job)),
                    None => final(self).spec_jobs() == old(self).spec_jobs().push((job_handle, job)),
                },
            },
            job_action is Remove ==> match find_handle(old(self).spec_jobs(), job_handle) {
                Some(k) => final(self).spec_jobs() == old(self).spec_jobs().remove(k)
                    && final(self).spec_times() == recents_after(old(self).spec_times(), duration_at(old(self).spec_jobs()[k].1, now_us))
                    && final(self).spec_failed() == old(self).spec_failed(),
                None => final(self).spec_jobs() == old(self).spec_jobs() && final(self).spec_times() == old(self).spec_times()
                    && final(self).spec_failed() == saturating_inc(old(self).spec_failed()),
            },
            job_action is IncFailed ==> final(self).spec_jobs() == old(self).spec_jobs()
                && final(self).spec_failed() == saturating_inc(old(self).spec_failed())
                && final(self).spec_handled() == old(self).spec_handled(),
            job_action is IncHandled ==> final(self).spec_jobs() == old(self).spec_jobs()
                && final(self).spec_handled() == saturating_inc(old(self).spec_handled())
                && final(self).spec_failed() == old(self).spec_failed(),
    {
        match job_action {
            JobAction::Add => {
                if let Some(job) = job_maybe {
                    self.insert_job(job_handle, job);
                }
            },
            JobAction::Remove => {
                self.remove_job(job_handle, now_us);
            },
            JobAction::IncFailed => {
                self.add_packages_failed();
            },
            JobAction::IncHandled => {
                self.add_packages_handled();
            },
        }
    }

    /// The deadline of a new job: five times the ping, in whole milliseconds.
    pub fn deadline_for_new_job(&self) -> (r: u128)
        ensures
            r == self.spec_ping() as u128 * 5 / 1000,
    {
        (self.job_finish_time_average as u128) * 5 / 1000
    }

    /// A new job for a client request: the next handle, a deadline of five
    /// times the current ping (in whole milliseconds), and the datagram
    /// header followed by `raw_data`, whose bytes are moved out.
    pub fn create_job(&mut self, client_job: ClientJob, raw_data: &mut Vec<u8>, now_us: u64) -> (r: Job)
        ensures
            r.handle == old(self).spec_next_handle(),
            r.job_type == (ServerJob::NoServerAction, client_job),
            r.raw_data@ == seq![old(self).spec_next_handle(), kind_byte((ServerJob::NoServerAction, client_job))] + old(raw_data)@,
            r.pending,
            r.requested_count == 0,
            r.start_us == now_us,
            r.job_should_complite == old(self).spec_ping() as u128 * 5 / 1000,
            final(self).spec_next_handle() == next_handle(old(self).spec_next_handle()),
            final(self).spec_jobs() == old(self).spec_jobs(),
            final(self).spec_times() == old(self).spec_times(),
            final(self).spec_ping() == old(self).spec_ping(),
    {
        let deadline = self.deadline_for_new_job();
        let handle = self.get_next_job_handle();
        Job::new(handle, (ServerJob::NoServerAction, client_job), raw_data, deadline, now_us)
    }
}

/// One sweep of a table that holds a single job: the job is kept, restarted
/// or dropped as `swept_entry` says, and sent again exactly when restarted.
pub proof fn lemma_single_job_sweep(e: (u8, Job), now_us: u64)
    ensures
        sweep_jobs(seq![e], 1, now_us) == match swept_entry(e, now_us) {
            Some(x) => seq![x],
            None => Seq::<(u8, Job)>::empty(),
        },
        sweep_resends(seq![e], 1, now_us) == if is_late(e.1, now_us) && e.1.requested_count < MAX_RETRIES {
            seq![e.1.raw_data@]
        } else {
            Seq::<Seq<u8>>::empty()
        },
{
    reveal_with_fuel(sweep_jobs, 2);
    reveal_with_fuel(sweep_resends, 2);
    assert(seq![e][0] == e);
    assert(Seq::<(u8, Job)>::empty() + match swept_entry(e, now_us) {
        Some(x) => seq![x],
        None => Seq::<(u8, Job)>::empty(),
    } =~= match swept_entry(e, now_us) {
        Some(x) => seq![x],
        None => Seq::<(u8, Job)>::empty(),
    });
    assert(Seq::<Seq<u8>>::empty() + if is_late(e.1, now_us) && e.1.requested_count < MAX_RETRIES {
        seq![e.1.raw_data@]
    } else {
        Seq::<Seq<u8>>::empty()
    } =~= if is_late(e.1, now_us) && e.1.requested_count < MAX_RETRIES {
        seq![e.1.raw_data@]
    } else {
        Seq::<Seq<u8>>::empty()
    });
}

/// A late sweep of a job that has been resent by `k` earlier sweeps does
/// what `retries_after_sweeps` says of sweep `k + 1`: it keeps the job with
/// one more retry and the same datagram, or drops it once ten are spent.
pub proof fn lemma_sweep_follows_retries(e: (u8, Job), now_us: u64, k: nat)
    requires
        is_late(e.1, now_us),
        retries_after_sweeps(k) == Some(e.1.requested_count),
    ensures
        match retries_after_sweeps(k + 1) {
            Some(c) => swept_entry(e, now_us) matches Some(x) && x.0 == e.0 && x.1.requested_count == c
                && x.1.raw_data == e.1.raw_data && x.1.pending,
            None => swept_entry(e, now_us) is None,
        },
{
}

} // verus!
