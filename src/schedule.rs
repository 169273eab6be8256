//! The sampling manager's decisions: which job a sampled user gets, and what
//! a write carries.

use vstd::prelude::*;
use crate::ids::IdSet;
use crate::workout::{WorkoutRecord, remap, workout_ids_of};
use crate::chance::{random_ids, weighted_batch};

verus! {

/// How far back from a user's position a write starts, so that it resends
/// ids the server already holds.
pub const WINDOW_BACK: usize = 10;

/// How many template entries one write carries at most.
pub const WINDOW_LEN: usize = 15;

/// How many jobs a worker's queue holds.
pub const QUEUE_CAPACITY: usize = 8;

/// Draws for the read/write choice are uniform in `0..DRAW_SCALE`.
pub const DRAW_SCALE: u32 = 1000;

/// An eligible user writes when the draw exceeds this (about one time in five).
pub const WRITE_ABOVE: u32 = 800;

/// First template index of the write built at position `pos`.
pub open spec fn window_start(pos: int) -> int {
    if pos >= WINDOW_BACK {
        pos - WINDOW_BACK
    } else {
        0
    }
}

/// One past the last template index of the write built at position `pos`,
/// for a template of `len` entries.
pub open spec fn window_end(pos: int, len: int) -> int {
    let s = window_start(pos);
    if s + WINDOW_LEN <= len {
        s + WINDOW_LEN
    } else if s <= len {
        len
    } else {
        s
    }
}

/// The records a write built at `pos` carries: template entries
/// `window_start(pos)..window_end(pos, len)`, each addressed to `user_id`
/// under the user's own fixed id for that entry.
pub open spec fn write_window(
    template: Seq<WorkoutRecord>,
    ids: Seq<u128>,
    user_id: u128,
    pos: int,
) -> Seq<WorkoutRecord> {
    let s = window_start(pos);
    Seq::new(
        (window_end(pos, template.len() as int) - s) as nat,
        |k: int| remap(template[s + k], user_id, ids[s + k]),
    )
}

/// How many of `ids` (counted with repetition) `inserted` does not hold.
pub open spec fn count_new(ids: Seq<u128>, inserted: Set<u128>) -> nat
    decreases ids.len(),
{
    if ids.len() == 0 {
        0
    } else {
        count_new(ids.drop_last(), inserted) + if inserted.contains(ids.last()) {
            0nat
        } else {
            1nat
        }
    }
}

/// Whether a sampled user gets a write: writes are on, the user's template
/// is not used up, and the draw exceeds `WRITE_ABOVE`.
pub open spec fn write_chosen(read_only: bool, pos: int, template_len: int, draw: int) -> bool {
    !read_only && pos < template_len && draw > WRITE_ABOVE
}

/// Whether a sampled user gets a write (see `write_chosen`).
pub fn wants_write(read_only: bool, pos: usize, template_len: usize, draw: u32) -> (r: bool)
    ensures
        r == write_chosen(read_only, pos as int, template_len as int, draw as int),
{
    !read_only && pos < template_len && draw > WRITE_ABOVE
}

/// Builds the write for a user at position `pos`: the records of
/// `write_window`, and how many of their ids `inserted` does not hold yet.
pub fn build_write(
    template: &Vec<WorkoutRecord>,
    workout_ids: &Vec<u128>,
    user_id: u128,
    pos: usize,
    inserted: &IdSet,
) -> (r: (Vec<WorkoutRecord>, usize))
    requires
        workout_ids@.len() == template@.len(),
    ensures
        r.0@ == write_window(template@, workout_ids@, user_id, pos as int),
        r.1 == count_new(workout_ids_of(r.0@), inserted@),
        r.1 <= r.0@.len() <= WINDOW_LEN,
{
    let start: usize = if pos >= WINDOW_BACK { pos - WINDOW_BACK } else { 0 };
    let end: usize = if template.len() >= WINDOW_LEN && start <= template.len() - WINDOW_LEN {
        start + WINDOW_LEN
    } else if start <= template.len() {
        template.len()
    } else {
        start
    };
    let ghost want = write_window(template@, workout_ids@, user_id, pos as int);
    assert(end as int == window_end(pos as int, template@.len() as int));
    let mut out: Vec<WorkoutRecord> = Vec::new();
    let mut n_new: usize = 0;
    let mut i: usize = start;
    while i < end
        invariant
            start <= i <= end,
            end <= template@.len() || end == start,
            end - start <= WINDOW_LEN,
            workout_ids@.len() == template@.len(),
            start as int == window_start(pos as int),
            want.len() == end - start,
            want == write_window(template@, workout_ids@, user_id, pos as int),
            out@ == want.subrange(0, i - start),
            n_new == count_new(workout_ids_of(out@), inserted@),
            n_new <= out@.len(),
        decreases end - i,
    {
        let w = template[i];
        let id = workout_ids[i];
        let rec = WorkoutRecord { user_id, workout_id: id, start_time: w.start_time, end_time: w.end_time };
        let ghost before = out@;
        out.push(rec);
        proof {
            assert(want.subrange(0, i + 1 - start) =~= want.subrange(0, i - start).push(rec));
            assert(workout_ids_of(out@) =~= workout_ids_of(before).push(id));
            assert(workout_ids_of(out@).drop_last() =~= workout_ids_of(before));
        }
        if !inserted.contains(id) {
            n_new = n_new + 1;
        }
        i = i + 1;
    }
    assert(want.subrange(0, end - start) =~= want);
    (out, n_new)
}

/// What a worker is asked to do. Users are named by their index in the
/// manager's table.
pub enum Job {
    /// List the user's workouts (and, with writes on, check them).
    Read { user: usize },
    /// Send these records for the user.
    Write { user: usize, workouts: Vec<WorkoutRecord> },
    /// Stop the worker.
    Exit,
}

/// What the manager tracks of one synthetic user.
pub struct UserState {
    pub user_id: u128,
    /// Index of the user's template in the manager's template table.
    pub template: usize,
    /// The user's own id for each template entry, fixed for the run.
    pub workout_ids: Vec<u128>,
    /// How far writes have been offered into the template.
    pub pos: usize,
}

/// Job counts of the current reporting interval.
#[derive(Clone, Copy, Debug, PartialEq, Eq, Structural)]
pub struct IntervalCounts {
    pub jobs: u64,
    pub reads: u64,
    pub writes: u64,
}

/// The sampling manager's state: every user, the shared templates, the
/// sampling weights and the running counts.
pub struct Manager {
    pub users: Vec<UserState>,
    pub templates: Vec<Vec<WorkoutRecord>>,
    /// One engagement weight per user.
    pub weights: Vec<u32>,
    pub read_only: bool,
    /// Ids that writes have offered so far (the server may not have confirmed
    /// them yet); saturates.
    pub pending_inserts: u64,
    pub interval: IntervalCounts,
}

impl Manager {
    /// Every user names a template that exists and has one fixed id per
    /// template entry; there is one weight per user.
    pub open spec fn wf(&self) -> bool {
        &&& self.weights@.len() == self.users@.len()
        &&& templates_fit(self.templates@)
        &&& forall|i: int| 0 <= i < self.users@.len() ==> #[trigger] self.users@[i].template < self.templates@.len()
        &&& forall|i: int| 0 <= i < self.users@.len() ==>
                #[trigger] self.users@[i].workout_ids@.len() == self.templates@[self.users@[i].template as int]@.len()
    }

    /// The template of user `i`.
    pub open spec fn template_of(&self, i: int) -> Seq<WorkoutRecord> {
        self.templates@[self.users@[i].template as int]@
    }

    /// A manager for users `user_ids`, where user `i` takes template
    /// `i % templates.len()`, weight `weights[i]`, fresh workout ids and
    /// position 0. `None` when there are users but no templates, the
    /// weights do not match the users one for one, or a template is longer
    /// than `usize::MAX - WINDOW_LEN` entries.
    pub fn new(
        user_ids: &Vec<u128>,
        templates: Vec<Vec<WorkoutRecord>>,
        weights: Vec<u32>,
        read_only: bool,
    ) -> (r: Option<Manager>)
        ensures
            r is None <==> (weights@.len() != user_ids@.len() || (user_ids@.len() > 0 && templates@.len() == 0)
                || !templates_fit(templates@)),
            r matches Some(m) ==> {
                &&& m.wf()
                &&& m.templates@ == templates@
                &&& m.weights@ == weights@
                &&& m.read_only == read_only
                &&& m.pending_inserts == 0
                &&& m.interval == (IntervalCounts { jobs: 0, reads: 0, writes: 0 })
                &&& m.users@.len() == user_ids@.len()
                &&& forall|i: int| 0 <= i < user_ids@.len() ==> {
                    &&& (#[trigger] m.users@[i]).user_id == user_ids@[i]
                    &&& m.users@[i].template == i % (templates@.len() as int)
                    &&& m.users@[i].pos == 0
                }
            },
    {
        if weights.len() != user_ids.len() || (user_ids.len() > 0 && templates.len() == 0) {
            return None;
        }
        let mut t: usize = 0;
        while t < templates.len()
            invariant
                t <= templates@.len(),
                forall|k: int| 0 <= k < t ==> #[trigger] templates@[k]@.len() <= usize::MAX - WINDOW_LEN,
            decreases templates@.len() - t,
        {
            if templates[t].len() > usize::MAX - WINDOW_LEN {
                return None;
            }
            t = t + 1;
        }
        let mut users: Vec<UserState> = Vec::new();
        let mut i: usize = 0;
        while i < user_ids.len()
            invariant
                i <= user_ids@.len(),
                user_ids@.len() > 0 ==> templates@.len() > 0,
                users@.len() == i,
                forall|k: int| 0 <= k < i ==> {
                    &&& (#[trigger] users@[k]).user_id == user_ids@[k]
                    &&& users@[k].template == k % (templates@.len() as int)
                    &&& users@[k].template < templates@.len()
                    &&& users@[k].workout_ids@.len() == templates@[users@[k].template as int]@.len()
                    &&& users@[k].pos == 0
                },
            decreases user_ids@.len() - i,
        {
            let t = i % templates.len();
            let workout_ids = random_ids(templates[t].len());
            users.push(UserState { user_id: user_ids[i], template: t, workout_ids, pos: 0 });
            i = i + 1;
        }
        Some(Manager {
            users,
            templates,
            weights,
            read_only,
            pending_inserts: 0,
            interval: IntervalCounts { jobs: 0, reads: 0, writes: 0 },
        })
    }

    /// Draws one batch: `min(batch_size, users)` distinct user indices,
    /// weighted by engagement.
    pub fn sample_batch(&self, batch_size: usize) -> (r: Vec<usize>)
        requires
            self.wf(),
        ensures
            r@.len() == if batch_size <= self.users@.len() { batch_size } else { self.users@.len() as usize },
            r@.no_duplicates(),
            forall|k: int| 0 <= k < r@.len() ==> r@[k] < self.users@.len(),
    {
        weighted_batch(&self.weights, batch_size)
    }

    /// The job for sampled user `user`, given the roll `draw` and the ids the
    /// server has confirmed for the user so far. A write carries
    /// `write_window` at the user's position; the position, and the pending
    /// count, advance by the number of ids `inserted` does not hold. A read
    /// changes no user. The interval counts go up by one job and one read or
    /// write.
    pub fn plan_job(&mut self, user: usize, draw: u32, inserted: &IdSet) -> (job: Job)
        requires
            old(self).wf(),
            user < old(self).users@.len(),
        ensures
            final(self).wf(),
            final(self).templates@ == old(self).templates@,
            final(self).weights@ == old(self).weights@,
            final(self).read_only == old(self).read_only,
            final(self).users@.len() == old(self).users@.len(),
            forall|i: int| 0 <= i < old(self).users@.len() && i != user ==>
                #[trigger] final(self).users@[i] == old(self).users@[i],
            final(self).users@[user as int].user_id == old(self).users@[user as int].user_id,
            final(self).users@[user as int].template == old(self).users@[user as int].template,
            final(self).users@[user as int].workout_ids@ == old(self).users@[user as int].workout_ids@,
            final(self).users@[user as int].pos >= old(self).users@[user as int].pos,
            final(self).interval.jobs == sat_inc(old(self).interval.jobs),
            ({
                let u = old(self).users@[user as int];
                let t = old(self).template_of(user as int);
                if write_chosen(old(self).read_only, u.pos as int, t.len() as int, draw as int) {
                    let ws = write_window(t, u.workout_ids@, u.user_id, u.pos as int);
                    let n = count_new(workout_ids_of(ws), inserted@);
                    &&& job matches Job::Write { user: ju, workouts } && ju == user && workouts@ == ws
                    &&& final(self).users@[user as int].pos == u.pos + n
                    &&& final(self).pending_inserts == sat_add(old(self).pending_inserts, n as int)
                    &&& final(self).interval.writes == sat_inc(old(self).interval.writes)
                    &&& final(self).interval.reads == old(self).interval.reads
                } else {
                    &&& job == (Job::Read { user })
                    &&& final(self).users@[user as int] == old(self).users@[user as int]
                    &&& final(self).pending_inserts == old(self).pending_inserts
                    &&& final(self).interval.reads == sat_inc(old(self).interval.reads)
                    &&& final(self).interval.writes == old(self).interval.writes
                }
            }),
    {
        let t = self.users[user].template;
        let pos = self.users[user].pos;
        let len = self.templates[t].len();
        self.interval.jobs = self.interval.jobs.saturating_add(1);
        if wants_write(self.read_only, pos, len, draw) {
            let (workouts, n_new) = build_write(
                &self.templates[t],
                &self.users[user].workout_ids,
                self.users[user].user_id,
                pos,
                inserted,
            );
            assert(pos < len);
            let mut u = self.users.remove(user);
            u.pos = pos + n_new;
            self.users.insert(user, u);
            self.pending_inserts = self.pending_inserts.saturating_add(n_new as u64);
            self.interval.writes = self.interval.writes.saturating_add(1);
            Job::Write { user, workouts }
        } else {
            self.interval.reads = self.interval.reads.saturating_add(1);
            Job::Read { user }
        }
    }
}

impl Manager {
    /// Hands back the job counts of the interval that ends now and starts
    /// a new one at zero.
    pub fn take_interval(&mut self) -> (r: IntervalCounts)
        ensures
            r == old(self).interval,
            final(self).interval == (IntervalCounts { jobs: 0, reads: 0, writes: 0 }),
            final(self).users == old(self).users,
            final(self).templates == old(self).templates,
            final(self).weights == old(self).weights,
            final(self).read_only == old(self).read_only,
            final(self).pending_inserts == old(self).pending_inserts,
    {
        let r = self.interval;
        self.interval = IntervalCounts { jobs: 0, reads: 0, writes: 0 };
        r
    }

    /// The users the final check lists: none when writes are off, else every
    /// user whose position has moved past zero, in index order.
    pub fn verification_targets(&self) -> (r: Vec<usize>)
        ensures
            self.read_only ==> r@.len() == 0,
            !self.read_only ==> {
                &&& forall|k: int| 0 <= k < r@.len() ==> r@[k] < self.users@.len() && self.users@[r@[k] as int].pos > 0
                &&& forall|j: int, k: int| 0 <= j < k < r@.len() ==> r@[j] < r@[k]
                &&& forall|i: int| 0 <= i < self.users@.len() && self.users@[i].pos > 0 ==> r@.contains(i as usize)
            },
    {
        let mut r: Vec<usize> = Vec::new();
        if self.read_only {
            return r;
        }
        let mut i: usize = 0;
        while i < self.users.len()
            invariant
                i <= self.users@.len(),
                forall|k: int| 0 <= k < r@.len() ==> r@[k] < i && self.users@[r@[k] as int].pos > 0,
                forall|j: int, k: int| 0 <= j < k < r@.len() ==> r@[j] < r@[k],
                forall|x: int| 0 <= x < i && self.users@[x].pos > 0 ==> r@.contains(x as usize),
            decreases self.users@.len() - i,
        {
            if self.users[i].pos > 0 {
                let ghost before = r@;
                r.push(i);
                proof {
                    assert forall|x: int| 0 <= x < i + 1 && self.users@[x].pos > 0 implies r@.contains(x as usize) by {
                        if x < i {
                            let k = choose|k: int| 0 <= k < before.len() && before[k] == x as usize;
                            assert(r@[k] == x as usize);
                        } else {
                            assert(r@[r@.len() - 1] == x as usize);
                        }
                    }
                }
            }
            i = i + 1;
        }
        r
    }

    /// The ids of the users `targets[k]` whose final check failed
    /// (`matched[k]` false), in the order of `targets`.
    pub fn failed_users(&self, targets: &Vec<usize>, matched: &Vec<bool>) -> (r: Vec<u128>)
        requires
            targets@.len() == matched@.len(),
            forall|k: int| 0 <= k < targets@.len() ==> targets@[k] < self.users@.len(),
        ensures
            r@ == failures(self.user_ids(), targets@, matched@),
    {
        let mut r: Vec<u128> = Vec::new();
        let mut k: usize = 0;
        while k < targets.len()
            invariant
                k <= targets@.len(),
                targets@.len() == matched@.len(),
                forall|j: int| 0 <= j < targets@.len() ==> targets@[j] < self.users@.len(),
                r@ == failures(self.user_ids(), targets@.subrange(0, k as int), matched@.subrange(0, k as int)),
            decreases targets@.len() - k,
        {
            proof {
                assert(targets@.subrange(0, k + 1).drop_last() =~= targets@.subrange(0, k as int));
                assert(matched@.subrange(0, k + 1).drop_last() =~= matched@.subrange(0, k as int));
            }
            if !matched[k] {
                r.push(self.users[targets[k]].user_id);
            }
            k = k + 1;
        }
        assert(targets@.subrange(0, targets@.len() as int) =~= targets@);
        assert(matched@.subrange(0, matched@.len() as int) =~= matched@);
        r
    }

    /// The user ids, by index.
    pub open spec fn user_ids(&self) -> Seq<u128> {
        self.users@.map_values(|u: UserState| u.user_id)
    }
}

/// The ids `ids[targets[k]]` for which `matched[k]` is false, in order.
pub open spec fn failures(ids: Seq<u128>, targets: Seq<usize>, matched: Seq<bool>) -> Seq<u128>
    decreases targets.len(),
{
    if targets.len() == 0 || matched.len() == 0 {
        Seq::empty()
    } else {
        let rest = failures(ids, targets.drop_last(), matched.drop_last());
        if matched.last() {
            rest
        } else {
            rest.push(ids[targets.last() as int])
        }
    }
}

/// One `Exit` per worker, sent once sampling has stopped.
pub fn shutdown_jobs(n_workers: usize) -> (r: Vec<Job>)
    ensures
        r@.len() == n_workers,
        forall|k: int| 0 <= k < n_workers ==> r@[k] is Exit,
{
    let mut r: Vec<Job> = Vec::new();
    let mut i: usize = 0;
    while i < n_workers
        invariant
            i <= n_workers,
            r@.len() == i,
            forall|k: int| 0 <= k < i ==> r@[k] is Exit,
        decreases n_workers - i,
    {
        r.push(Job::Exit);
        i = i + 1;
    }
    r
}

impl Job {
    /// Whether a worker takes the user's lock for this job: a write always
    /// does, a read only when it checks the result (writes on).
    pub open spec fn spec_locks_user(&self, read_only: bool) -> bool {
        match self {
            Job::Write { .. } => true,
            Job::Read { .. } => !read_only,
            Job::Exit => false,
        }
    }

    /// Whether a worker takes the user's lock for this job (see
    /// `spec_locks_user`).
    pub fn locks_user(&self, read_only: bool) -> (r: bool)
        ensures
            r == self.spec_locks_user(read_only),
    {
        match self {
            Job::Write { .. } => true,
            Job::Read { .. } => !read_only,
            Job::Exit => false,
        }
    }
}

/// Round-robin choice of the worker queue for the next send attempt.
pub struct Dispatcher {
    pub next: usize,
    pub n_workers: usize,
}

impl Dispatcher {
    /// The rotating index stays below the number of workers.
    pub open spec fn wf(&self) -> bool {
        self.next < self.n_workers
    }

    /// A dispatcher over `n_workers` queues, starting at the first; `None`
    /// when there are no workers.
    pub fn new(n_workers: usize) -> (r: Option<Dispatcher>)
        ensures
            r is None <==> n_workers == 0,
            r matches Some(d) ==> d.wf() && d.next == 0 && d.n_workers == n_workers,
    {
        if n_workers == 0 {
            None
        } else {
            Some(Dispatcher { next: 0, n_workers })
        }
    }

    /// The queue of the next attempt.
    pub fn target(&self) -> (r: usize)
        requires
            self.wf(),
        ensures
            r == self.next,
            r < self.n_workers,
    {
        self.next
    }

    /// Moves to the following queue, after the last back to the first. Each
    /// attempt, accepted or not, moves the index once.
    pub fn advance(&mut self)
        requires
            old(self).wf(),
        ensures
            final(self).wf(),
            final(self).n_workers == old(self).n_workers,
            final(self).next == (old(self).next + 1) % (old(self).n_workers as int),
    {
        if self.next + 1 == self.n_workers {
            self.next = 0;
            assert(((self.n_workers as int) % (self.n_workers as int)) == 0) by (nonlinear_arith)
                requires self.n_workers > 0;
        } else {
            let n = self.next + 1;
            assert((n as int) % (self.n_workers as int) == n) by (nonlinear_arith)
                requires 0 <= n < self.n_workers;
            self.next = n;
        }
    }
}

/// Deals `items` to `n` piles in turn: item `i` goes to pile `i % n`, and
/// each pile keeps the order of the items.
pub fn deal_round_robin(items: &Vec<WorkoutRecord>, n: usize) -> (r: Vec<Vec<WorkoutRecord>>)
    requires
        n > 0,
    ensures
        r@.len() == n,
        forall|p: int| 0 <= p < n ==> (#[trigger] r@[p])@ == dealt(items@, n as int, p),
{
    let mut piles: Vec<Vec<WorkoutRecord>> = Vec::new();
    let mut p: usize = 0;
    while p < n
        invariant
            p <= n,
            piles@.len() == p,
            forall|q: int| 0 <= q < p ==> (#[trigger] piles@[q])@ == Seq::<WorkoutRecord>::empty(),
        decreases n - p,
    {
        piles.push(Vec::new());
        p = p + 1;
    }
    let mut i: usize = 0;
    while i < items.len()
        invariant
            n > 0,
            i <= items@.len(),
            piles@.len() == n,
            forall|q: int| 0 <= q < n ==> (#[trigger] piles@[q])@ == dealt(items@.subrange(0, i as int), n as int, q),
        decreases items@.len() - i,
    {
        let target = i % n;
        let ghost old_piles = piles@;
        let mut pile = piles.remove(target);
        pile.push(items[i]);
        piles.insert(target, pile);
        proof {
            assert(items@.subrange(0, i + 1).drop_last() =~= items@.subrange(0, i as int));
            assert forall|q: int| 0 <= q < n implies (#[trigger] piles@[q])@ == dealt(items@.subrange(0, i + 1), n as int, q) by {
                if q != target {
                    assert(piles@[q] == old_piles[q]);
                }
            }
        }
        i = i + 1;
    }
    assert(items@.subrange(0, items@.len() as int) =~= items@);
    piles
}

/// The items of `items` whose index is `p` modulo `n`, in order.
pub open spec fn dealt(items: Seq<WorkoutRecord>, n: int, p: int) -> Seq<WorkoutRecord>
    decreases items.len(),
{
    if items.len() == 0 {
        Seq::empty()
    } else {
        let prev = dealt(items.drop_last(), n, p);
        if (items.len() - 1) % n == p {
            prev.push(items.last())
        } else {
            prev
        }
    }
}

/// No template is so long that a position past its end overflows.
pub open spec fn templates_fit(templates: Seq<Vec<WorkoutRecord>>) -> bool {
    forall|t: int| 0 <= t < templates.len() ==> #[trigger] templates[t]@.len() <= usize::MAX - WINDOW_LEN
}

/// `x + 1`, saturating at `u64::MAX`.
pub open spec fn sat_inc(x: u64) -> u64 {
    sat_add(x, 1)
}

/// `x + n`, saturating at `u64::MAX`.
pub open spec fn sat_add(x: u64, n: int) -> u64 {
    if x + n > u64::MAX {
        u64::MAX
    } else {
        (x + n) as u64
    }
}

} // verus!
