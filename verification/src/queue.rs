use vstd::prelude::*;
use crate::support::{bytes_eq, clone_bytes};

verus! {

/// Where a job stands in its lifecycle.  `Pending` jobs are claimable,
/// `Claimed` jobs are held by exactly one worker, `Done` is terminal
/// success, `Dead` is terminal failure after the retry budget ran out.
#[derive(Clone, Copy, Debug, PartialEq, Eq, Structural)]
pub enum JobStatus {
    Pending,
    Claimed,
    Done,
    Dead,
}

/// One unit of asynchronous work, as the durable store records it.
pub struct Job {
    pub id: u64,
    pub topic: Vec<u8>,
    pub content_type: Vec<u8>,
    pub priority: u32,
    pub payload: Vec<u8>,
    pub enqueued_at: u64,
    /// A pending job is not claimable before this instant (retry backoff).
    pub available_at: u64,
    pub claimed_at: u64,
    pub retries: u32,
    pub status: JobStatus,
}

/// Mathematical image of `Job`.
#[verifier::ext_equal]
pub struct JobView {
    pub id: u64,
    pub topic: Seq<u8>,
    pub content_type: Seq<u8>,
    pub priority: u32,
    pub payload: Seq<u8>,
    pub enqueued_at: u64,
    pub available_at: u64,
    pub claimed_at: u64,
    pub retries: u32,
    pub status: JobStatus,
}

impl View for Job {
    type V = JobView;

    open spec fn view(&self) -> JobView {
        JobView {
            id: self.id,
            topic: self.topic@,
            content_type: self.content_type@,
            priority: self.priority,
            payload: self.payload@,
            enqueued_at: self.enqueued_at,
            available_at: self.available_at,
            claimed_at: self.claimed_at,
            retries: self.retries,
            status: self.status,
        }
    }
}

/// The topic-routed, priority-ordered job queue, together with its retry
/// and claim-timeout configuration.
pub struct Queue {
    pub jobs: Vec<Job>,
    pub next_id: u64,
    pub max_retries: u32,
    pub retry_backoff: u64,
    pub claim_timeout: u64,
}

/// Mathematical image of `Queue`.
#[verifier::ext_equal]
pub struct QueueView {
    pub jobs: Seq<JobView>,
    pub next_id: u64,
    pub max_retries: u32,
    pub retry_backoff: u64,
    pub claim_timeout: u64,
}

impl View for Queue {
    type V = QueueView;

    open spec fn view(&self) -> QueueView {
        QueueView {
            jobs: self.jobs@.map_values(|j: Job| j@),
            next_id: self.next_id,
            max_retries: self.max_retries,
            retry_backoff: self.retry_backoff,
            claim_timeout: self.claim_timeout,
        }
    }
}

/// Well-formedness: job identifiers grow strictly along the store, so they
/// are unique and record the enqueue order, and all stay below `next_id`.
pub open spec fn wf(q: QueueView) -> bool {
    &&& forall|i: int| 0 <= i < q.jobs.len() ==> (#[trigger] q.jobs[i]).id < q.next_id
    &&& forall|i: int, j: int|
        0 <= i < j < q.jobs.len() ==> (#[trigger] q.jobs[i]).id < (#[trigger] q.jobs[j]).id
}

/// A job a worker asking for `topic` at time `now` may claim.
pub open spec fn eligible(j: JobView, topic: Seq<u8>, now: u64) -> bool {
    &&& j.status is Pending
    &&& j.topic == topic
    &&& j.available_at <= now
}

/// Dispatch order: higher priority first, and first-come-first-served
/// (smaller id) within a priority band.
pub open spec fn better(a: JobView, b: JobView) -> bool {
    ||| a.priority > b.priority
    ||| (a.priority == b.priority && a.id < b.id)
}

/// The position of the job `dequeue` picks: among the eligible jobs, the
/// one of highest priority, oldest first on a tie.
pub open spec fn best_idx(jobs: Seq<JobView>, topic: Seq<u8>, now: u64) -> Option<int>
    decreases jobs.len(),
{
    if jobs.len() == 0 {
        None
    } else {
        let prior = best_idx(jobs.drop_last(), topic, now);
        let last = jobs.len() - 1;
        if eligible(jobs[last], topic, now) {
            match prior {
                None => Some(last),
                Some(i) => if better(jobs[last], jobs[i]) {
                    Some(last)
                } else {
                    Some(i)
                },
            }
        } else {
            prior
        }
    }
}

/// What `best_idx` promises: it returns no index exactly when nothing is
/// eligible, and otherwise the index of an eligible job that beats every
/// other eligible job.
pub proof fn lemma_best_idx(jobs: Seq<JobView>, topic: Seq<u8>, now: u64)
    requires
        forall|i: int, j: int|
            0 <= i < j < jobs.len() ==> (#[trigger] jobs[i]).id < (#[trigger] jobs[j]).id,
    ensures
        match best_idx(jobs, topic, now) {
            None => forall|k: int| 0 <= k < jobs.len() ==> !eligible(#[trigger] jobs[k], topic, now),
            Some(i) => {
                &&& 0 <= i < jobs.len()
                &&& eligible(jobs[i], topic, now)
                &&& forall|k: int|
                    0 <= k < jobs.len() && k != i && eligible(#[trigger] jobs[k], topic, now)
                        ==> better(jobs[i], jobs[k])
            },
        },
    decreases jobs.len(),
{
    if jobs.len() > 0 {
        let prefix = jobs.drop_last();
        assert(forall|i: int, j: int|
            0 <= i < j < prefix.len() ==> (#[trigger] prefix[i]).id < (#[trigger] prefix[j]).id);
        lemma_best_idx(prefix, topic, now);
        let last = jobs.len() - 1;
        assert(forall|k: int| 0 <= k < last ==> prefix[k] == jobs[k]);
        match best_idx(jobs, topic, now) {
            None => {},
            Some(i) => {
                if eligible(jobs[last], topic, now) {
                    match best_idx(prefix, topic, now) {
                        None => {},
                        Some(p) => {
                            assert(jobs[p].id < jobs[last].id);
                            if !better(jobs[last], jobs[p]) {
                                assert(jobs[p].priority >= jobs[last].priority);
                                assert(better(jobs[p], jobs[last]));
                            }
                        },
                    }
                }
            },
        }
    }
}

/// `j` after a worker claims it at time `now`.
pub open spec fn claim_job(j: JobView, now: u64) -> JobView {
    JobView { status: JobStatus::Claimed, claimed_at: now, ..j }
}

/// The job `enqueue` appends for the given arguments.
pub open spec fn fresh_job(
    q: QueueView,
    topic: Seq<u8>,
    content_type: Seq<u8>,
    priority: u32,
    payload: Seq<u8>,
    now: u64,
) -> JobView {
    JobView {
        id: q.next_id,
        topic: topic,
        content_type: content_type,
        priority: priority,
        payload: payload,
        enqueued_at: now,
        available_at: now,
        claimed_at: 0,
        retries: 0,
        status: JobStatus::Pending,
    }
}

/// The queue after `enqueue`.
pub open spec fn enqueue_spec(
    q: QueueView,
    topic: Seq<u8>,
    content_type: Seq<u8>,
    priority: u32,
    payload: Seq<u8>,
    now: u64,
) -> QueueView {
    QueueView {
        jobs: q.jobs.push(fresh_job(q, topic, content_type, priority, payload, now)),
        next_id: (q.next_id + 1) as u64,
        ..q
    }
}

/// The queue and the claimed job after `dequeue`.
pub open spec fn dequeue_spec(q: QueueView, topic: Seq<u8>, now: u64) -> (QueueView, Option<
    JobView,
>) {
    match best_idx(q.jobs, topic, now) {
        None => (q, None),
        Some(i) => (
            QueueView { jobs: q.jobs.update(i, claim_job(q.jobs[i], now)), ..q },
            Some(claim_job(q.jobs[i], now)),
        ),
    }
}

/// `j` after `ack(id)`: a terminal dead job is never resurrected, anything
/// else with the acked id becomes permanently done.
pub open spec fn ack_job(j: JobView, id: u64) -> JobView {
    if j.id == id && !(j.status is Dead) {
        JobView { status: JobStatus::Done, ..j }
    } else {
        j
    }
}

/// The queue after `ack`.
pub open spec fn ack_spec(q: QueueView, id: u64) -> QueueView {
    QueueView { jobs: Seq::new(q.jobs.len(), |i: int| ack_job(q.jobs[i], id)), ..q }
}

/// `j` after `fail(id)` at time `now`: a claimed job goes back to pending
/// with one more retry on its count and a backoff delay, unless its retry
/// budget is spent, in which case it is dead for good.
pub open spec fn fail_job(j: JobView, id: u64, max_retries: u32, backoff: u64, now: u64) -> JobView {
    if j.id == id && j.status is Claimed {
        if j.retries < max_retries {
            JobView {
                status: JobStatus::Pending,
                retries: (j.retries + 1) as u32,
                available_at: now.saturating_add(backoff),
                ..j
            }
        } else {
            JobView { status: JobStatus::Dead, ..j }
        }
    } else {
        j
    }
}

/// The queue after `fail`.
pub open spec fn fail_spec(q: QueueView, id: u64, now: u64) -> QueueView {
    QueueView {
        jobs: Seq::new(
            q.jobs.len(),
            |i: int| fail_job(q.jobs[i], id, q.max_retries, q.retry_backoff, now),
        ),
        ..q
    }
}

/// `j` as a process restart leaves it: every durable field survives; only
/// an in-flight claim is released, since no worker holds it any more.
pub open spec fn restart_job(j: JobView) -> JobView {
    if j.status is Claimed {
        JobView { status: JobStatus::Pending, ..j }
    } else {
        j
    }
}

/// The queue after a process restart.
pub open spec fn restart_spec(q: QueueView) -> QueueView {
    QueueView { jobs: Seq::new(q.jobs.len(), |i: int| restart_job(q.jobs[i])), ..q }
}

/// `j` after the claim-timeout sweep at time `now`: a job claimed so long
/// ago that its claim timed out goes back to pending.
pub open spec fn reclaim_job(j: JobView, timeout: u64, now: u64) -> JobView {
    if j.status is Claimed && j.claimed_at.saturating_add(timeout) <= now {
        JobView { status: JobStatus::Pending, ..j }
    } else {
        j
    }
}

/// The queue after the claim-timeout sweep.
pub open spec fn reclaim_spec(q: QueueView, now: u64) -> QueueView {
    QueueView {
        jobs: Seq::new(q.jobs.len(), |i: int| reclaim_job(q.jobs[i], q.claim_timeout, now)),
        ..q
    }
}

/// The dispatch-order guarantee: within a topic, `dequeue` hands out the
/// highest-priority pending job, and the longest-waiting one within a
/// priority band; it comes back empty exactly when nothing is eligible.
pub proof fn lemma_dequeue_order(q: QueueView, topic: Seq<u8>, now: u64)
    requires
        wf(q),
    ensures
        (dequeue_spec(q, topic, now).1 is None) ==> forall|k: int|
            0 <= k < q.jobs.len() ==> !eligible(#[trigger] q.jobs[k], topic, now),
        dequeue_spec(q, topic, now).1 matches Some(j) ==> exists|i: int|
            {
                &&& 0 <= i < q.jobs.len()
                &&& j == claim_job(#[trigger] q.jobs[i], now)
                &&& eligible(q.jobs[i], topic, now)
                &&& forall|k: int|
                    0 <= k < q.jobs.len() && k != i && eligible(#[trigger] q.jobs[k], topic, now)
                        ==> better(q.jobs[i], q.jobs[k])
            },
{
    lemma_best_idx(q.jobs, topic, now);
}

/// Acking is idempotent: a second ack of the same identifier leaves the
/// queue exactly as the first one did.
pub proof fn lemma_ack_idempotent(q: QueueView, id: u64)
    ensures
        ack_spec(ack_spec(q, id), id) == ack_spec(q, id),
{
    let q1 = ack_spec(q, id);
    let q2 = ack_spec(q1, id);
    assert forall|k: int| 0 <= k < q.jobs.len() implies q2.jobs[k] == q1.jobs[k] by {
        assert(q1.jobs[k] == ack_job(q.jobs[k], id));
        assert(q2.jobs[k] == ack_job(q1.jobs[k], id));
    }
    assert(q2.jobs =~= q1.jobs);
    assert(q2 =~= q1);
}

/// A claimed job whose retry budget is already spent goes terminally dead
/// on its next failure.
pub proof fn lemma_retry_exhaustion(q: QueueView, i: int, id: u64, now: u64)
    requires
        0 <= i < q.jobs.len(),
        q.jobs[i].id == id,
        q.jobs[i].status is Claimed,
        q.jobs[i].retries >= q.max_retries,
    ensures
        fail_spec(q, id, now).jobs[i].status is Dead,
{
}

/// A dead job is dead for good: no operation of the queue touches it, and
/// `dequeue` never hands it out again.
pub proof fn lemma_dead_stays_dead(q: QueueView, k: int, id: u64, topic: Seq<u8>, now: u64)
    requires
        wf(q),
        0 <= k < q.jobs.len(),
        q.jobs[k].status is Dead,
    ensures
        ack_spec(q, id).jobs[k] == q.jobs[k],
        fail_spec(q, id, now).jobs[k] == q.jobs[k],
        restart_spec(q).jobs[k] == q.jobs[k],
        reclaim_spec(q, now).jobs[k] == q.jobs[k],
        dequeue_spec(q, topic, now).0.jobs[k] == q.jobs[k],
        dequeue_spec(q, topic, now).1 matches Some(j) ==> j.id != q.jobs[k].id,
{
    lemma_best_idx(q.jobs, topic, now);
    match best_idx(q.jobs, topic, now) {
        None => {},
        Some(i) => {
            assert(eligible(q.jobs[i], topic, now));
            assert(i != k);
            if i < k {
                assert(q.jobs[i].id < q.jobs[k].id);
            } else {
                assert(q.jobs[k].id < q.jobs[i].id);
            }
        },
    }
}

/// Durability: once `enqueue` has returned, an immediate process restart
/// still finds the job recorded, pending and claimable for its topic.
pub proof fn lemma_enqueue_survives_restart(
    q: QueueView,
    topic: Seq<u8>,
    content_type: Seq<u8>,
    priority: u32,
    payload: Seq<u8>,
    now: u64,
)
    ensures
        ({
            let q1 = enqueue_spec(q, topic, content_type, priority, payload, now);
            let q2 = restart_spec(q1);
            let n = q.jobs.len() as int;
            &&& q2.jobs.len() == q.jobs.len() + 1
            &&& q2.jobs[n] == fresh_job(q, topic, content_type, priority, payload, now)
            &&& eligible(q2.jobs[n], topic, now)
        }),
{
    let q1 = enqueue_spec(q, topic, content_type, priority, payload, now);
    let n = q.jobs.len() as int;
    assert(q1.jobs[n] == fresh_job(q, topic, content_type, priority, payload, now));
}

impl Queue {
    /// An empty queue with the given retry and claim-timeout configuration.
    pub fn new(max_retries: u32, retry_backoff: u64, claim_timeout: u64) -> (r: Queue)
        ensures
            r@.jobs.len() == 0,
            r@.next_id == 0,
            r@.max_retries == max_retries,
            r@.retry_backoff == retry_backoff,
            r@.claim_timeout == claim_timeout,
            wf(r@),
    {
        let r = Queue { jobs: Vec::new(), next_id: 0, max_retries, retry_backoff, claim_timeout };
        proof {
            assert(r@.jobs =~= Seq::<JobView>::empty());
        }
        r
    }

    /// Durably records a new pending job and hands back its fresh
    /// identifier.  The job is visible to workers of its topic at once.
    pub fn enqueue(
        &mut self,
        topic: Vec<u8>,
        content_type: Vec<u8>,
        priority: u32,
        payload: Vec<u8>,
        now: u64,
    ) -> (id: u64)
        requires
            old(self)@.next_id < u64::MAX,
        ensures
            id == old(self)@.next_id,
            final(self)@ == enqueue_spec(
                old(self)@,
                topic@,
                content_type@,
                priority,
                payload@,
                now,
            ),
            wf(old(self)@) ==> wf(final(self)@),
    {
        let id = self.next_id;
        let job = Job {
            id,
            topic,
            content_type,
            priority,
            payload,
            enqueued_at: now,
            available_at: now,
            claimed_at: 0,
            retries: 0,
            status: JobStatus::Pending,
        };
        self.jobs.push(job);
        self.next_id = self.next_id + 1;
        proof {
            assert(self@.jobs =~= enqueue_spec(
                old(self)@,
                job.topic@,
                job.content_type@,
                priority,
                job.payload@,
                now,
            ).jobs);
            assert(self@ =~= enqueue_spec(
                old(self)@,
                job.topic@,
                job.content_type@,
                priority,
                job.payload@,
                now,
            ));
        }
        id
    }

    /// Claims and returns the best eligible job for `topic` at time `now`:
    /// highest priority first, oldest first within a priority band.  Returns
    /// nothing exactly when no pending job of the topic is claimable.  The
    /// claim is exclusive: the chosen job leaves the pending state in the
    /// same step.
    #[verifier::loop_isolation(false)]
    pub fn dequeue(&mut self, topic: &Vec<u8>, now: u64) -> (r: Option<Job>)
        ensures
            final(self)@ == dequeue_spec(old(self)@, topic@, now).0,
            match r {
                Some(j) => dequeue_spec(old(self)@, topic@, now).1 == Some(j@),
                None => dequeue_spec(old(self)@, topic@, now).1 == None::<JobView>,
            },
            wf(old(self)@) ==> wf(final(self)@),
    {
        let mut best: Option<usize> = None;
        let mut i: usize = 0;
        while i < self.jobs.len()
            invariant
                0 <= i <= self.jobs.len(),
                self@.jobs.len() == self.jobs.len(),
                match best {
                    None => best_idx(self@.jobs.take(i as int), topic@, now) == None::<int>,
                    Some(b) => b < i && best_idx(self@.jobs.take(i as int), topic@, now) == Some(
                        b as int,
                    ),
                },
            decreases self.jobs.len() - i,
        {
            proof {
                assert(self@.jobs.take(i + 1).drop_last() =~= self@.jobs.take(i as int));
                assert(self@.jobs.take(i + 1)[i as int] == self@.jobs[i as int]);
            }
            let j = &self.jobs[i];
            let is_eligible = match j.status {
                JobStatus::Pending => bytes_eq(j.topic.as_slice(), topic.as_slice())
                    && j.available_at <= now,
                _ => false,
            };
            proof {
                assert(self.jobs@[i as int]@ == self@.jobs[i as int]);
                assert(is_eligible == eligible(self@.jobs[i as int], topic@, now));
            }
            if is_eligible {
                match best {
                    None => {
                        best = Some(i);
                    },
                    Some(b) => {
                        let jp = self.jobs[i].priority;
                        let jid = self.jobs[i].id;
                        let bp = self.jobs[b].priority;
                        let bid = self.jobs[b].id;
                        if jp > bp || (jp == bp && jid < bid) {
                            best = Some(i);
                        }
                    },
                }
            }
            i = i + 1;
        }
        proof {
            assert(self@.jobs.take(self.jobs.len() as int) =~= self@.jobs);
        }
        match best {
            None => None,
            Some(b) => {
                self.jobs[b].status = JobStatus::Claimed;
                self.jobs[b].claimed_at = now;
                let jb = &self.jobs[b];
                let out = Job {
                    id: jb.id,
                    topic: clone_bytes(&jb.topic),
                    content_type: clone_bytes(&jb.content_type),
                    priority: jb.priority,
                    payload: clone_bytes(&jb.payload),
                    enqueued_at: jb.enqueued_at,
                    available_at: jb.available_at,
                    claimed_at: jb.claimed_at,
                    retries: jb.retries,
                    status: jb.status,
                };
                proof {
                    assert(self@.jobs =~= dequeue_spec(old(self)@, topic@, now).0.jobs);
                    assert(self@ =~= dequeue_spec(old(self)@, topic@, now).0);
                    assert(out@ =~= claim_job(old(self)@.jobs[b as int], now));
                }
                Some(out)
            },
        }
    }

    /// Marks the job with identifier `id` permanently done.  Acking is
    /// idempotent: a second ack of the same job changes nothing, and a dead
    /// job is never resurrected.
    #[verifier::loop_isolation(false)]
    pub fn ack(&mut self, id: u64)
        ensures
            final(self)@ == ack_spec(old(self)@, id),
            wf(old(self)@) ==> wf(final(self)@),
    {
        let n = self.jobs.len();
        let mut i: usize = 0;
        while i < n
            invariant
                0 <= i <= n,
                n == self@.jobs.len(),
                self@.next_id == old(self)@.next_id,
                self@.max_retries == old(self)@.max_retries,
                self@.retry_backoff == old(self)@.retry_backoff,
                self@.claim_timeout == old(self)@.claim_timeout,
                forall|k: int|
                    0 <= k < i ==> (#[trigger] self.jobs@[k])@ == ack_job(old(self).jobs@[k]@, id),
                forall|k: int| i <= k < n ==> (#[trigger] self.jobs@[k]) == old(self).jobs@[k],
            decreases n - i,
        {
            let dead = match self.jobs[i].status {
                JobStatus::Dead => true,
                _ => false,
            };
            if self.jobs[i].id == id && !dead {
                self.jobs[i].status = JobStatus::Done;
            }
            proof {
                assert(self.jobs@[i as int]@ =~= ack_job(old(self).jobs@[i as int]@, id));
            }
            i = i + 1;
        }
        proof {
            assert forall|k: int| 0 <= k < n implies self@.jobs[k] == ack_spec(
                old(self)@,
                id,
            ).jobs[k] by {
                assert(self@.jobs[k] == self.jobs@[k]@);
                assert(old(self)@.jobs[k] == old(self).jobs@[k]@);
            }
            assert(self@.jobs =~= ack_spec(old(self)@, id).jobs);
            assert(self@ =~= ack_spec(old(self)@, id));
        }
    }

    /// Records a processing failure of the claimed job `id` at time `now`:
    /// below the retry maximum the job goes back to pending with a backoff
    /// delay and one more retry on its count; at the maximum it becomes
    /// dead, terminally.
    #[verifier::loop_isolation(false)]
    pub fn fail(&mut self, id: u64, now: u64)
        ensures
            final(self)@ == fail_spec(old(self)@, id, now),
            wf(old(self)@) ==> wf(final(self)@),
    {
        let n = self.jobs.len();
        let mut i: usize = 0;
        while i < n
            invariant
                0 <= i <= n,
                n == self@.jobs.len(),
                self@.next_id == old(self)@.next_id,
                self@.max_retries == old(self)@.max_retries,
                self@.retry_backoff == old(self)@.retry_backoff,
                self@.claim_timeout == old(self)@.claim_timeout,
                forall|k: int|
                    0 <= k < i ==> (#[trigger] self.jobs@[k])@ == fail_job(
                        old(self).jobs@[k]@,
                        id,
                        old(self)@.max_retries,
                        old(self)@.retry_backoff,
                        now,
                    ),
                forall|k: int| i <= k < n ==> (#[trigger] self.jobs@[k]) == old(self).jobs@[k],
            decreases n - i,
        {
            let claimed = match self.jobs[i].status {
                JobStatus::Claimed => true,
                _ => false,
            };
            if self.jobs[i].id == id && claimed {
                if self.jobs[i].retries < self.max_retries {
                    self.jobs[i].status = JobStatus::Pending;
                    let rt = self.jobs[i].retries;
                    self.jobs[i].retries = rt + 1;
                    self.jobs[i].available_at = now.saturating_add(self.retry_backoff);
                } else {
                    self.jobs[i].status = JobStatus::Dead;
                }
            }
            proof {
                assert(self.jobs@[i as int]@ =~= fail_job(
                    old(self).jobs@[i as int]@,
                    id,
                    old(self)@.max_retries,
                    old(self)@.retry_backoff,
                    now,
                ));
            }
            i = i + 1;
        }
        proof {
            assert forall|k: int| 0 <= k < n implies self@.jobs[k] == fail_spec(
                old(self)@,
                id,
                now,
            ).jobs[k] by {
                assert(self@.jobs[k] == self.jobs@[k]@);
                assert(old(self)@.jobs[k] == old(self).jobs@[k]@);
            }
            assert(self@.jobs =~= fail_spec(old(self)@, id, now).jobs);
            assert(self@ =~= fail_spec(old(self)@, id, now));
        }
    }

    /// What a process restart leaves behind: every durably recorded job,
    /// with in-flight claims released.  Nothing enqueued is ever lost.
    #[verifier::loop_isolation(false)]
    pub fn restart(&mut self)
        ensures
            final(self)@ == restart_spec(old(self)@),
            wf(old(self)@) ==> wf(final(self)@),
    {
        let n = self.jobs.len();
        let mut i: usize = 0;
        while i < n
            invariant
                0 <= i <= n,
                n == self@.jobs.len(),
                self@.next_id == old(self)@.next_id,
                self@.max_retries == old(self)@.max_retries,
                self@.retry_backoff == old(self)@.retry_backoff,
                self@.claim_timeout == old(self)@.claim_timeout,
                forall|k: int|
                    0 <= k < i ==> (#[trigger] self.jobs@[k])@ == restart_job(old(self).jobs@[k]@),
                forall|k: int| i <= k < n ==> (#[trigger] self.jobs@[k]) == old(self).jobs@[k],
            decreases n - i,
        {
            let claimed = match self.jobs[i].status {
                JobStatus::Claimed => true,
                _ => false,
            };
            if claimed {
                self.jobs[i].status = JobStatus::Pending;
            }
            proof {
                assert(self.jobs@[i as int]@ =~= restart_job(old(self).jobs@[i as int]@));
            }
            i = i + 1;
        }
        proof {
            assert forall|k: int| 0 <= k < n implies self@.jobs[k] == restart_spec(
                old(self)@,
            ).jobs[k] by {
                assert(self@.jobs[k] == self.jobs@[k]@);
                assert(old(self)@.jobs[k] == old(self).jobs@[k]@);
            }
            assert(self@.jobs =~= restart_spec(old(self)@).jobs);
            assert(self@ =~= restart_spec(old(self)@));
        }
    }

    /// Returns to pending every job whose claim has outlived the configured
    /// claim-timeout, so a crashed worker cannot strand a job forever.
    #[verifier::loop_isolation(false)]
    pub fn reclaim(&mut self, now: u64)
        ensures
            final(self)@ == reclaim_spec(old(self)@, now),
            wf(old(self)@) ==> wf(final(self)@),
    {
        let n = self.jobs.len();
        let mut i: usize = 0;
        while i < n
            invariant
                0 <= i <= n,
                n == self@.jobs.len(),
                self@.next_id == old(self)@.next_id,
                self@.max_retries == old(self)@.max_retries,
                self@.retry_backoff == old(self)@.retry_backoff,
                self@.claim_timeout == old(self)@.claim_timeout,
                forall|k: int|
                    0 <= k < i ==> (#[trigger] self.jobs@[k])@ == reclaim_job(
                        old(self).jobs@[k]@,
                        old(self)@.claim_timeout,
                        now,
                    ),
                forall|k: int| i <= k < n ==> (#[trigger] self.jobs@[k]) == old(self).jobs@[k],
            decreases n - i,
        {
            let claimed = match self.jobs[i].status {
                JobStatus::Claimed => true,
                _ => false,
            };
            if claimed && self.jobs[i].claimed_at.saturating_add(self.claim_timeout) <= now {
                self.jobs[i].status = JobStatus::Pending;
            }
            proof {
                assert(self.jobs@[i as int]@ =~= reclaim_job(
                    old(self).jobs@[i as int]@,
                    old(self)@.claim_timeout,
                    now,
                ));
            }
            i = i + 1;
        }
        proof {
            assert forall|k: int| 0 <= k < n implies self@.jobs[k] == reclaim_spec(
                old(self)@,
                now,
            ).jobs[k] by {
                assert(self@.jobs[k] == self.jobs@[k]@);
                assert(old(self)@.jobs[k] == old(self).jobs@[k]@);
            }
            assert(self@.jobs =~= reclaim_spec(old(self)@, now).jobs);
            assert(self@ =~= reclaim_spec(old(self)@, now));
        }
    }
}

} // verus!
